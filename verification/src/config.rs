//! Value types restricting arguments of the controller API, and the
//! documented physical bounds for numeric command arguments.

use vstd::prelude::*;

use crate::error::Error;

verus! {

/// Lowest baud rate the controller accepts.
pub const BAUD_MIN: u32 = 9600;
/// Highest baud rate the controller accepts.
pub const BAUD_MAX: u32 = 1_000_000;
/// Highest step frequency in Hz (lowest is 0).
pub const STEP_FREQ_MAX: u16 = 600;
/// Highest relative actuator step size in percent (lowest is 0).
pub const REL_STEP_SIZE_MAX: u8 = 100;
/// Highest number of steps per move (lowest is 0).
pub const NUM_STEPS_MAX: u16 = 50_000;
/// Highest stage temperature in Kelvin (lowest is 0).
pub const TEMP_MAX: u16 = 300;
/// Highest DC level for scan mode (lowest is 0).
pub const SCANNER_LEVEL_MAX: u16 = 1023;
/// Lowest drive factor, in tenths (0.1).
pub const DRIVE_FACTOR_TENTHS_MIN: u8 = 1;
/// Highest drive factor, in tenths (3.0).
pub const DRIVE_FACTOR_TENTHS_MAX: u8 = 30;
/// Lowest nonzero excitation duty cycle percentage; the only legal value
/// below it is 0.
pub const DUTY_NONZERO_MIN: u8 = 10;
/// Highest excitation duty cycle percentage.
pub const DUTY_MAX: u8 = 100;

/// The module slot within the controller: one of exactly six fixed bays.
#[derive(Debug, Clone, Copy, PartialEq, Eq, Structural)]
pub enum Slot {
    One,
    Two,
    Three,
    Four,
    Five,
    Six,
}

/// The wire text of a slot: its 1-based bay number.
pub open spec fn slot_chars(s: Slot) -> Seq<char> {
    match s {
        Slot::One => "1"@,
        Slot::Two => "2"@,
        Slot::Three => "3"@,
        Slot::Four => "4"@,
        Slot::Five => "5"@,
        Slot::Six => "6"@,
    }
}

/// The 0-based index of a slot into the six-entry module table.
pub open spec fn slot_index(s: Slot) -> int {
    match s {
        Slot::One => 0,
        Slot::Two => 1,
        Slot::Three => 2,
        Slot::Four => 3,
        Slot::Five => 4,
        Slot::Six => 5,
    }
}

impl Slot {
    /// The 1-based wire-protocol digit for this slot, as request text.
    pub fn wire_str(&self) -> (r: &'static str)
        ensures
            r@ == slot_chars(*self),
    {
        match self {
            Slot::One => "1",
            Slot::Two => "2",
            Slot::Three => "3",
            Slot::Four => "4",
            Slot::Five => "5",
            Slot::Six => "6",
        }
    }

    /// The 0-based index of this slot into the module table.
    pub fn index(&self) -> (r: usize)
        ensures
            r == slot_index(*self),
    {
        match self {
            Slot::One => 0,
            Slot::Two => 1,
            Slot::Three => 2,
            Slot::Four => 3,
            Slot::Five => 4,
            Slot::Six => 5,
        }
    }
}

/// Supported serial interfaces of the controller.
#[derive(Debug, Clone, Copy, PartialEq, Eq, Structural)]
pub enum SerialInterface {
    Rs422,
    Usb,
}

/// Address assignment modes for the controller's LAN interface.
#[derive(Debug, Clone, Copy, PartialEq, Eq, Structural)]
pub enum IpAddrMode {
    Dhcp,
    Static,
}

/// The kinds of module the controller chassis can hold, with `Empty`
/// standing for an unoccupied bay.
#[derive(Debug, Clone, Copy, PartialEq, Eq, Structural)]
pub enum Module {
    Cadm,
    Rsm,
    Oem,
    Psm,
    Edm,
    Empty,
}

/// The display name of a module kind, used in diagnostics.
pub open spec fn module_name_chars(m: Module) -> Seq<char> {
    match m {
        Module::Cadm => "Cadm"@,
        Module::Rsm => "Rsm"@,
        Module::Oem => "Oem"@,
        Module::Psm => "Psm"@,
        Module::Edm => "Edm"@,
        Module::Empty => "Empty"@,
    }
}

/// Whether `s` begins with the letters of `low`, each position matching
/// case-insensitively (`up` holds the upper-case form of `low`).
pub open spec fn starts_with_ci(s: Seq<char>, low: Seq<char>, up: Seq<char>) -> bool {
    &&& s.len() >= low.len()
    &&& up.len() == low.len()
    &&& forall|i: int| 0 <= i < low.len() ==> s[i] == low[i] || s[i] == up[i]
}

/// The module kind a device-reported name denotes: a known code as a
/// case-insensitive prefix, the bare dash for an unoccupied bay, or nothing.
pub open spec fn parse_module_chars(s: Seq<char>) -> Option<Module> {
    if starts_with_ci(s, "cadm"@, "CADM"@) {
        Some(Module::Cadm)
    } else if starts_with_ci(s, "rsm"@, "RSM"@) {
        Some(Module::Rsm)
    } else if starts_with_ci(s, "oem"@, "OEM"@) {
        Some(Module::Oem)
    } else if starts_with_ci(s, "psm"@, "PSM"@) {
        Some(Module::Psm)
    } else if starts_with_ci(s, "edm"@, "EDM"@) {
        Some(Module::Edm)
    } else if s == "-"@ {
        Some(Module::Empty)
    } else {
        None
    }
}

/// Whether `s` begins with the letters of `low`, case-insensitively.
/// `low` and `up` must be the lower- and upper-case spellings of one code.
fn has_ci_prefix(s: &str, low: &str, up: &str) -> (b: bool)
    requires
        low@.len() == up@.len(),
    ensures
        b == starts_with_ci(s@, low@, up@),
{
    let n = low.unicode_len();
    if s.unicode_len() < n {
        return false;
    }
    let mut i: usize = 0;
    while i < n
        invariant
            0 <= i <= n,
            n == low@.len(),
            low@.len() == up@.len(),
            s@.len() >= n,
            forall|j: int| 0 <= j < i ==> s@[j] == low@[j] || s@[j] == up@[j],
        decreases n - i,
    {
        let c = s.get_char(i);
        if c != low.get_char(i) && c != up.get_char(i) {
            return false;
        }
        i += 1;
    }
    true
}

impl Module {
    /// Parses a device-reported module name: a known code as a
    /// case-insensitive prefix maps to that kind, and the bare dash to
    /// [`Module::Empty`]; anything else is an invalid response.
    pub fn parse(s: &str) -> (r: Result<Module, Error>)
        ensures
            match parse_module_chars(s@) {
                Some(m) => r == Ok::<Module, Error>(m),
                None => r matches Err(e) && e is InvalidResponse,
            },
    {
        proof {
            reveal_strlit("cadm");
            reveal_strlit("CADM");
            reveal_strlit("rsm");
            reveal_strlit("RSM");
            reveal_strlit("oem");
            reveal_strlit("OEM");
            reveal_strlit("psm");
            reveal_strlit("PSM");
            reveal_strlit("edm");
            reveal_strlit("EDM");
            reveal_strlit("-");
        }
        if has_ci_prefix(s, "cadm", "CADM") {
            Ok(Module::Cadm)
        } else if has_ci_prefix(s, "rsm", "RSM") {
            Ok(Module::Rsm)
        } else if has_ci_prefix(s, "oem", "OEM") {
            Ok(Module::Oem)
        } else if has_ci_prefix(s, "psm", "PSM") {
            Ok(Module::Psm)
        } else if has_ci_prefix(s, "edm", "EDM") {
            Ok(Module::Edm)
        } else if s.unicode_len() == 1 && s.get_char(0) == '-' {
            proof {
                assert(s@ =~= "-"@) by {
                    reveal_strlit("-");
                }
            }
            Ok(Module::Empty)
        } else {
            proof {
                reveal_strlit("-");
            }
            let mut msg = String::new();
            msg.append("Unknown module: ");
            msg.append(s);
            Err(Error::InvalidResponse(msg))
        }
    }

    /// The display name of this module kind, for diagnostics.
    pub fn name(&self) -> (r: &'static str)
        ensures
            r@ == module_name_chars(*self),
    {
        match self {
            Module::Cadm => "Cadm",
            Module::Rsm => "Rsm",
            Module::Oem => "Oem",
            Module::Psm => "Psm",
            Module::Edm => "Edm",
            Module::Empty => "Empty",
        }
    }
}

/// The operation modes supported by the controller; exactly one is active
/// at any time.
#[derive(Debug, Clone, Copy, PartialEq, Eq, Structural)]
pub enum ControllerOpMode {
    Basedrive,
    Servodrive,
    Flexdrive,
}

/// The display name of an operating mode, used in diagnostics.
pub open spec fn mode_name_chars(m: ControllerOpMode) -> Seq<char> {
    match m {
        ControllerOpMode::Basedrive => "Basedrive"@,
        ControllerOpMode::Servodrive => "Servodrive"@,
        ControllerOpMode::Flexdrive => "Flexdrive"@,
    }
}

impl ControllerOpMode {
    /// The display name of this mode, for diagnostics.
    pub fn name(&self) -> (r: &'static str)
        ensures
            r@ == mode_name_chars(*self),
    {
        match self {
            ControllerOpMode::Basedrive => "Basedrive",
            ControllerOpMode::Servodrive => "Servodrive",
            ControllerOpMode::Flexdrive => "Flexdrive",
        }
    }
}

/// Specific channel of a module.
#[derive(Debug, Clone, Copy, PartialEq, Eq, Structural)]
pub enum ModuleChannel {
    One,
    Two,
    Three,
}

/// The wire text of a module channel: its 1-based number.
pub open spec fn channel_chars(c: ModuleChannel) -> Seq<char> {
    match c {
        ModuleChannel::One => "1"@,
        ModuleChannel::Two => "2"@,
        ModuleChannel::Three => "3"@,
    }
}

impl ModuleChannel {
    /// The 1-based wire-protocol digit for this channel, as request text.
    pub fn wire_str(&self) -> (r: &'static str)
        ensures
            r@ == channel_chars(*self),
    {
        match self {
            ModuleChannel::One => "1",
            ModuleChannel::Two => "2",
            ModuleChannel::Three => "3",
        }
    }
}

/// Direction of movement for a stage: `1` on the wire for positive
/// movement and `0` for negative movement.
#[derive(Debug, Clone, Copy, PartialEq, Eq, Structural)]
pub enum Direction {
    Positive,
    Negative,
}

/// The wire text of a direction.
pub open spec fn direction_chars(d: Direction) -> Seq<char> {
    match d {
        Direction::Positive => "1"@,
        Direction::Negative => "0"@,
    }
}

impl Direction {
    /// The wire-protocol digit for this direction, as request text.
    pub fn wire_str(&self) -> (r: &'static str)
        ensures
            r@ == direction_chars(*self),
    {
        match self {
            Direction::Positive => "1",
            Direction::Negative => "0",
        }
    }
}

/// Stage positioning modes available when setting a servodrive setpoint.
#[derive(Debug, Clone, Copy, PartialEq, Eq, Structural)]
pub enum SetpointPosMode {
    Absolute,
    Relative,
}

/// The wire text of a setpoint positioning mode.
pub open spec fn pos_mode_chars(m: SetpointPosMode) -> Seq<char> {
    match m {
        SetpointPosMode::Absolute => "1"@,
        SetpointPosMode::Relative => "0"@,
    }
}

impl SetpointPosMode {
    /// The wire-protocol digit for this positioning mode, as request text.
    pub fn wire_str(&self) -> (r: &'static str)
        ensures
            r@ == pos_mode_chars(*self),
    {
        match self {
            SetpointPosMode::Absolute => "1",
            SetpointPosMode::Relative => "0",
        }
    }
}

/// The modules a command applies to: any, or only the listed kinds,
/// checked against whichever module occupies the addressed slot.
#[derive(Debug, Clone, PartialEq)]
pub enum ModuleScope {
    Any,
    Only(Vec<Module>),
}

/// The operating modes a command is legal in: any, or only the listed ones,
/// checked against the controller's current mode.
#[derive(Debug, Clone, PartialEq)]
pub enum ModeScope {
    Any,
    Only(Vec<ControllerOpMode>),
}

} // verus!
