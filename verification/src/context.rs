//! The controller context: the one long-lived mutable entity. It holds
//! the current operating mode, the six-slot module table and the two
//! populate-once caches, validates every command's mode and module scope
//! against that state before any wire traffic, dispatches through the
//! transaction engine, and interprets the resulting frame.

use vstd::prelude::*;
use vstd::string::StrSliceExecFns;
use vstd::string::StringExecFns;

use crate::channel::Channel;
use crate::codec::{Command, Frame};
use crate::config::{
    mode_name_chars, module_name_chars, parse_module_chars, slot_chars, slot_index,
    channel_chars, direction_chars, pos_mode_chars, ControllerOpMode, Direction, IpAddrMode,
    Module, ModeScope, ModuleChannel,
    ModuleScope, SerialInterface, SetpointPosMode, Slot,
};
use crate::connection::Connection;
use crate::error::Error;

verus! {

/// Whether a command with mode scope `scope` is legal in `mode`.
pub open spec fn mode_allowed(scope: ModeScope, mode: ControllerOpMode) -> bool {
    match scope {
        ModeScope::Any => true,
        ModeScope::Only(ms) => ms@.contains(mode),
    }
}

/// Whether a command with module scope `scope`, addressed at `slot`, is
/// legal given the module table `table`. A restrictive scope with no slot
/// supplied is trivially valid: a defensive default, not a real use case.
pub open spec fn module_allowed(scope: ModuleScope, slot: Option<Slot>, table: Seq<Module>) -> bool {
    match scope {
        ModuleScope::Any => true,
        ModuleScope::Only(ms) => match slot {
            Some(s) => ms@.contains(table[slot_index(s)]),
            None => true,
        },
    }
}

/// Whether the stage name `s` occurs in the catalog `list`.
pub open spec fn stage_listed(list: Seq<Seq<char>>, s: Seq<char>) -> bool {
    exists|i: int| 0 <= i < list.len() && list[i] == s
}

/// Whether two strings hold the same characters.
fn str_eq(a: &str, b: &str) -> (r: bool)
    ensures
        r == (a@ == b@),
{
    let n = a.unicode_len();
    if n != b.unicode_len() {
        proof {
            assert(a@ != b@);
        }
        return false;
    }
    let mut i: usize = 0;
    while i < n
        invariant
            0 <= i <= n,
            n == a@.len(),
            n == b@.len(),
            forall|j: int| 0 <= j < i ==> a@[j] == b@[j],
        decreases n - i,
    {
        if a.get_char(i) != b.get_char(i) {
            return false;
        }
        i += 1;
    }
    proof {
        assert(a@ =~= b@);
    }
    true
}

/// Whether `mode` is one of the listed modes.
fn mode_listed(ms: &Vec<ControllerOpMode>, mode: ControllerOpMode) -> (r: bool)
    ensures
        r == ms@.contains(mode),
{
    let mut i: usize = 0;
    while i < ms.len()
        invariant
            0 <= i <= ms@.len(),
            forall|j: int| 0 <= j < i ==> ms@[j] != mode,
        decreases ms@.len() - i,
    {
        if ms[i] == mode {
            return true;
        }
        i += 1;
    }
    false
}

/// Whether `m` is one of the listed module kinds.
fn module_listed(ms: &Vec<Module>, m: Module) -> (r: bool)
    ensures
        r == ms@.contains(m),
{
    let mut i: usize = 0;
    while i < ms.len()
        invariant
            0 <= i <= ms@.len(),
            forall|j: int| 0 <= j < i ==> ms@[j] != m,
        decreases ms@.len() - i,
    {
        if ms[i] == m {
            return true;
        }
        i += 1;
    }
    false
}

/// The diagnostic text for a response whose value count missed the one
/// the caller expected.
pub open spec fn length_mismatch_msg(n: nat, got: nat) -> Seq<char> {
    "Expected "@ + crate::numtext::dec_chars(n) + " values, got "@ + crate::numtext::dec_chars(got)
}

/// What dispatch makes of a delimited frame's value list: the list
/// itself when no count is owed or the count matches, else the
/// length-mismatch error citing expected and actual. Which wire encoding
/// carried the list never enters.
pub open spec fn values_interpreted(
    vs: Seq<Seq<char>>,
    n_resp_vals: Option<usize>,
    r: Result<Vec<String>, Error>,
) -> bool {
    match n_resp_vals {
        Some(n) => if vs.len() == n {
            r matches Ok(v) && v.deep_view() == vs
        } else {
            r matches Err(e) && e matches Error::InvalidResponse(m) && m@ == length_mismatch_msg(
                n as nat,
                vs.len(),
            )
        },
        None => r matches Ok(v) && v.deep_view() == vs,
    }
}

/// What dispatch makes of one classified frame: a device error frame
/// becomes [`Error::DeviceError`] carrying the device's message
/// verbatim; the two delimiter encodings are interpreted identically,
/// through [`values_interpreted`] on the value list alone.
pub open spec fn interpreted(
    f: Frame,
    n_resp_vals: Option<usize>,
    r: Result<Vec<String>, Error>,
) -> bool {
    match f {
        Frame::Error(s) => r matches Err(e) && e matches Error::DeviceError(m) && m@ == s@,
        Frame::CrDelimited(v) => values_interpreted(v.deep_view(), n_resp_vals, r),
        Frame::CommaDelimited(v) => values_interpreted(v.deep_view(), n_resp_vals, r),
    }
}

/// Turns one classified frame into the dispatch result, exactly as
/// [`interpreted`] states.
fn interpret_frame(f: Frame, n_resp_vals: Option<usize>) -> (r: Result<Vec<String>, Error>)
    ensures
        interpreted(f, n_resp_vals, r),
        r matches Ok(v) ==> (n_resp_vals matches Some(n) ==> v@.len() == n),
        r matches Ok(v) ==> match f {
            Frame::Error(_) => false,
            Frame::CommaDelimited(w) => v@.len() == w@.len(),
            Frame::CrDelimited(w) => v@.len() == w@.len(),
        },
{
    match f {
        Frame::Error(s) => Err(Error::DeviceError(s)),
        Frame::CrDelimited(v) | Frame::CommaDelimited(v) => {
            match n_resp_vals {
                Some(n_vals) => {
                    if v.len() != n_vals {
                        let mut m = String::from_str("Expected ");
                        m.append(crate::numtext::u64_to_string(n_vals as u64).as_str());
                        m.append(" values, got ");
                        m.append(crate::numtext::u64_to_string(v.len() as u64).as_str());
                        proof {
                            assert(v.deep_view().len() == v@.len());
                        }
                        Err(Error::InvalidResponse(m))
                    } else {
                        proof {
                            assert(v.deep_view().len() == v@.len());
                        }
                        Ok(v)
                    }
                },
                None => Ok(v),
            }
        },
    }
}

/// A successful dispatch result is the decoded value list of the reply
/// bytes, whichever delimiter encoding carried it.
proof fn lemma_dispatch_values(bytes: Seq<u8>, n_resp_vals: Option<usize>, v: Vec<String>)
    requires
        exists|f: Frame|
            #[trigger] crate::codec::frame_decodes(bytes, f) && interpreted(
                f,
                n_resp_vals,
                Ok::<Vec<String>, Error>(v),
            ),
    ensures
        crate::codec::values_decode(bytes, v.deep_view()),
        v.deep_view().len() == v@.len(),
{
    let f = choose|f: Frame|
        crate::codec::frame_decodes(bytes, f) && interpreted(
            f,
            n_resp_vals,
            Ok::<Vec<String>, Error>(v),
        );
    crate::codec::lemma_frame_values_decode(bytes, f);
    match f {
        Frame::Error(_) => {
            assert(false);
        },
        Frame::CommaDelimited(_) => {},
        Frame::CrDelimited(_) => {},
    }
    assert(v.deep_view().len() == v@.len());
}

/// The diagnostic text for a stage name absent from the catalog.
pub open spec fn stage_unsupported_msg(stage: Seq<char>) -> Seq<char> {
    "Stage "@ + stage + " unsupported"@
}

/// How the servodrive status tuple relates to the reply's eight values:
/// the first five each parse as `u8`, the last three as `i64`, in order.
pub open spec fn status_parsed(vs: Seq<Seq<char>>, t: (u8, u8, u8, u8, u8, i64, i64, i64)) -> bool {
    &&& vs.len() == 8
    &&& crate::numtext::is_unsigned_str(vs[0], u8::MAX as nat) && t.0 == crate::numtext::dec_value(
        crate::numtext::unsigned_body(vs[0]),
    )
    &&& crate::numtext::is_unsigned_str(vs[1], u8::MAX as nat) && t.1 == crate::numtext::dec_value(
        crate::numtext::unsigned_body(vs[1]),
    )
    &&& crate::numtext::is_unsigned_str(vs[2], u8::MAX as nat) && t.2 == crate::numtext::dec_value(
        crate::numtext::unsigned_body(vs[2]),
    )
    &&& crate::numtext::is_unsigned_str(vs[3], u8::MAX as nat) && t.3 == crate::numtext::dec_value(
        crate::numtext::unsigned_body(vs[3]),
    )
    &&& crate::numtext::is_unsigned_str(vs[4], u8::MAX as nat) && t.4 == crate::numtext::dec_value(
        crate::numtext::unsigned_body(vs[4]),
    )
    &&& crate::numtext::is_i64_str(vs[5]) && t.5 as int == crate::numtext::i64_str_value(vs[5])
    &&& crate::numtext::is_i64_str(vs[6]) && t.6 as int == crate::numtext::i64_str_value(vs[6])
    &&& crate::numtext::is_i64_str(vs[7]) && t.7 as int == crate::numtext::i64_str_value(vs[7])
}

/// The diagnostic text for a command rejected in the current mode.
pub open spec fn mode_reject_msg(mnemonic: Seq<char>, mode: ControllerOpMode) -> Seq<char> {
    "Unsupported command: '"@ + mnemonic + "', in mode: '"@ + mode_name_chars(mode) + "'"@
}

/// The diagnostic text for a command rejected for the module in the
/// addressed slot.
pub open spec fn module_reject_msg(mnemonic: Seq<char>, m: Module) -> Seq<char> {
    "Unsupported command: '"@ + mnemonic + "', for module: '"@ + module_name_chars(m) + "'"@
}

/// Abstract, central representation of the controller.
pub struct BaseContext<C: Channel> {
    /// The controller-wide operating mode as last confirmed.
    pub op_mode: ControllerOpMode,
    /// Firmware version: empty until the first successful query, then
    /// kept for the session and never invalidated.
    pub fw_vers: String,
    /// The transaction engine over the chosen transport.
    pub conn: Connection<C>,
    /// The six-slot module table; entry `i` is the module in slot `i+1`.
    /// All `Empty` until a module-list query succeeds, then overwritten
    /// atomically from a single response.
    pub modules: Vec<Module>,
    /// Supported-stage catalog: populated lazily on first need, then
    /// reused for the session and never refreshed.
    pub supported_stages: Vec<String>,
}

impl<C: Channel> BaseContext<C> {
    /// The structural invariant: a healthy engine and exactly six slots.
    pub open spec fn wf(&self) -> bool {
        &&& self.conn.wf()
        &&& self.modules@.len() == 6
    }

    /// The request text this context's channel has carried.
    pub open spec fn written(&self) -> Seq<char> {
        self.conn.written()
    }

    /// Everything but the connection, unchanged: the frame for methods
    /// that touch no controller state.
    pub open spec fn state_unchanged(pre: &Self, post: &Self) -> bool {
        &&& post.op_mode == pre.op_mode
        &&& post.fw_vers == pre.fw_vers
        &&& post.modules == pre.modules
        &&& post.supported_stages == pre.supported_stages
    }

    /// A fresh context over an opened channel: base drive assumed, no
    /// firmware version, every slot empty, no stage catalog.
    pub fn new(channel: C) -> (r: Self)
        ensures
            r.wf(),
            r.op_mode == ControllerOpMode::Basedrive,
            r.fw_vers@.len() == 0,
            r.modules@ =~= Seq::new(6, |i: int| Module::Empty),
            r.supported_stages@.len() == 0,
            r.written() == channel.written(),
    {
        let conn = Connection::new(channel);
        let mut modules: Vec<Module> = Vec::new();
        modules.push(Module::Empty);
        modules.push(Module::Empty);
        modules.push(Module::Empty);
        modules.push(Module::Empty);
        modules.push(Module::Empty);
        modules.push(Module::Empty);
        proof {
            assert(modules@ =~= Seq::new(6, |i: int| Module::Empty));
        }
        BaseContext {
            op_mode: ControllerOpMode::Basedrive,
            fw_vers: String::new(),
            conn,
            modules,
            supported_stages: Vec::new(),
        }
    }

    /// Checks whether a command is valid given the current operating mode
    /// and the module in the addressed slot: the mode scope first, then
    /// the module scope. Issues no wire traffic.
    pub fn check_command(&self, cmd: &Command, slot: Option<Slot>) -> (r: Result<(), Error>)
        requires
            self.wf(),
        ensures
            r is Ok <==> mode_allowed(cmd.allowed_mode, self.op_mode) && module_allowed(
                cmd.allowed_mod,
                slot,
                self.modules@,
            ),
            !mode_allowed(cmd.allowed_mode, self.op_mode) ==> (r matches Err(e) && e matches
                Error::InvalidParams(m) && m@ == mode_reject_msg(cmd.mnemonic@, self.op_mode)),
            mode_allowed(cmd.allowed_mode, self.op_mode) && !module_allowed(
                cmd.allowed_mod,
                slot,
                self.modules@,
            ) ==> (r matches Err(e) && e matches Error::InvalidParams(m) && slot matches Some(s)
                && m@ == module_reject_msg(cmd.mnemonic@, self.modules@[slot_index(s)])),
    {
        let mode_ok = match &cmd.allowed_mode {
            ModeScope::Any => true,
            ModeScope::Only(modes) => mode_listed(modes, self.op_mode),
        };
        if !mode_ok {
            let mut m = String::from_str("Unsupported command: '");
            m.append(cmd.mnemonic.as_str());
            m.append("', in mode: '");
            m.append(self.op_mode.name());
            m.append("'");
            return Err(Error::InvalidParams(m));
        }
        match (&cmd.allowed_mod, &slot) {
            (ModuleScope::Only(mods), Some(s)) => {
                if !module_listed(mods, self.modules[s.index()]) {
                    let mut m = String::from_str("Unsupported command: '");
                    m.append(cmd.mnemonic.as_str());
                    m.append("', for module: '");
                    m.append(self.modules[s.index()].name());
                    m.append("'");
                    return Err(Error::InvalidParams(m));
                }
            },
            // A restrictive scope without a slot, like an unrestricted
            // one, is trivially valid.
            _ => {},
        }
        Ok(())
    }

    /// Validates, transacts, and interprets the frame: a device error
    /// frame becomes [`Error::DeviceError`] carrying the device's message
    /// verbatim; a delimited frame's length is checked against
    /// `n_resp_vals` when one is supplied, so that callers may index into
    /// the result with fixed offsets. A command rejected by validation
    /// leaves the context untouched and causes no wire traffic.
    pub fn handle_command(
        &mut self,
        cmd: &Command,
        n_resp_vals: Option<usize>,
        slot: Option<Slot>,
    ) -> (r: Result<Vec<String>, Error>)
        requires
            old(self).wf(),
        ensures
            final(self).wf(),
            Self::state_unchanged(old(self), final(self)),
            !(mode_allowed(cmd.allowed_mode, old(self).op_mode) && module_allowed(
                cmd.allowed_mod,
                slot,
                old(self).modules@,
            )) ==> (r matches Err(e) && e is InvalidParams && *final(self) == *old(self)),
            r is Ok ==> final(self).written() == old(self).written() + cmd.payload@,
            final(self).written() == old(self).written() || final(self).written() == old(self).written() + cmd.payload@,
            r matches Ok(v) ==> (n_resp_vals matches Some(n) ==> v@.len() == n),
            r matches Ok(v) ==> v@.len() >= 1,
            !mode_allowed(cmd.allowed_mode, old(self).op_mode) ==> (r matches Err(e) && e matches
                Error::InvalidParams(m) && m@ == mode_reject_msg(cmd.mnemonic@, old(self).op_mode)),
            r matches Err(e) ==> (e is InvalidParams ==> !(mode_allowed(
                cmd.allowed_mode,
                old(self).op_mode,
            ) && module_allowed(cmd.allowed_mod, slot, old(self).modules@))),
            r matches Err(e) ==> (e is InvalidParams || e is Io || e is BufOverflow || e is Utf8
                || e is InvalidResponse || e is DeviceError),
            mode_allowed(cmd.allowed_mode, old(self).op_mode) && module_allowed(
                cmd.allowed_mod,
                slot,
                old(self).modules@,
            ) ==> {
                ||| (r matches Err(e) && (e is Io || e is BufOverflow))
                ||| (r matches Err(e) && crate::codec::decode_fails(final(self).conn.buffered(), e))
                ||| (exists|f: Frame|
                    #[trigger] crate::codec::frame_decodes(final(self).conn.buffered(), f)
                        && interpreted(f, n_resp_vals, r))
            },
    {
        match self.check_command(cmd, slot) {
            Ok(_) => {},
            Err(e) => {
                return Err(e);
            },
        }
        let frame = match self.conn.transact(cmd) {
            Ok(f) => f,
            Err(e) => {
                return Err(e);
            },
        };
        let ghost gframe = frame;
        let out = interpret_frame(frame, n_resp_vals);
        proof {
            assert(crate::codec::frame_decodes(self.conn.buffered(), gframe) && interpreted(
                gframe,
                n_resp_vals,
                out,
            ));
        }
        out
    }

    /// Returns the firmware version of the controller: the value cached
    /// from an earlier successful query if there is one, else the
    /// device's answer to a fresh query, which is then cached for the
    /// session and never invalidated.
    pub fn get_fw_version(&mut self) -> (r: Result<String, Error>)
        requires
            old(self).wf(),
        ensures
            final(self).wf(),
            final(self).op_mode == old(self).op_mode,
            final(self).modules == old(self).modules,
            final(self).supported_stages == old(self).supported_stages,
            old(self).fw_vers@.len() > 0 ==> *final(self) == *old(self) && (r matches Ok(s) && s
                == old(self).fw_vers),
            old(self).fw_vers@.len() == 0 ==> {
                &&& (r matches Ok(s) ==> final(self).fw_vers == s && final(self).written() == old(self).written() + ("/VER"@ + crate::codec::term_chars()))
                &&& (r is Err ==> final(self).fw_vers@.len() == 0)
            },
            old(self).fw_vers@.len() == 0 ==> (r matches Ok(s) ==> (exists|vs: Seq<Seq<char>>|
                #[trigger] crate::codec::values_decode(final(self).conn.buffered(), vs)
                && vs.len() == 1 && s@ == vs[0])),
            final(self).written() == old(self).written() || final(self).written() == old(self).written() + ("/VER"@ + crate::codec::term_chars()),
            r matches Err(e) ==> !(e is Bound) && !(e is InvalidParams),
    {
        if !self.fw_vers.as_str().is_empty() {
            Ok(self.fw_vers.clone())
        } else {
            let cmd = Command::new("/VER", ModuleScope::Any, ModeScope::Any, "/VER");
            let mut v = match self.handle_command(&cmd, Some(1), None) {
                Ok(v) => v,
                Err(e) => {
                    return Err(e);
                },
            };
            let ghost vs0 = v.deep_view();
            proof {
                lemma_dispatch_values(self.conn.buffered(), Some(1), v);
                assert(vs0[0] == v@[0]@);
            }
            let s = v.remove(0);
            self.fw_vers = s.clone();
            Ok(s)
        }
    }

    /// Returns the supported actuator and stage catalog: the cached list
    /// if one was ever fetched, else the device's answer, which is then
    /// cached for the session and never refreshed.
    pub fn get_supported_stages(&mut self) -> (r: Result<Vec<String>, Error>)
        requires
            old(self).wf(),
        ensures
            final(self).wf(),
            final(self).op_mode == old(self).op_mode,
            final(self).modules == old(self).modules,
            final(self).fw_vers == old(self).fw_vers,
            old(self).supported_stages@.len() > 0 ==> *final(self) == *old(self) && (r matches Ok(v) && v@ == old(self).supported_stages@),
            old(self).supported_stages@.len() == 0 ==> {
                &&& (r matches Ok(v) ==> final(self).supported_stages@ == v@ && final(self).written() == old(self).written() + ("/STAGES"@ + crate::codec::term_chars()))
                &&& (r is Err ==> final(self).supported_stages@.len() == 0)
            },
            r matches Ok(v) ==> v@.len() >= 1 && final(self).supported_stages@.len() >= 1,
            r matches Err(e) ==> !(e is Bound) && !(e is InvalidParams),
            old(self).supported_stages@.len() == 0 ==> (r matches Ok(v)
                ==> crate::codec::values_decode(final(self).conn.buffered(), v.deep_view())),
            final(self).written() == old(self).written() || final(self).written() == old(self).written() + ("/STAGES"@ + crate::codec::term_chars()),
    {
        if self.supported_stages.len() > 0 {
            let r = clone_string_vec(&self.supported_stages);
            return Ok(r);
        }
        let cmd = Command::new("/STAGES", ModuleScope::Any, ModeScope::Any, "/STAGES");
        let v = match self.handle_command(&cmd, None, None) {
            Ok(v) => v,
            Err(e) => {
                return Err(e);
            },
        };
        proof {
            lemma_dispatch_values(self.conn.buffered(), None, v);
        }
        self.supported_stages = clone_string_vec(&v);
        Ok(v)
    }

    /// Whether the given stage name is in the supported-stage catalog,
    /// fetching the catalog first if it was never populated.
    fn check_stage(&mut self, stage: &str) -> (r: Result<bool, Error>)
        requires
            old(self).wf(),
        ensures
            final(self).wf(),
            final(self).op_mode == old(self).op_mode,
            final(self).modules == old(self).modules,
            final(self).fw_vers == old(self).fw_vers,
            old(self).supported_stages@.len() > 0 ==> *final(self) == *old(self) && (r matches Ok(b) && b == stage_listed(old(self).supported_stages.deep_view(), stage@)),
            r matches Ok(b) ==> b == stage_listed(final(self).supported_stages.deep_view(), stage@),
            r is Ok ==> final(self).supported_stages@.len() >= 1,
            old(self).supported_stages@.len() == 0 && r is Ok ==> final(self).written() == old(
                self).written() + ("/STAGES"@ + crate::codec::term_chars()),
            old(self).supported_stages@.len() == 0 && r is Err ==> final(
                self).supported_stages@.len() == 0,
            r matches Err(e) ==> !(e is Bound) && !(e is InvalidParams),
            final(self).written() == old(self).written() || final(self).written() == old(self).written() + ("/STAGES"@ + crate::codec::term_chars()),
    {
        let stages = match self.get_supported_stages() {
            Ok(v) => v,
            Err(e) => {
                return Err(e);
            },
        };
        proof {
            assert(stages@ =~= self.supported_stages@);
        }
        let mut i: usize = 0;
        let n = stages.len();
        while i < n
            invariant
                0 <= i <= n,
                n == stages@.len(),
                self.wf(),
                self.op_mode == old(self).op_mode,
                self.modules == old(self).modules,
                self.fw_vers == old(self).fw_vers,
                stages@ == self.supported_stages@,
                self.supported_stages@.len() >= 1,
                old(self).supported_stages@.len() > 0 ==> *self == *old(self),
                old(self).supported_stages@.len() == 0 ==> self.written() == old(self).written()
                    + ("/STAGES"@ + crate::codec::term_chars()),
                self.written() == old(self).written() || self.written() == old(self).written() + (
                "/STAGES"@ + crate::codec::term_chars()),
                forall|j: int| 0 <= j < i ==> stages.deep_view()[j] != stage@,
            decreases n - i,
        {
            proof {
                assert(stages.deep_view() =~= self.supported_stages.deep_view());
            }
            if str_eq(stages[i].as_str(), stage) {
                proof {
                    assert(stages.deep_view()[i as int] == stages@[i as int]@);
                    assert(stages.deep_view()[i as int] == stage@);
                }
                return Ok(true);
            }
            proof {
                assert(stages.deep_view()[i as int] == stages@[i as int]@);
            }
            i += 1;
        }
        proof {
            assert(stages.deep_view() =~= self.supported_stages.deep_view());
        }
        Ok(false)
    }

    /// Queries the installed-module inventory and, on success, overwrites
    /// the whole six-slot table from the response: a known code maps to
    /// its module kind, the dash to an empty bay, and anything else
    /// leaves the table untouched and reports an invalid response.
    pub fn get_module_list(&mut self) -> (r: Result<Vec<String>, Error>)
        requires
            old(self).wf(),
        ensures
            final(self).wf(),
            final(self).op_mode == old(self).op_mode,
            final(self).fw_vers == old(self).fw_vers,
            final(self).supported_stages == old(self).supported_stages,
            r matches Ok(v) ==> {
                &&& v@.len() == 6
                &&& final(self).modules@.len() == 6
                &&& forall|i: int|
                    0 <= i < 6 ==> Some(#[trigger] final(self).modules@[i]) == parse_module_chars(
                        v.deep_view()[i],
                    )
                &&& final(self).written() == old(self).written() + ("/MODLIST"@
                    + crate::codec::term_chars())
            },
            r is Err ==> final(self).modules == old(self).modules,
            r matches Ok(v) ==> crate::codec::values_decode(final(self).conn.buffered(),
                v.deep_view()),
            final(self).written() == old(self).written() || final(self).written() == old(self).written() + ("/MODLIST"@ + crate::codec::term_chars()),
            r matches Err(e) ==> !(e is Bound) && !(e is InvalidParams),
    {
        let cmd = Command::new("/MODLIST", ModuleScope::Any, ModeScope::Any, "/MODLIST");
        let v = match self.handle_command(&cmd, Some(6), None) {
            Ok(v) => v,
            Err(e) => {
                return Err(e);
            },
        };
        proof {
            lemma_dispatch_values(self.conn.buffered(), Some(6), v);
        }
        let mut new_mods: Vec<Module> = Vec::new();
        let mut i: usize = 0;
        while i < 6
            invariant
                0 <= i <= 6,
                v@.len() == 6,
                new_mods@.len() == i,
                crate::codec::values_decode(self.conn.buffered(), v.deep_view()),
                self.wf(),
                self.op_mode == old(self).op_mode,
                self.fw_vers == old(self).fw_vers,
                self.supported_stages == old(self).supported_stages,
                self.modules == old(self).modules,
                self.written() == old(self).written() + ("/MODLIST"@ + crate::codec::term_chars()),
                forall|j: int|
                    0 <= j < i ==> Some(#[trigger] new_mods@[j]) == parse_module_chars(
                        v.deep_view()[j],
                    ),
            decreases 6 - i,
        {
            match Module::parse(v[i].as_str()) {
                Ok(m) => {
                    new_mods.push(m);
                },
                Err(e) => {
                    return Err(e);
                },
            }
            proof {
                assert(v.deep_view()[i as int] == v@[i as int]@);
            }
            i += 1;
        }
        self.modules = new_mods;
        Ok(v)
    }

    /// Returns firmware version information of the module in `slot`.
    pub fn get_mod_fw_version(&mut self, slot: Slot) -> (r: Result<String, Error>)
        requires
            old(self).wf(),
        ensures
            final(self).wf(),
            r matches Ok(s) ==> (exists|vs: Seq<Seq<char>>|
                #[trigger] crate::codec::values_decode(final(self).conn.buffered(), vs)
                && vs.len() == 1 && s@ == vs[0]),
            Self::state_unchanged(old(self), final(self)),
            r is Ok ==> final(self).written() == old(self).written() + ("FIV "@ + slot_chars(slot)
                + crate::codec::term_chars()),
            final(self).written() == old(self).written() || final(self).written() == old(
                self).written() + ("FIV "@ + slot_chars(slot) + crate::codec::term_chars()),
            r matches Err(e) ==> !(e is Bound) && !(e is InvalidParams),
    {
        let mut p = String::from_str("FIV ");
        p.append(slot.wire_str());
        let cmd = Command::new("FIV", ModuleScope::Any, ModeScope::Any, p.as_str());
        let mut v = match self.handle_command(&cmd, Some(1), Some(slot)) {
            Ok(v) => v,
            Err(e) => {
                return Err(e);
            },
        };
        let ghost vs0 = v.deep_view();
        proof {
            lemma_dispatch_values(self.conn.buffered(), Some(1), v);
            assert(vs0[0] == v@[0]@);
        }
        Ok(v.remove(0))
    }

    /// Get the fail-safe state of the CADM2 module in `slot`.
    pub fn get_fail_safe_state(&mut self, slot: Slot) -> (r: Result<String, Error>)
        requires
            old(self).wf(),
        ensures
            final(self).wf(),
            r matches Ok(s) ==> (exists|vs: Seq<Seq<char>>|
                #[trigger] crate::codec::values_decode(final(self).conn.buffered(), vs)
                && vs.len() == 1 && s@ == vs[0]),
            Self::state_unchanged(old(self), final(self)),
            old(self).modules@[slot_index(slot)] != Module::Cadm ==> (r matches Err(e) && e
                is InvalidParams && *final(self) == *old(self)),
            r is Ok ==> final(self).written() == old(self).written() + ("GFS "@ + slot_chars(slot)
                + crate::codec::term_chars()),
            final(self).written() == old(self).written() || final(self).written() == old(
                self).written() + ("GFS "@ + slot_chars(slot) + crate::codec::term_chars()),
            r matches Err(e) ==> !(e is Bound),
            r matches Err(e) ==> (e is InvalidParams ==> old(self).modules@[slot_index(slot)]
                != Module::Cadm),
    {
        let mut p = String::from_str("GFS ");
        p.append(slot.wire_str());
        let cmd = Command::new("GFS", only_cadm(), ModeScope::Any, p.as_str());
        proof {
            let ms = cmd.allowed_mod->Only_0;
            lemma_contains1(ms@, Module::Cadm, old(self).modules@[slot_index(slot)]);
        }
        let mut v = match self.handle_command(&cmd, Some(1), Some(slot)) {
            Ok(v) => v,
            Err(e) => {
                return Err(e);
            },
        };
        let ghost vs0 = v.deep_view();
        proof {
            lemma_dispatch_values(self.conn.buffered(), Some(1), v);
            assert(vs0[0] == v@[0]@);
        }
        Ok(v.remove(0))
    }

    /// Stops movement of an actuator, disables external input mode
    /// (leaving flex drive) or disables scan mode. On a confirmed success
    /// the controller is back in base drive; a failed exchange leaves the
    /// recorded mode untouched.
    pub fn stop_stage(&mut self, slot: Slot) -> (r: Result<String, Error>)
        requires
            old(self).wf(),
        ensures
            final(self).wf(),
            r matches Ok(s) ==> (exists|vs: Seq<Seq<char>>|
                #[trigger] crate::codec::values_decode(final(self).conn.buffered(), vs)
                && vs.len() == 1 && s@ == vs[0]),
            final(self).fw_vers == old(self).fw_vers,
            final(self).modules == old(self).modules,
            final(self).supported_stages == old(self).supported_stages,
            r is Ok ==> final(self).op_mode == ControllerOpMode::Basedrive,
            r is Err ==> final(self).op_mode == old(self).op_mode,
            old(self).op_mode == ControllerOpMode::Servodrive ==> (r matches Err(e) && e
                is InvalidParams && *final(self) == *old(self)),
            old(self).op_mode != ControllerOpMode::Servodrive && old(self).modules@[slot_index(
                slot,
            )] != Module::Cadm ==> (r matches Err(e) && e is InvalidParams && *final(self) == *old(
                self)),
            r is Ok ==> final(self).written() == old(self).written() + ("STP "@ + slot_chars(slot)
                + crate::codec::term_chars()),
            final(self).written() == old(self).written() || final(self).written() == old(
                self).written() + ("STP "@ + slot_chars(slot) + crate::codec::term_chars()),
            r matches Err(e) ==> !(e is Bound),
            r matches Err(e) ==> (e is InvalidParams ==> old(self).op_mode
                == ControllerOpMode::Servodrive || old(self).modules@[slot_index(slot)]
                != Module::Cadm),
    {
        let mut p = String::from_str("STP ");
        p.append(slot.wire_str());
        let cmd = Command::new("STP", only_cadm(), mode_only_base_flex(), p.as_str());
        proof {
            let ms = cmd.allowed_mod->Only_0;
            lemma_contains1(ms@, Module::Cadm, old(self).modules@[slot_index(slot)]);
            let modes = cmd.allowed_mode->Only_0;
            lemma_contains2(
                modes@,
                ControllerOpMode::Basedrive,
                ControllerOpMode::Flexdrive,
                old(self).op_mode,
            );
        }
        let mut v = match self.handle_command(&cmd, Some(1), Some(slot)) {
            Ok(v) => v,
            Err(e) => {
                return Err(e);
            },
        };
        self.op_mode = ControllerOpMode::Basedrive;
        let ghost vs0 = v.deep_view();
        proof {
            lemma_dispatch_values(self.conn.buffered(), Some(1), v);
            assert(vs0[0] == v@[0]@);
        }
        Ok(v.remove(0))
    }

    /// Set the baud rate for the USB or RS-422 interface on the
    /// controller. The rate must lie within the controller's documented
    /// range or the command is rejected locally, with no wire traffic.
    pub fn set_baud_rate(&mut self, ifc: SerialInterface, baud: u32) -> (r: Result<String, Error>)
        requires
            old(self).wf(),
        ensures
            final(self).wf(),
            r matches Ok(s) ==> (exists|vs: Seq<Seq<char>>|
                #[trigger] crate::codec::values_decode(final(self).conn.buffered(), vs)
                && vs.len() == 1 && s@ == vs[0]),
            Self::state_unchanged(old(self), final(self)),
            !(crate::config::BAUD_MIN <= baud <= crate::config::BAUD_MAX) ==> (r matches Err(e)
                && e matches Error::Bound(m) && m@ == "Out of range for baudrate: 9600-1000000, got "@
                + crate::numtext::dec_chars(baud as nat) && *final(self) == *old(self)),
            r is Ok ==> final(self).written() == old(self).written() + (sbr_prefix_chars(ifc)
                + crate::numtext::dec_chars(baud as nat) + crate::codec::term_chars()),
            final(self).written() == old(self).written() || final(self).written() == old(
                self).written() + (sbr_prefix_chars(ifc) + crate::numtext::dec_chars(baud as nat)
                + crate::codec::term_chars()),
            r matches Err(e) ==> ((e is Bound <==> !(crate::config::BAUD_MIN <= baud
                <= crate::config::BAUD_MAX)) && !(e is InvalidParams)),
    {
        if !(crate::config::BAUD_MIN <= baud && baud <= crate::config::BAUD_MAX) {
            let mut m = String::from_str("Out of range for baudrate: 9600-1000000, got ");
            m.append(crate::numtext::u64_to_string(baud as u64).as_str());
            return Err(Error::Bound(m));
        }
        let mut p = match ifc {
            SerialInterface::Rs422 => String::from_str("/SBR RS422 "),
            SerialInterface::Usb => String::from_str("/SBR USB "),
        };
        p.append(crate::numtext::u64_to_string(baud as u64).as_str());
        let cmd = Command::new("/SBR", ModuleScope::Any, ModeScope::Any, p.as_str());
        let mut v = match self.handle_command(&cmd, Some(1), None) {
            Ok(v) => v,
            Err(e) => {
                return Err(e);
            },
        };
        let ghost vs0 = v.deep_view();
        proof {
            lemma_dispatch_values(self.conn.buffered(), Some(1), v);
            assert(vs0[0] == v@[0]@);
        }
        Ok(v.remove(0))
    }

    /// Returns the IP configuration of the LAN interface:
    /// mode, IP address, subnet mask, gateway and MAC address.
    pub fn get_ip_config(&mut self) -> (r: Result<Vec<String>, Error>)
        requires
            old(self).wf(),
        ensures
            final(self).wf(),
            Self::state_unchanged(old(self), final(self)),
            r matches Ok(v) ==> v@.len() == 5 && final(self).written() == old(self).written() + (
            "/IPR"@ + crate::codec::term_chars()),
            r matches Ok(v) ==> crate::codec::values_decode(final(self).conn.buffered(),
                v.deep_view()),
            final(self).written() == old(self).written() || final(self).written() == old(
                self).written() + ("/IPR"@ + crate::codec::term_chars()),
            r matches Err(e) ==> !(e is Bound) && !(e is InvalidParams),
    {
        let cmd = Command::new("/IPR", ModuleScope::Any, ModeScope::Any, "/IPR");
        let v = match self.handle_command(&cmd, Some(5), None) {
            Ok(v) => v,
            Err(e) => {
                return Err(e);
            },
        };
        proof {
            lemma_dispatch_values(self.conn.buffered(), Some(5), v);
        }
        Ok(v)
    }

    /// Get the baud rate setting of the USB or RS-422 interface; the
    /// device's answer must be a decimal number.
    pub fn get_baud_rate(&mut self, ifc: SerialInterface) -> (r: Result<u32, Error>)
        requires
            old(self).wf(),
        ensures
            final(self).wf(),
            Self::state_unchanged(old(self), final(self)),
            r matches Ok(b) ==> (exists|vs: Seq<Seq<char>>|
                #[trigger] crate::codec::values_decode(final(self).conn.buffered(), vs)
                && vs.len() == 1 && crate::numtext::is_unsigned_str(vs[0], u32::MAX as nat)
                && b == crate::numtext::dec_value(crate::numtext::unsigned_body(vs[0]))),
            r matches Err(e) ==> (e matches Error::ParseInt(t) ==> (exists|vs: Seq<Seq<char>>|
                #[trigger] crate::codec::values_decode(final(self).conn.buffered(), vs)
                && vs.len() == 1 && t@ == vs[0] && !crate::numtext::is_unsigned_str(
                vs[0],
                u32::MAX as nat,
            ))),
            r is Ok ==> final(self).written() == old(self).written() + (gbr_chars(ifc)
                + crate::codec::term_chars()),
            final(self).written() == old(self).written() || final(self).written() == old(
                self).written() + (gbr_chars(ifc) + crate::codec::term_chars()),
            r matches Err(e) ==> !(e is Bound) && !(e is InvalidParams),
    {
        let p = match ifc {
            SerialInterface::Rs422 => "/GBR RS422",
            SerialInterface::Usb => "/GBR USB",
        };
        let cmd = Command::new("/GBR", ModuleScope::Any, ModeScope::Any, p);
        let mut v = match self.handle_command(&cmd, Some(1), None) {
            Ok(v) => v,
            Err(e) => {
                return Err(e);
            },
        };
        let ghost vs0 = v.deep_view();
        proof {
            lemma_dispatch_values(self.conn.buffered(), Some(1), v);
            assert(vs0[0] == v@[0]@);
        }
        let s = v.remove(0);
        match crate::numtext::parse_u32(s.as_str()) {
            Some(b) => Ok(b),
            None => Err(Error::ParseInt(s)),
        }
    }

    /// Instructs the module in `slot` to update its firmware from a file
    /// previously uploaded to the controller under `fname`.
    pub fn start_mod_fw_update(&mut self, fname: &str, slot: Slot) -> (r: Result<(), Error>)
        requires
            old(self).wf(),
        ensures
            final(self).wf(),
            Self::state_unchanged(old(self), final(self)),
            r is Ok ==> final(self).written() == old(self).written() + ("FU "@ + slot_chars(slot)
                + " "@ + fname@ + crate::codec::term_chars()),
            final(self).written() == old(self).written() || final(self).written() == old(
                self).written() + ("FU "@ + slot_chars(slot) + " "@ + fname@
                + crate::codec::term_chars()),
            r matches Err(e) ==> !(e is Bound) && !(e is InvalidParams),
    {
        let mut p = String::from_str("FU ");
        p.append(slot.wire_str());
        p.append(" ");
        p.append(fname);
        let cmd = Command::new("FU", ModuleScope::Any, ModeScope::Any, p.as_str());
        match self.handle_command(&cmd, None, Some(slot)) {
            Ok(_) => Ok(()),
            Err(e) => Err(e),
        }
    }

    /// Puts the CADM2 module in `slot` into scan mode: it outputs a DC
    /// level instead of the drive signal. `level` maps 0..=1023 onto the
    /// output voltage range and is bounds-checked locally.
    pub fn enable_scan_mode(&mut self, slot: Slot, level: u16) -> (r: Result<String, Error>)
        requires
            old(self).wf(),
        ensures
            final(self).wf(),
            r matches Ok(s) ==> (exists|vs: Seq<Seq<char>>|
                #[trigger] crate::codec::values_decode(final(self).conn.buffered(), vs)
                && vs.len() == 1 && s@ == vs[0]),
            Self::state_unchanged(old(self), final(self)),
            level > crate::config::SCANNER_LEVEL_MAX ==> (r matches Err(e) && e matches
                Error::Bound(m) && m@ == "Level out of range, 0-1023, got "@
                + crate::numtext::dec_chars(level as nat) && *final(self) == *old(self)),
            level <= crate::config::SCANNER_LEVEL_MAX && old(self).op_mode
                != ControllerOpMode::Basedrive ==> (r matches Err(e) && e is InvalidParams
                && *final(self) == *old(self)),
            level <= crate::config::SCANNER_LEVEL_MAX && old(self).op_mode
                == ControllerOpMode::Basedrive && old(self).modules@[slot_index(slot)]
                != Module::Cadm ==> (r matches Err(e) && e is InvalidParams && *final(self)
                == *old(self)),
            r is Ok ==> final(self).written() == old(self).written() + ("SDC "@ + slot_chars(slot)
                + " "@ + crate::numtext::dec_chars(level as nat) + crate::codec::term_chars()),
            final(self).written() == old(self).written() || final(self).written() == old(
                self).written() + ("SDC "@ + slot_chars(slot) + " "@ + crate::numtext::dec_chars(
                level as nat,
            ) + crate::codec::term_chars()),
            r matches Err(e) ==> (e is Bound <==> level > crate::config::SCANNER_LEVEL_MAX),
            r matches Err(e) ==> (e is InvalidParams ==> old(self).op_mode
                != ControllerOpMode::Basedrive || old(self).modules@[slot_index(slot)]
                != Module::Cadm),
    {
        if level > crate::config::SCANNER_LEVEL_MAX {
            let mut m = String::from_str("Level out of range, 0-1023, got ");
            m.append(crate::numtext::u64_to_string(level as u64).as_str());
            return Err(Error::Bound(m));
        }
        let mut p = String::from_str("SDC ");
        p.append(slot.wire_str());
        p.append(" ");
        p.append(crate::numtext::u64_to_string(level as u64).as_str());
        let cmd = Command::new("SDC", only_cadm(), mode_only_base(), p.as_str());
        proof {
            let ms = cmd.allowed_mod->Only_0;
            lemma_contains1(ms@, Module::Cadm, old(self).modules@[slot_index(slot)]);
            let modes = cmd.allowed_mode->Only_0;
            lemma_contains1(modes@, ControllerOpMode::Basedrive, old(self).op_mode);
        }
        let mut v = match self.handle_command(&cmd, Some(1), Some(slot)) {
            Ok(v) => v,
            Err(e) => {
                return Err(e);
            },
        };
        let ghost vs0 = v.deep_view();
        proof {
            lemma_dispatch_values(self.conn.buffered(), Some(1), v);
            assert(vs0[0] == v@[0]@);
        }
        Ok(v.remove(0))
    }

    /// Makes the current position of the sensor on channel `ch` of the
    /// RSM in `slot` the negative end-stop.
    pub fn set_neg_end_stop(&mut self, slot: Slot, ch: ModuleChannel) -> (r: Result<String, Error>)
        requires
            old(self).wf(),
        ensures
            final(self).wf(),
            r matches Ok(s) ==> (exists|vs: Seq<Seq<char>>|
                #[trigger] crate::codec::values_decode(final(self).conn.buffered(), vs)
                && vs.len() == 1 && s@ == vs[0]),
            Self::state_unchanged(old(self), final(self)),
            old(self).op_mode != ControllerOpMode::Basedrive ==> (r matches Err(e) && e
                is InvalidParams && *final(self) == *old(self)),
            old(self).op_mode == ControllerOpMode::Basedrive && old(self).modules@[slot_index(slot)]
                != Module::Rsm ==> (r matches Err(e) && e is InvalidParams && *final(self) == *old(
                self)),
            r is Ok ==> final(self).written() == old(self).written() + ("MIS "@ + slot_chars(slot)
                + " "@ + channel_chars(ch) + crate::codec::term_chars()),
            final(self).written() == old(self).written() || final(self).written() == old(
                self).written() + ("MIS "@ + slot_chars(slot) + " "@ + channel_chars(ch)
                + crate::codec::term_chars()),
            r matches Err(e) ==> !(e is Bound),
            r matches Err(e) ==> (e is InvalidParams ==> old(self).op_mode
                != ControllerOpMode::Basedrive || old(self).modules@[slot_index(slot)]
                != Module::Rsm),
    {
        let mut p = String::from_str("MIS ");
        p.append(slot.wire_str());
        p.append(" ");
        p.append(ch.wire_str());
        let cmd = Command::new("MIS", only_rsm(), mode_only_base(), p.as_str());
        proof {
            lemma_contains1(cmd.allowed_mod->Only_0@, Module::Rsm, old(self).modules@[slot_index(slot)]);
            lemma_contains1(cmd.allowed_mode->Only_0@, ControllerOpMode::Basedrive, old(self).op_mode);
        }
        let mut v = match self.handle_command(&cmd, Some(1), Some(slot)) {
            Ok(v) => v,
            Err(e) => {
                return Err(e);
            },
        };
        let ghost vs0 = v.deep_view();
        proof {
            lemma_dispatch_values(self.conn.buffered(), Some(1), v);
            assert(vs0[0] == v@[0]@);
        }
        Ok(v.remove(0))
    }

    /// Makes the current position of the sensor on channel `ch` of the
    /// RSM in `slot` the positive end-stop.
    pub fn set_pos_end_stop(&mut self, slot: Slot, ch: ModuleChannel) -> (r: Result<String, Error>)
        requires
            old(self).wf(),
        ensures
            final(self).wf(),
            r matches Ok(s) ==> (exists|vs: Seq<Seq<char>>|
                #[trigger] crate::codec::values_decode(final(self).conn.buffered(), vs)
                && vs.len() == 1 && s@ == vs[0]),
            Self::state_unchanged(old(self), final(self)),
            old(self).op_mode != ControllerOpMode::Basedrive ==> (r matches Err(e) && e
                is InvalidParams && *final(self) == *old(self)),
            old(self).op_mode == ControllerOpMode::Basedrive && old(self).modules@[slot_index(slot)]
                != Module::Rsm ==> (r matches Err(e) && e is InvalidParams && *final(self) == *old(
                self)),
            r is Ok ==> final(self).written() == old(self).written() + ("MAS "@ + slot_chars(slot)
                + " "@ + channel_chars(ch) + crate::codec::term_chars()),
            final(self).written() == old(self).written() || final(self).written() == old(
                self).written() + ("MAS "@ + slot_chars(slot) + " "@ + channel_chars(ch)
                + crate::codec::term_chars()),
            r matches Err(e) ==> !(e is Bound),
            r matches Err(e) ==> (e is InvalidParams ==> old(self).op_mode
                != ControllerOpMode::Basedrive || old(self).modules@[slot_index(slot)]
                != Module::Rsm),
    {
        let mut p = String::from_str("MAS ");
        p.append(slot.wire_str());
        p.append(" ");
        p.append(ch.wire_str());
        let cmd = Command::new("MAS", only_rsm(), mode_only_base(), p.as_str());
        proof {
            lemma_contains1(cmd.allowed_mod->Only_0@, Module::Rsm, old(self).modules@[slot_index(slot)]);
            lemma_contains1(cmd.allowed_mode->Only_0@, ControllerOpMode::Basedrive, old(self).op_mode);
        }
        let mut v = match self.handle_command(&cmd, Some(1), Some(slot)) {
            Ok(v) => v,
            Err(e) => {
                return Err(e);
            },
        };
        let ghost vs0 = v.deep_view();
        proof {
            lemma_dispatch_values(self.conn.buffered(), Some(1), v);
            assert(vs0[0] == v@[0]@);
        }
        Ok(v.remove(0))
    }

    /// Resets both end-stop parameters of channel `ch` of the RSM in
    /// `slot` to the values stored in the controller's NV-RAM.
    pub fn reset_end_stops(&mut self, slot: Slot, ch: ModuleChannel) -> (r: Result<String, Error>)
        requires
            old(self).wf(),
        ensures
            final(self).wf(),
            r matches Ok(s) ==> (exists|vs: Seq<Seq<char>>|
                #[trigger] crate::codec::values_decode(final(self).conn.buffered(), vs)
                && vs.len() == 1 && s@ == vs[0]),
            Self::state_unchanged(old(self), final(self)),
            old(self).op_mode != ControllerOpMode::Basedrive ==> (r matches Err(e) && e
                is InvalidParams && *final(self) == *old(self)),
            old(self).op_mode == ControllerOpMode::Basedrive && old(self).modules@[slot_index(slot)]
                != Module::Rsm ==> (r matches Err(e) && e is InvalidParams && *final(self) == *old(
                self)),
            r is Ok ==> final(self).written() == old(self).written() + ("MMR "@ + slot_chars(slot)
                + " "@ + channel_chars(ch) + crate::codec::term_chars()),
            final(self).written() == old(self).written() || final(self).written() == old(
                self).written() + ("MMR "@ + slot_chars(slot) + " "@ + channel_chars(ch)
                + crate::codec::term_chars()),
            r matches Err(e) ==> !(e is Bound),
            r matches Err(e) ==> (e is InvalidParams ==> old(self).op_mode
                != ControllerOpMode::Basedrive || old(self).modules@[slot_index(slot)]
                != Module::Rsm),
    {
        let mut p = String::from_str("MMR ");
        p.append(slot.wire_str());
        p.append(" ");
        p.append(ch.wire_str());
        let cmd = Command::new("MMR", only_rsm(), mode_only_base(), p.as_str());
        proof {
            lemma_contains1(cmd.allowed_mod->Only_0@, Module::Rsm, old(self).modules@[slot_index(slot)]);
            lemma_contains1(cmd.allowed_mode->Only_0@, ControllerOpMode::Basedrive, old(self).op_mode);
        }
        let mut v = match self.handle_command(&cmd, Some(1), Some(slot)) {
            Ok(v) => v,
            Err(e) => {
                return Err(e);
            },
        };
        let ghost vs0 = v.deep_view();
        proof {
            lemma_dispatch_values(self.conn.buffered(), Some(1), v);
            assert(vs0[0] == v@[0]@);
        }
        Ok(v.remove(0))
    }

    /// Sets the duty cycle of the sensor excitation signal for all
    /// channels of the RSM in `slot`. Legal percentages are exactly 0 or
    /// the closed range 10 to 100; nothing in between.
    pub fn set_excitation_ds(&mut self, slot: Slot, duty: u8) -> (r: Result<String, Error>)
        requires
            old(self).wf(),
        ensures
            final(self).wf(),
            r matches Ok(s) ==> (exists|vs: Seq<Seq<char>>|
                #[trigger] crate::codec::values_decode(final(self).conn.buffered(), vs)
                && vs.len() == 1 && s@ == vs[0]),
            Self::state_unchanged(old(self), final(self)),
            !(duty == 0 || crate::config::DUTY_NONZERO_MIN <= duty <= crate::config::DUTY_MAX)
                ==> (r matches Err(e) && e matches Error::Bound(m) && m@
                == "Duty cycle out of range: 0, 10-100. Got "@ + crate::numtext::dec_chars(
                duty as nat,
            ) && *final(self) == *old(self)),
            (duty == 0 || crate::config::DUTY_NONZERO_MIN <= duty <= crate::config::DUTY_MAX)
                && old(self).op_mode != ControllerOpMode::Basedrive ==> (r matches Err(e) && e
                is InvalidParams && *final(self) == *old(self)),
            (duty == 0 || crate::config::DUTY_NONZERO_MIN <= duty <= crate::config::DUTY_MAX)
                && old(self).op_mode == ControllerOpMode::Basedrive && old(self).modules@[slot_index(
                slot,
            )] != Module::Rsm ==> (r matches Err(e) && e is InvalidParams && *final(self) == *old(
                self)),
            r is Ok ==> final(self).written() == old(self).written() + ("EXS "@ + slot_chars(slot)
                + " "@ + crate::numtext::dec_chars(duty as nat) + crate::codec::term_chars()),
            final(self).written() == old(self).written() || final(self).written() == old(
                self).written() + ("EXS "@ + slot_chars(slot) + " "@ + crate::numtext::dec_chars(
                duty as nat,
            ) + crate::codec::term_chars()),
            r matches Err(e) ==> (e is Bound <==> !(duty == 0 || crate::config::DUTY_NONZERO_MIN
                <= duty <= crate::config::DUTY_MAX)),
            r matches Err(e) ==> (e is InvalidParams ==> old(self).op_mode
                != ControllerOpMode::Basedrive || old(self).modules@[slot_index(slot)]
                != Module::Rsm),
    {
        if !(duty == 0 || (10 <= duty && duty <= 100)) {
            let mut m = String::from_str("Duty cycle out of range: 0, 10-100. Got ");
            m.append(crate::numtext::u64_to_string(duty as u64).as_str());
            return Err(Error::Bound(m));
        }
        let mut p = String::from_str("EXS ");
        p.append(slot.wire_str());
        p.append(" ");
        p.append(crate::numtext::u64_to_string(duty as u64).as_str());
        let cmd = Command::new("EXS", only_rsm(), mode_only_base(), p.as_str());
        proof {
            lemma_contains1(cmd.allowed_mod->Only_0@, Module::Rsm, old(self).modules@[slot_index(slot)]);
            lemma_contains1(cmd.allowed_mode->Only_0@, ControllerOpMode::Basedrive, old(self).op_mode);
        }
        let mut v = match self.handle_command(&cmd, Some(1), Some(slot)) {
            Ok(v) => v,
            Err(e) => {
                return Err(e);
            },
        };
        let ghost vs0 = v.deep_view();
        proof {
            lemma_dispatch_values(self.conn.buffered(), Some(1), v);
            assert(vs0[0] == v@[0]@);
        }
        Ok(v.remove(0))
    }

    /// Reads the excitation duty cycle of the RSM in `slot`, a
    /// percentage; the device's answer must be a decimal number.
    pub fn read_excitation_ds(&mut self, slot: Slot) -> (r: Result<u8, Error>)
        requires
            old(self).wf(),
        ensures
            final(self).wf(),
            Self::state_unchanged(old(self), final(self)),
            old(self).op_mode != ControllerOpMode::Basedrive ==> (r matches Err(e) && e
                is InvalidParams && *final(self) == *old(self)),
            old(self).op_mode == ControllerOpMode::Basedrive && old(self).modules@[slot_index(slot)]
                != Module::Rsm ==> (r matches Err(e) && e is InvalidParams && *final(self) == *old(
                self)),
            r matches Ok(d) ==> (exists|vs: Seq<Seq<char>>|
                #[trigger] crate::codec::values_decode(final(self).conn.buffered(), vs)
                && vs.len() == 1 && crate::numtext::is_unsigned_str(vs[0], u8::MAX as nat)
                && d == crate::numtext::dec_value(crate::numtext::unsigned_body(vs[0]))),
            r matches Err(e) ==> (e matches Error::ParseInt(t) ==> (exists|vs: Seq<Seq<char>>|
                #[trigger] crate::codec::values_decode(final(self).conn.buffered(), vs)
                && vs.len() == 1 && t@ == vs[0] && !crate::numtext::is_unsigned_str(
                vs[0],
                u8::MAX as nat,
            ))),
            r is Ok ==> final(self).written() == old(self).written() + ("EXR "@ + slot_chars(slot)
                + crate::codec::term_chars()),
            final(self).written() == old(self).written() || final(self).written() == old(
                self).written() + ("EXR "@ + slot_chars(slot) + crate::codec::term_chars()),
            r matches Err(e) ==> !(e is Bound),
            r matches Err(e) ==> (e is InvalidParams ==> old(self).op_mode
                != ControllerOpMode::Basedrive || old(self).modules@[slot_index(slot)]
                != Module::Rsm),
    {
        let mut p = String::from_str("EXR ");
        p.append(slot.wire_str());
        let cmd = Command::new("EXR", only_rsm(), mode_only_base(), p.as_str());
        proof {
            lemma_contains1(cmd.allowed_mod->Only_0@, Module::Rsm, old(self).modules@[slot_index(slot)]);
            lemma_contains1(cmd.allowed_mode->Only_0@, ControllerOpMode::Basedrive, old(self).op_mode);
        }
        let mut v = match self.handle_command(&cmd, Some(1), Some(slot)) {
            Ok(v) => v,
            Err(e) => {
                return Err(e);
            },
        };
        let ghost vs0 = v.deep_view();
        proof {
            lemma_dispatch_values(self.conn.buffered(), Some(1), v);
            assert(vs0[0] == v@[0]@);
        }
        let s = v.remove(0);
        match crate::numtext::parse_u8(s.as_str()) {
            Some(d) => Ok(d),
            None => Err(Error::ParseInt(s)),
        }
    }

    /// Stores the excitation duty cycle and both end-stop parameters of
    /// the RSM in `slot` to the controller's non-volatile memory.
    pub fn save_rsm_nvram(&mut self, slot: Slot) -> (r: Result<String, Error>)
        requires
            old(self).wf(),
        ensures
            final(self).wf(),
            r matches Ok(s) ==> (exists|vs: Seq<Seq<char>>|
                #[trigger] crate::codec::values_decode(final(self).conn.buffered(), vs)
                && vs.len() == 1 && s@ == vs[0]),
            Self::state_unchanged(old(self), final(self)),
            old(self).op_mode != ControllerOpMode::Basedrive ==> (r matches Err(e) && e
                is InvalidParams && *final(self) == *old(self)),
            old(self).op_mode == ControllerOpMode::Basedrive && old(self).modules@[slot_index(slot)]
                != Module::Rsm ==> (r matches Err(e) && e is InvalidParams && *final(self) == *old(
                self)),
            r is Ok ==> final(self).written() == old(self).written() + ("RSS "@ + slot_chars(slot)
                + crate::codec::term_chars()),
            final(self).written() == old(self).written() || final(self).written() == old(
                self).written() + ("RSS "@ + slot_chars(slot) + crate::codec::term_chars()),
            r matches Err(e) ==> !(e is Bound),
            r matches Err(e) ==> (e is InvalidParams ==> old(self).op_mode
                != ControllerOpMode::Basedrive || old(self).modules@[slot_index(slot)]
                != Module::Rsm),
    {
        let mut p = String::from_str("RSS ");
        p.append(slot.wire_str());
        let cmd = Command::new("RSS", only_rsm(), mode_only_base(), p.as_str());
        proof {
            lemma_contains1(cmd.allowed_mod->Only_0@, Module::Rsm, old(self).modules@[slot_index(slot)]);
            lemma_contains1(cmd.allowed_mode->Only_0@, ControllerOpMode::Basedrive, old(self).op_mode);
        }
        let mut v = match self.handle_command(&cmd, Some(1), Some(slot)) {
            Ok(v) => v,
            Err(e) => {
                return Err(e);
            },
        };
        let ghost vs0 = v.deep_view();
        proof {
            lemma_dispatch_values(self.conn.buffered(), Some(1), v);
            assert(vs0[0] == v@[0]@);
        }
        Ok(v.remove(0))
    }

    /// Disables the internal position feedback control. On a confirmed
    /// success the controller is back in base drive.
    pub fn disable_servodrive(&mut self) -> (r: Result<String, Error>)
        requires
            old(self).wf(),
        ensures
            final(self).wf(),
            r matches Ok(s) ==> (exists|vs: Seq<Seq<char>>|
                #[trigger] crate::codec::values_decode(final(self).conn.buffered(), vs)
                && vs.len() == 1 && s@ == vs[0]),
            final(self).fw_vers == old(self).fw_vers,
            final(self).modules == old(self).modules,
            final(self).supported_stages == old(self).supported_stages,
            r is Ok ==> final(self).op_mode == ControllerOpMode::Basedrive,
            r is Err ==> final(self).op_mode == old(self).op_mode,
            old(self).op_mode != ControllerOpMode::Servodrive ==> (r matches Err(e) && e
                is InvalidParams && *final(self) == *old(self)),
            r is Ok ==> final(self).written() == old(self).written() + ("FBXT"@
                + crate::codec::term_chars()),
            final(self).written() == old(self).written() || final(self).written() == old(
                self).written() + ("FBXT"@ + crate::codec::term_chars()),
            r matches Err(e) ==> !(e is Bound),
            r matches Err(e) ==> (e is InvalidParams ==> old(self).op_mode
                != ControllerOpMode::Servodrive),
    {
        let cmd = Command::new("FBXT", ModuleScope::Any, mode_only_servo(), "FBXT");
        proof {
            lemma_contains1(cmd.allowed_mode->Only_0@, ControllerOpMode::Servodrive, old(self).op_mode);
        }
        let mut v = match self.handle_command(&cmd, Some(1), None) {
            Ok(v) => v,
            Err(e) => {
                return Err(e);
            },
        };
        self.op_mode = ControllerOpMode::Basedrive;
        let ghost vs0 = v.deep_view();
        proof {
            lemma_dispatch_values(self.conn.buffered(), Some(1), v);
            assert(vs0[0] == v@[0]@);
        }
        Ok(v.remove(0))
    }

    /// Aborts the servodrive control loop immediately; the actuators stop
    /// at their current location and the controller is back in base
    /// drive.
    pub fn servodrive_em_stop(&mut self) -> (r: Result<String, Error>)
        requires
            old(self).wf(),
        ensures
            final(self).wf(),
            r matches Ok(s) ==> (exists|vs: Seq<Seq<char>>|
                #[trigger] crate::codec::values_decode(final(self).conn.buffered(), vs)
                && vs.len() == 1 && s@ == vs[0]),
            final(self).fw_vers == old(self).fw_vers,
            final(self).modules == old(self).modules,
            final(self).supported_stages == old(self).supported_stages,
            r is Ok ==> final(self).op_mode == ControllerOpMode::Basedrive,
            r is Err ==> final(self).op_mode == old(self).op_mode,
            old(self).op_mode != ControllerOpMode::Servodrive ==> (r matches Err(e) && e
                is InvalidParams && *final(self) == *old(self)),
            r is Ok ==> final(self).written() == old(self).written() + ("FBES"@
                + crate::codec::term_chars()),
            final(self).written() == old(self).written() || final(self).written() == old(
                self).written() + ("FBES"@ + crate::codec::term_chars()),
            r matches Err(e) ==> !(e is Bound),
            r matches Err(e) ==> (e is InvalidParams ==> old(self).op_mode
                != ControllerOpMode::Servodrive),
    {
        let cmd = Command::new("FBES", ModuleScope::Any, mode_only_servo(), "FBES");
        proof {
            lemma_contains1(cmd.allowed_mode->Only_0@, ControllerOpMode::Servodrive, old(self).op_mode);
        }
        let mut v = match self.handle_command(&cmd, Some(1), None) {
            Ok(v) => v,
            Err(e) => {
                return Err(e);
            },
        };
        self.op_mode = ControllerOpMode::Basedrive;
        let ghost vs0 = v.deep_view();
        proof {
            lemma_dispatch_values(self.conn.buffered(), Some(1), v);
            assert(vs0[0] == v@[0]@);
        }
        Ok(v.remove(0))
    }

    /// In servodrive mode, moves the actuators to the given setpoints.
    /// Each setpoint is passed as already-formatted text in the unit of
    /// its stage; for an output with no stage connected pass `0`.
    pub fn go_to_setpoint(
        &mut self,
        set_point1: &str,
        pos_mode_1: SetpointPosMode,
        set_point2: &str,
        pos_mode_2: SetpointPosMode,
        set_point3: &str,
        pos_mode_3: SetpointPosMode,
    ) -> (r: Result<String, Error>)
        requires
            old(self).wf(),
        ensures
            final(self).wf(),
            r matches Ok(s) ==> (exists|vs: Seq<Seq<char>>|
                #[trigger] crate::codec::values_decode(final(self).conn.buffered(), vs)
                && vs.len() == 1 && s@ == vs[0]),
            Self::state_unchanged(old(self), final(self)),
            old(self).op_mode != ControllerOpMode::Servodrive ==> (r matches Err(e) && e
                is InvalidParams && *final(self) == *old(self)),
            r is Ok ==> final(self).written() == old(self).written() + ("FBCS "@ + set_point1@
                + " "@ + pos_mode_chars(pos_mode_1) + " "@ + set_point2@ + " "@ + pos_mode_chars(
                pos_mode_2,
            ) + " "@ + set_point3@ + " "@ + pos_mode_chars(pos_mode_3)
                + crate::codec::term_chars()),
            final(self).written() == old(self).written() || final(self).written() == old(
                self).written() + ("FBCS "@ + set_point1@ + " "@ + pos_mode_chars(pos_mode_1) + " "@
                + set_point2@ + " "@ + pos_mode_chars(pos_mode_2) + " "@ + set_point3@ + " "@
                + pos_mode_chars(pos_mode_3) + crate::codec::term_chars()),
            r matches Err(e) ==> !(e is Bound),
            r matches Err(e) ==> (e is InvalidParams ==> old(self).op_mode
                != ControllerOpMode::Servodrive),
    {
        let mut p = String::from_str("FBCS ");
        p.append(set_point1);
        p.append(" ");
        p.append(pos_mode_1.wire_str());
        p.append(" ");
        p.append(set_point2);
        p.append(" ");
        p.append(pos_mode_2.wire_str());
        p.append(" ");
        p.append(set_point3);
        p.append(" ");
        p.append(pos_mode_3.wire_str());
        let cmd = Command::new("FBCS", ModuleScope::Any, mode_only_servo(), p.as_str());
        proof {
            lemma_contains1(cmd.allowed_mode->Only_0@, ControllerOpMode::Servodrive, old(self).op_mode);
        }
        let mut v = match self.handle_command(&cmd, Some(1), None) {
            Ok(v) => v,
            Err(e) => {
                return Err(e);
            },
        };
        let ghost vs0 = v.deep_view();
        proof {
            lemma_dispatch_values(self.conn.buffered(), Some(1), v);
            assert(vs0[0] == v@[0]@);
        }
        Ok(v.remove(0))
    }

    /// Returns status and position-error information for the servodrive
    /// control loop: the enabled and finished flags, one invalid-setpoint
    /// flag per channel, and one dimensionless position error per
    /// channel. Every field must be a decimal number.
    pub fn get_servodrive_status(&mut self) -> (r: Result<
        (u8, u8, u8, u8, u8, i64, i64, i64),
        Error,
    >)
        requires
            old(self).wf(),
        ensures
            final(self).wf(),
            Self::state_unchanged(old(self), final(self)),
            old(self).op_mode != ControllerOpMode::Servodrive ==> (r matches Err(e) && e
                is InvalidParams && *final(self) == *old(self)),
            r matches Ok(t) ==> (exists|vs: Seq<Seq<char>>|
                #[trigger] crate::codec::values_decode(final(self).conn.buffered(), vs)
                && status_parsed(vs, t)),
            r matches Err(e) ==> (e matches Error::ParseInt(t) ==> (exists|vs: Seq<Seq<char>>|
                #[trigger] crate::codec::values_decode(final(self).conn.buffered(), vs)
                && vs.len() == 8 && (exists|i: int|
                0 <= i < 8 && t@ == #[trigger] vs[i] && if i < 5 {
                    !crate::numtext::is_unsigned_str(vs[i], u8::MAX as nat)
                } else {
                    !crate::numtext::is_i64_str(vs[i])
                }))),
            r is Ok ==> final(self).written() == old(self).written() + ("FBST"@
                + crate::codec::term_chars()),
            final(self).written() == old(self).written() || final(self).written() == old(
                self).written() + ("FBST"@ + crate::codec::term_chars()),
            r matches Err(e) ==> !(e is Bound),
            r matches Err(e) ==> (e is InvalidParams ==> old(self).op_mode
                != ControllerOpMode::Servodrive),
    {
        let cmd = Command::new("FBST", ModuleScope::Any, mode_only_servo(), "FBST");
        proof {
            lemma_contains1(cmd.allowed_mode->Only_0@, ControllerOpMode::Servodrive, old(self).op_mode);
        }
        let v = match self.handle_command(&cmd, Some(8), None) {
            Ok(v) => v,
            Err(e) => {
                return Err(e);
            },
        };
        let ghost vs0 = v.deep_view();
        proof {
            lemma_dispatch_values(self.conn.buffered(), Some(8), v);
            assert forall|i: int| 0 <= i < 8 implies vs0[i] == v@[i]@ by {}
        }
        let s0 = v[0].clone();
        let f0 = match crate::numtext::parse_u8(s0.as_str()) {
            Some(x) => x,
            None => {
                proof {
                    assert(crate::codec::values_decode(self.conn.buffered(), vs0) && vs0.len()
                        == 8 && s0@ == vs0[0] && !crate::numtext::is_unsigned_str(vs0[0], u8::MAX as nat));
                }
                return Err(Error::ParseInt(s0));
            },
        };
        let s1 = v[1].clone();
        let f1 = match crate::numtext::parse_u8(s1.as_str()) {
            Some(x) => x,
            None => {
                proof {
                    assert(crate::codec::values_decode(self.conn.buffered(), vs0) && vs0.len()
                        == 8 && s1@ == vs0[1] && !crate::numtext::is_unsigned_str(vs0[1], u8::MAX as nat));
                }
                return Err(Error::ParseInt(s1));
            },
        };
        let s2 = v[2].clone();
        let f2 = match crate::numtext::parse_u8(s2.as_str()) {
            Some(x) => x,
            None => {
                proof {
                    assert(crate::codec::values_decode(self.conn.buffered(), vs0) && vs0.len()
                        == 8 && s2@ == vs0[2] && !crate::numtext::is_unsigned_str(vs0[2], u8::MAX as nat));
                }
                return Err(Error::ParseInt(s2));
            },
        };
        let s3 = v[3].clone();
        let f3 = match crate::numtext::parse_u8(s3.as_str()) {
            Some(x) => x,
            None => {
                proof {
                    assert(crate::codec::values_decode(self.conn.buffered(), vs0) && vs0.len()
                        == 8 && s3@ == vs0[3] && !crate::numtext::is_unsigned_str(vs0[3], u8::MAX as nat));
                }
                return Err(Error::ParseInt(s3));
            },
        };
        let s4 = v[4].clone();
        let f4 = match crate::numtext::parse_u8(s4.as_str()) {
            Some(x) => x,
            None => {
                proof {
                    assert(crate::codec::values_decode(self.conn.buffered(), vs0) && vs0.len()
                        == 8 && s4@ == vs0[4] && !crate::numtext::is_unsigned_str(vs0[4], u8::MAX as nat));
                }
                return Err(Error::ParseInt(s4));
            },
        };
        let s5 = v[5].clone();
        let e0 = match crate::numtext::parse_i64(s5.as_str()) {
            Some(x) => x,
            None => {
                proof {
                    assert(crate::codec::values_decode(self.conn.buffered(), vs0) && vs0.len()
                        == 8 && s5@ == vs0[5] && !crate::numtext::is_i64_str(vs0[5]));
                }
                return Err(Error::ParseInt(s5));
            },
        };
        let s6 = v[6].clone();
        let e1 = match crate::numtext::parse_i64(s6.as_str()) {
            Some(x) => x,
            None => {
                proof {
                    assert(crate::codec::values_decode(self.conn.buffered(), vs0) && vs0.len()
                        == 8 && s6@ == vs0[6] && !crate::numtext::is_i64_str(vs0[6]));
                }
                return Err(Error::ParseInt(s6));
            },
        };
        let s7 = v[7].clone();
        let e2 = match crate::numtext::parse_i64(s7.as_str()) {
            Some(x) => x,
            None => {
                proof {
                    assert(crate::codec::values_decode(self.conn.buffered(), vs0) && vs0.len()
                        == 8 && s7@ == vs0[7] && !crate::numtext::is_i64_str(vs0[7]));
                }
                return Err(Error::ParseInt(s7));
            },
        };
        Ok((f0, f1, f2, f3, f4, e0, e1, e2))
    }

    /// Sets the IP configuration of the LAN interface. All three
    /// addresses must be well-formed dotted-quad IPv4 text; they are
    /// validated locally and, in DHCP mode, replaced by placeholder
    /// zeros on the wire as the device expects.
    pub fn set_ip_config(
        &mut self,
        addr_mode: IpAddrMode,
        ip_addr: &str,
        mask: &str,
        gateway: &str,
    ) -> (r: Result<String, Error>)
        requires
            old(self).wf(),
        ensures
            final(self).wf(),
            r matches Ok(s) ==> (exists|vs: Seq<Seq<char>>|
                #[trigger] crate::codec::values_decode(final(self).conn.buffered(), vs)
                && vs.len() == 1 && s@ == vs[0]),
            Self::state_unchanged(old(self), final(self)),
            !(crate::ipv4::is_ipv4(ip_addr@) && crate::ipv4::is_ipv4(mask@)
                && crate::ipv4::is_ipv4(gateway@)) ==> (r matches Err(e) && e is InvalidParams
                && *final(self) == *old(self)),
            r is Ok ==> final(self).written() == old(self).written() + (ips_payload(
                addr_mode,
                ip_addr@,
                mask@,
                gateway@,
            ) + crate::codec::term_chars()),
            final(self).written() == old(self).written() || final(self).written() == old(
                self).written() + (ips_payload(addr_mode, ip_addr@, mask@, gateway@)
                + crate::codec::term_chars()),
            r matches Err(e) ==> !(e is Bound),
            r matches Err(e) ==> (e is InvalidParams <==> !(crate::ipv4::is_ipv4(ip_addr@)
                && crate::ipv4::is_ipv4(mask@) && crate::ipv4::is_ipv4(gateway@))),
    {
        if !crate::ipv4::validate_ipv4(ip_addr) {
            let mut m = String::from_str("Invalid IPv4 address: ");
            m.append(ip_addr);
            return Err(Error::InvalidParams(m));
        }
        if !crate::ipv4::validate_ipv4(mask) {
            let mut m = String::from_str("Invalid IPv4 address: ");
            m.append(mask);
            return Err(Error::InvalidParams(m));
        }
        if !crate::ipv4::validate_ipv4(gateway) {
            let mut m = String::from_str("Invalid IPv4 address: ");
            m.append(gateway);
            return Err(Error::InvalidParams(m));
        }
        let p = match addr_mode {
            IpAddrMode::Dhcp => String::from_str("/IPS DHCP 0.0.0.0 0.0.0.0 0.0.0.0"),
            IpAddrMode::Static => {
                let mut p = String::from_str("/IPS STATIC ");
                p.append(ip_addr);
                p.append(" ");
                p.append(mask);
                p.append(" ");
                p.append(gateway);
                p
            },
        };
        let cmd = Command::new("/IPS", ModuleScope::Any, ModeScope::Any, p.as_str());
        let mut v = match self.handle_command(&cmd, Some(1), None) {
            Ok(v) => v,
            Err(e) => {
                return Err(e);
            },
        };
        let ghost vs0 = v.deep_view();
        proof {
            lemma_dispatch_values(self.conn.buffered(), Some(1), v);
            assert(vs0[0] == v@[0]@);
        }
        Ok(v.remove(0))
    }

    /// Starts moving an actuator or positioner in open-loop mode on the
    /// CADM2 in `slot`. All numeric arguments are bounds-checked and the
    /// stage name is checked against the supported-stage catalog before
    /// any wire traffic for this command; the drive factor is given in
    /// tenths.
    pub fn move_stage_open(
        &mut self,
        slot: Slot,
        direction: Direction,
        step_freq: u16,
        r_step_size: u8,
        n_steps: u16,
        temp: u16,
        stage: &str,
        drive_factor_tenths: u8,
    ) -> (r: Result<String, Error>)
        requires
            old(self).wf(),
        ensures
            final(self).wf(),
            r matches Ok(s) ==> (exists|vs: Seq<Seq<char>>|
                #[trigger] crate::codec::values_decode(final(self).conn.buffered(), vs)
                && vs.len() == 1 && s@ == vs[0]),
            final(self).op_mode == old(self).op_mode,
            final(self).fw_vers == old(self).fw_vers,
            final(self).modules == old(self).modules,
            old(self).supported_stages@.len() > 0 ==> final(self).supported_stages == old(
                self).supported_stages,
            !mov_bounds_ok(step_freq, r_step_size, n_steps, temp, drive_factor_tenths) ==> (
            r matches Err(e) && e matches Error::Bound(m) && m@ == "Input parameter out of bounds."@
                && *final(self) == *old(self)),
            mov_bounds_ok(step_freq, r_step_size, n_steps, temp, drive_factor_tenths) && old(
                self).supported_stages@.len() > 0 && !stage_listed(
                old(self).supported_stages.deep_view(),
                stage@,
            ) ==> (r matches Err(e) && e matches Error::DeviceError(m) && m@
                == stage_unsupported_msg(stage@) && *final(self) == *old(self)),
            mov_bounds_ok(step_freq, r_step_size, n_steps, temp, drive_factor_tenths) && old(
                self).supported_stages@.len() > 0 && stage_listed(
                old(self).supported_stages.deep_view(),
                stage@,
            ) && old(self).op_mode != ControllerOpMode::Basedrive ==> (r matches Err(e) && e
                is InvalidParams && *final(self) == *old(self)),
            mov_bounds_ok(step_freq, r_step_size, n_steps, temp, drive_factor_tenths) && old(
                self).supported_stages@.len() > 0 && stage_listed(
                old(self).supported_stages.deep_view(),
                stage@,
            ) && old(self).op_mode == ControllerOpMode::Basedrive && old(self).modules@[slot_index(
                slot,
            )] != Module::Cadm ==> (r matches Err(e) && e is InvalidParams && *final(self) == *old(
                self)),
            r is Ok && old(self).supported_stages@.len() > 0 ==> final(self).written() == old(
                self).written() + (mov_payload(
                slot,
                direction,
                step_freq,
                r_step_size,
                n_steps,
                temp,
                stage@,
                drive_factor_tenths,
            ) + crate::codec::term_chars()),
            r is Ok && old(self).supported_stages@.len() == 0 ==> final(self).written() == old(
                self).written() + ("/STAGES"@ + crate::codec::term_chars()) + (mov_payload(
                slot,
                direction,
                step_freq,
                r_step_size,
                n_steps,
                temp,
                stage@,
                drive_factor_tenths,
            ) + crate::codec::term_chars()),
            r is Ok ==> stage_listed(final(self).supported_stages.deep_view(), stage@),
            mov_bounds_ok(step_freq, r_step_size, n_steps, temp, drive_factor_tenths) && final(
                self).supported_stages@.len() > 0 && !stage_listed(
                final(self).supported_stages.deep_view(),
                stage@,
            ) ==> (r matches Err(e) && e matches Error::DeviceError(m) && m@
                == stage_unsupported_msg(stage@) && (final(self).written() == old(self).written()
                || final(self).written() == old(self).written() + ("/STAGES"@
                + crate::codec::term_chars()))),
            r matches Err(e) ==> (e is Bound <==> !mov_bounds_ok(
                step_freq,
                r_step_size,
                n_steps,
                temp,
                drive_factor_tenths,
            )),
            r matches Err(e) ==> (e is InvalidParams ==> old(self).op_mode
                != ControllerOpMode::Basedrive || old(self).modules@[slot_index(slot)]
                != Module::Cadm),
            final(self).written() == old(self).written() || final(self).written() == old(
                self).written() + ("/STAGES"@ + crate::codec::term_chars()) || final(
                self).written() == old(self).written() + ("/STAGES"@ + crate::codec::term_chars())
                + (mov_payload(
                slot,
                direction,
                step_freq,
                r_step_size,
                n_steps,
                temp,
                stage@,
                drive_factor_tenths,
            ) + crate::codec::term_chars()) || final(self).written() == old(
                self).written() + (mov_payload(
                slot,
                direction,
                step_freq,
                r_step_size,
                n_steps,
                temp,
                stage@,
                drive_factor_tenths,
            ) + crate::codec::term_chars()),
    {
        if !(step_freq <= crate::config::STEP_FREQ_MAX && r_step_size
            <= crate::config::REL_STEP_SIZE_MAX && n_steps <= crate::config::NUM_STEPS_MAX && temp
            <= crate::config::TEMP_MAX && crate::config::DRIVE_FACTOR_TENTHS_MIN
            <= drive_factor_tenths && drive_factor_tenths
            <= crate::config::DRIVE_FACTOR_TENTHS_MAX) {
            return Err(Error::Bound(String::from_str("Input parameter out of bounds.")));
        }
        let supported = match self.check_stage(stage) {
            Ok(b) => b,
            Err(e) => {
                return Err(e);
            },
        };
        if !supported {
            let mut m = String::from_str("Stage ");
            m.append(stage);
            m.append(" unsupported");
            return Err(Error::DeviceError(m));
        }
        let mut p = String::from_str("MOV ");
        p.append(slot.wire_str());
        p.append(" ");
        p.append(direction.wire_str());
        p.append(" ");
        p.append(crate::numtext::u64_to_string(step_freq as u64).as_str());
        p.append(" ");
        p.append(crate::numtext::u64_to_string(r_step_size as u64).as_str());
        p.append(" ");
        p.append(crate::numtext::u64_to_string(n_steps as u64).as_str());
        p.append(" ");
        p.append(crate::numtext::u64_to_string(temp as u64).as_str());
        p.append(" ");
        p.append(stage);
        p.append(" ");
        p.append(crate::numtext::tenths_to_string(drive_factor_tenths).as_str());
        let cmd = Command::new("MOV", only_cadm(), mode_only_base(), p.as_str());
        proof {
            lemma_contains1(cmd.allowed_mod->Only_0@, Module::Cadm, old(self).modules@[slot_index(slot)]);
            lemma_contains1(cmd.allowed_mode->Only_0@, ControllerOpMode::Basedrive, old(self).op_mode);
        }
        let mut v = match self.handle_command(&cmd, Some(1), Some(slot)) {
            Ok(v) => v,
            Err(e) => {
                return Err(e);
            },
        };
        let ghost vs0 = v.deep_view();
        proof {
            lemma_dispatch_values(self.conn.buffered(), Some(1), v);
            assert(vs0[0] == v@[0]@);
        }
        Ok(v.remove(0))
    }

    /// Puts the CADM2 in `slot` into external control (flex drive): the
    /// stage then follows the module's analog input. Entered from base
    /// drive; on a confirmed success the recorded mode becomes flex
    /// drive, and a failed exchange leaves it untouched.
    pub fn enable_ext_input_mode(
        &mut self,
        slot: Slot,
        direction: Direction,
        step_freq: u16,
        r_step_size: u8,
        temp: u16,
        stage: &str,
        drive_factor_tenths: u8,
    ) -> (r: Result<String, Error>)
        requires
            old(self).wf(),
        ensures
            final(self).wf(),
            r matches Ok(s) ==> (exists|vs: Seq<Seq<char>>|
                #[trigger] crate::codec::values_decode(final(self).conn.buffered(), vs)
                && vs.len() == 1 && s@ == vs[0]),
            final(self).fw_vers == old(self).fw_vers,
            final(self).modules == old(self).modules,
            old(self).supported_stages@.len() > 0 ==> final(self).supported_stages == old(
                self).supported_stages,
            r is Ok ==> final(self).op_mode == ControllerOpMode::Flexdrive,
            r is Err ==> final(self).op_mode == old(self).op_mode,
            !ext_bounds_ok(step_freq, r_step_size, temp, drive_factor_tenths) ==> (r matches Err(e)
                && e matches Error::Bound(m) && m@ == "Input parameter out of bounds."@ && *final(
                self) == *old(self)),
            ext_bounds_ok(step_freq, r_step_size, temp, drive_factor_tenths) && old(
                self).supported_stages@.len() > 0 && !stage_listed(
                old(self).supported_stages.deep_view(),
                stage@,
            ) ==> (r matches Err(e) && e matches Error::DeviceError(m) && m@
                == stage_unsupported_msg(stage@) && *final(self) == *old(self)),
            ext_bounds_ok(step_freq, r_step_size, temp, drive_factor_tenths) && old(
                self).supported_stages@.len() > 0 && stage_listed(
                old(self).supported_stages.deep_view(),
                stage@,
            ) && old(self).op_mode != ControllerOpMode::Basedrive ==> (r matches Err(e) && e
                is InvalidParams && *final(self) == *old(self)),
            ext_bounds_ok(step_freq, r_step_size, temp, drive_factor_tenths) && old(
                self).supported_stages@.len() > 0 && stage_listed(
                old(self).supported_stages.deep_view(),
                stage@,
            ) && old(self).op_mode == ControllerOpMode::Basedrive && old(self).modules@[slot_index(
                slot,
            )] != Module::Cadm ==> (r matches Err(e) && e is InvalidParams && *final(self) == *old(
                self)),
            r is Ok && old(self).supported_stages@.len() > 0 ==> final(self).written() == old(
                self).written() + (ext_payload(
                slot,
                direction,
                step_freq,
                r_step_size,
                temp,
                stage@,
                drive_factor_tenths,
            ) + crate::codec::term_chars()),
            r is Ok && old(self).supported_stages@.len() == 0 ==> final(self).written() == old(
                self).written() + ("/STAGES"@ + crate::codec::term_chars()) + (ext_payload(
                slot,
                direction,
                step_freq,
                r_step_size,
                temp,
                stage@,
                drive_factor_tenths,
            ) + crate::codec::term_chars()),
            r is Ok ==> stage_listed(final(self).supported_stages.deep_view(), stage@),
            ext_bounds_ok(step_freq, r_step_size, temp, drive_factor_tenths) && final(
                self).supported_stages@.len() > 0 && !stage_listed(
                final(self).supported_stages.deep_view(),
                stage@,
            ) ==> (r matches Err(e) && e matches Error::DeviceError(m) && m@
                == stage_unsupported_msg(stage@) && (final(self).written() == old(self).written()
                || final(self).written() == old(self).written() + ("/STAGES"@
                + crate::codec::term_chars()))),
            r matches Err(e) ==> (e is Bound <==> !ext_bounds_ok(
                step_freq,
                r_step_size,
                temp,
                drive_factor_tenths,
            )),
            r matches Err(e) ==> (e is InvalidParams ==> old(self).op_mode
                != ControllerOpMode::Basedrive || old(self).modules@[slot_index(slot)]
                != Module::Cadm),
            final(self).written() == old(self).written() || final(self).written() == old(
                self).written() + ("/STAGES"@ + crate::codec::term_chars()) || final(
                self).written() == old(self).written() + ("/STAGES"@ + crate::codec::term_chars())
                + (ext_payload(
                slot,
                direction,
                step_freq,
                r_step_size,
                temp,
                stage@,
                drive_factor_tenths,
            ) + crate::codec::term_chars()) || final(self).written() == old(
                self).written() + (ext_payload(
                slot,
                direction,
                step_freq,
                r_step_size,
                temp,
                stage@,
                drive_factor_tenths,
            ) + crate::codec::term_chars()),
    {
        if !(step_freq <= crate::config::STEP_FREQ_MAX && r_step_size
            <= crate::config::REL_STEP_SIZE_MAX && temp <= crate::config::TEMP_MAX
            && crate::config::DRIVE_FACTOR_TENTHS_MIN <= drive_factor_tenths && drive_factor_tenths
            <= crate::config::DRIVE_FACTOR_TENTHS_MAX) {
            return Err(Error::Bound(String::from_str("Input parameter out of bounds.")));
        }
        let supported = match self.check_stage(stage) {
            Ok(b) => b,
            Err(e) => {
                return Err(e);
            },
        };
        if !supported {
            let mut m = String::from_str("Stage ");
            m.append(stage);
            m.append(" unsupported");
            return Err(Error::DeviceError(m));
        }
        let mut p = String::from_str("EXT ");
        p.append(slot.wire_str());
        p.append(" ");
        p.append(direction.wire_str());
        p.append(" ");
        p.append(crate::numtext::u64_to_string(step_freq as u64).as_str());
        p.append(" ");
        p.append(crate::numtext::u64_to_string(r_step_size as u64).as_str());
        p.append(" ");
        p.append(crate::numtext::u64_to_string(temp as u64).as_str());
        p.append(" ");
        p.append(stage);
        p.append(" ");
        p.append(crate::numtext::tenths_to_string(drive_factor_tenths).as_str());
        let cmd = Command::new("EXT", only_cadm(), mode_only_base(), p.as_str());
        proof {
            lemma_contains1(cmd.allowed_mod->Only_0@, Module::Cadm, old(self).modules@[slot_index(slot)]);
            lemma_contains1(cmd.allowed_mode->Only_0@, ControllerOpMode::Basedrive, old(self).op_mode);
        }
        let mut v = match self.handle_command(&cmd, Some(1), Some(slot)) {
            Ok(v) => v,
            Err(e) => {
                return Err(e);
            },
        };
        self.op_mode = ControllerOpMode::Flexdrive;
        let ghost vs0 = v.deep_view();
        proof {
            lemma_dispatch_values(self.conn.buffered(), Some(1), v);
            assert(vs0[0] == v@[0]@);
        }
        Ok(v.remove(0))
    }

    /// Reads the position of the sensor on channel `ch` of the RSM in
    /// `slot`, in the unit of the given stage, as the device reports it.
    pub fn get_current_position(
        &mut self,
        slot: Slot,
        ch: ModuleChannel,
        stage: &str,
    ) -> (r: Result<String, Error>)
        requires
            old(self).wf(),
        ensures
            final(self).wf(),
            r matches Ok(s) ==> (exists|vs: Seq<Seq<char>>|
                #[trigger] crate::codec::values_decode(final(self).conn.buffered(), vs)
                && vs.len() == 1 && s@ == vs[0]),
            final(self).op_mode == old(self).op_mode,
            final(self).fw_vers == old(self).fw_vers,
            final(self).modules == old(self).modules,
            old(self).supported_stages@.len() > 0 ==> final(self).supported_stages == old(
                self).supported_stages,
            old(self).supported_stages@.len() > 0 && !stage_listed(
                old(self).supported_stages.deep_view(),
                stage@,
            ) ==> (r matches Err(e) && e matches Error::DeviceError(m) && m@
                == stage_unsupported_msg(stage@) && *final(self) == *old(self)),
            old(self).supported_stages@.len() > 0 && stage_listed(
                old(self).supported_stages.deep_view(),
                stage@,
            ) && old(self).op_mode != ControllerOpMode::Basedrive ==> (r matches Err(e) && e
                is InvalidParams && *final(self) == *old(self)),
            old(self).supported_stages@.len() > 0 && stage_listed(
                old(self).supported_stages.deep_view(),
                stage@,
            ) && old(self).op_mode == ControllerOpMode::Basedrive && old(self).modules@[slot_index(
                slot,
            )] != Module::Rsm ==> (r matches Err(e) && e is InvalidParams && *final(self) == *old(
                self)),
            r is Ok && old(self).supported_stages@.len() > 0 ==> final(self).written() == old(
                self).written() + (pgv_payload(slot, ch, stage@) + crate::codec::term_chars()),
            r is Ok && old(self).supported_stages@.len() == 0 ==> final(self).written() == old(
                self).written() + ("/STAGES"@ + crate::codec::term_chars()) + (pgv_payload(
                slot,
                ch,
                stage@,
            ) + crate::codec::term_chars()),
            r is Ok ==> stage_listed(final(self).supported_stages.deep_view(), stage@),
            final(self).supported_stages@.len() > 0 && !stage_listed(
                final(self).supported_stages.deep_view(),
                stage@,
            ) ==> (r matches Err(e) && e matches Error::DeviceError(m) && m@
                == stage_unsupported_msg(stage@) && (final(self).written() == old(self).written()
                || final(self).written() == old(self).written() + ("/STAGES"@
                + crate::codec::term_chars()))),
            r matches Err(e) ==> !(e is Bound),
            r matches Err(e) ==> (e is InvalidParams ==> old(self).op_mode
                != ControllerOpMode::Basedrive || old(self).modules@[slot_index(slot)]
                != Module::Rsm),
            final(self).written() == old(self).written() || final(self).written() == old(
                self).written() + ("/STAGES"@ + crate::codec::term_chars()) || final(
                self).written() == old(self).written() + ("/STAGES"@ + crate::codec::term_chars())
                + (pgv_payload(slot, ch, stage@) + crate::codec::term_chars()) || final(self).written() == old(
                self).written() + (pgv_payload(slot, ch, stage@) + crate::codec::term_chars()),
    {
        let supported = match self.check_stage(stage) {
            Ok(b) => b,
            Err(e) => {
                return Err(e);
            },
        };
        if !supported {
            let mut m = String::from_str("Stage ");
            m.append(stage);
            m.append(" unsupported");
            return Err(Error::DeviceError(m));
        }
        let mut p = String::from_str("PGV ");
        p.append(slot.wire_str());
        p.append(" ");
        p.append(ch.wire_str());
        p.append(" ");
        p.append(stage);
        let cmd = Command::new("PGV", only_rsm(), mode_only_base(), p.as_str());
        proof {
            lemma_contains1(cmd.allowed_mod->Only_0@, Module::Rsm, old(self).modules@[slot_index(slot)]);
            lemma_contains1(cmd.allowed_mode->Only_0@, ControllerOpMode::Basedrive, old(self).op_mode);
        }
        let mut v = match self.handle_command(&cmd, Some(1), Some(slot)) {
            Ok(v) => v,
            Err(e) => {
                return Err(e);
            },
        };
        let ghost vs0 = v.deep_view();
        proof {
            lemma_dispatch_values(self.conn.buffered(), Some(1), v);
            assert(vs0[0] == v@[0]@);
        }
        Ok(v.remove(0))
    }

    /// Reads the positions of all three channels of the RSM in `slot` at
    /// once, in the units of the given stages, as the device reports
    /// them.
    pub fn get_current_position_all(
        &mut self,
        slot: Slot,
        stage_ch1: &str,
        stage_ch2: &str,
        stage_ch3: &str,
    ) -> (r: Result<(String, String, String), Error>)
        requires
            old(self).wf(),
        ensures
            final(self).wf(),
            final(self).op_mode == old(self).op_mode,
            final(self).fw_vers == old(self).fw_vers,
            final(self).modules == old(self).modules,
            old(self).supported_stages@.len() > 0 ==> final(self).supported_stages == old(
                self).supported_stages,
            old(self).supported_stages@.len() > 0 && !(stage_listed(
                old(self).supported_stages.deep_view(),
                stage_ch1@,
            ) && stage_listed(old(self).supported_stages.deep_view(), stage_ch2@) && stage_listed(
                old(self).supported_stages.deep_view(),
                stage_ch3@,
            )) ==> (r matches Err(e) && e matches Error::DeviceError(m) && m@ == (
            if !stage_listed(old(self).supported_stages.deep_view(), stage_ch1@) {
                stage_unsupported_msg(stage_ch1@)
            } else if !stage_listed(old(self).supported_stages.deep_view(), stage_ch2@) {
                stage_unsupported_msg(stage_ch2@)
            } else {
                stage_unsupported_msg(stage_ch3@)
            }) && *final(self) == *old(self)),
            old(self).supported_stages@.len() > 0 && stage_listed(
                old(self).supported_stages.deep_view(),
                stage_ch1@,
            ) && stage_listed(old(self).supported_stages.deep_view(), stage_ch2@) && stage_listed(
                old(self).supported_stages.deep_view(),
                stage_ch3@,
            ) && old(self).op_mode != ControllerOpMode::Basedrive ==> (r matches Err(e) && e
                is InvalidParams && *final(self) == *old(self)),
            old(self).supported_stages@.len() > 0 && stage_listed(
                old(self).supported_stages.deep_view(),
                stage_ch1@,
            ) && stage_listed(old(self).supported_stages.deep_view(), stage_ch2@) && stage_listed(
                old(self).supported_stages.deep_view(),
                stage_ch3@,
            ) && old(self).op_mode == ControllerOpMode::Basedrive && old(self).modules@[slot_index(
                slot,
            )] != Module::Rsm ==> (r matches Err(e) && e is InvalidParams && *final(self) == *old(
                self)),
            r matches Ok(t) ==> (exists|vs: Seq<Seq<char>>|
                #[trigger] crate::codec::values_decode(final(self).conn.buffered(), vs)
                && vs.len() == 3 && t.0@ == vs[0] && t.1@ == vs[1] && t.2@ == vs[2]),
            r is Ok ==> stage_listed(final(self).supported_stages.deep_view(), stage_ch1@)
                && stage_listed(final(self).supported_stages.deep_view(), stage_ch2@)
                && stage_listed(final(self).supported_stages.deep_view(), stage_ch3@),
            final(self).supported_stages@.len() > 0 && !(stage_listed(
                final(self).supported_stages.deep_view(),
                stage_ch1@,
            ) && stage_listed(final(self).supported_stages.deep_view(), stage_ch2@)
                && stage_listed(final(self).supported_stages.deep_view(), stage_ch3@)) ==> (
            r matches Err(e) && e matches Error::DeviceError(m) && m@ == (if !stage_listed(
                final(self).supported_stages.deep_view(),
                stage_ch1@,
            ) {
                stage_unsupported_msg(stage_ch1@)
            } else if !stage_listed(final(self).supported_stages.deep_view(), stage_ch2@) {
                stage_unsupported_msg(stage_ch2@)
            } else {
                stage_unsupported_msg(stage_ch3@)
            }) && (final(self).written() == old(self).written() || final(self).written() == old(
                self).written() + ("/STAGES"@ + crate::codec::term_chars()))),
            r is Ok && old(self).supported_stages@.len() > 0 ==> final(self).written() == old(
                self).written() + (pgva_payload(slot, stage_ch1@, stage_ch2@, stage_ch3@)
                + crate::codec::term_chars()),
            r is Ok && old(self).supported_stages@.len() == 0 ==> final(self).written() == old(
                self).written() + ("/STAGES"@ + crate::codec::term_chars()) + (pgva_payload(
                slot,
                stage_ch1@,
                stage_ch2@,
                stage_ch3@,
            ) + crate::codec::term_chars()),
            r matches Err(e) ==> !(e is Bound),
            r matches Err(e) ==> (e is InvalidParams ==> old(self).op_mode
                != ControllerOpMode::Basedrive || old(self).modules@[slot_index(slot)]
                != Module::Rsm),
            final(self).written() == old(self).written() || final(self).written() == old(
                self).written() + ("/STAGES"@ + crate::codec::term_chars()) || final(
                self).written() == old(self).written() + ("/STAGES"@ + crate::codec::term_chars())
                + (pgva_payload(slot, stage_ch1@, stage_ch2@, stage_ch3@) + crate::codec::term_chars()) || final(self).written() == old(
                self).written() + (pgva_payload(slot, stage_ch1@, stage_ch2@, stage_ch3@) + crate::codec::term_chars()),
    {
        let s1_ok = match self.check_stage(stage_ch1) {
            Ok(b) => b,
            Err(e) => {
                return Err(e);
            },
        };
        if !s1_ok {
            let mut m = String::from_str("Stage ");
            m.append(stage_ch1);
            m.append(" unsupported");
            return Err(Error::DeviceError(m));
        }
        let s2_ok = match self.check_stage(stage_ch2) {
            Ok(b) => b,
            Err(e) => {
                return Err(e);
            },
        };
        if !s2_ok {
            let mut m = String::from_str("Stage ");
            m.append(stage_ch2);
            m.append(" unsupported");
            return Err(Error::DeviceError(m));
        }
        let s3_ok = match self.check_stage(stage_ch3) {
            Ok(b) => b,
            Err(e) => {
                return Err(e);
            },
        };
        if !s3_ok {
            let mut m = String::from_str("Stage ");
            m.append(stage_ch3);
            m.append(" unsupported");
            return Err(Error::DeviceError(m));
        }
        let mut p = String::from_str("PGVA ");
        p.append(slot.wire_str());
        p.append(" ");
        p.append(stage_ch1);
        p.append(" ");
        p.append(stage_ch2);
        p.append(" ");
        p.append(stage_ch3);
        let cmd = Command::new("PGVA", only_rsm(), mode_only_base(), p.as_str());
        proof {
            lemma_contains1(cmd.allowed_mod->Only_0@, Module::Rsm, old(self).modules@[slot_index(slot)]);
            lemma_contains1(cmd.allowed_mode->Only_0@, ControllerOpMode::Basedrive, old(self).op_mode);
        }
        let mut v = match self.handle_command(&cmd, Some(3), Some(slot)) {
            Ok(v) => v,
            Err(e) => {
                return Err(e);
            },
        };
        let ghost vs0 = v.deep_view();
        proof {
            lemma_dispatch_values(self.conn.buffered(), Some(3), v);
            assert(vs0[0] == v@[0]@);
            assert(vs0[1] == v@[1]@);
            assert(vs0[2] == v@[2]@);
        }
        let a = v.remove(0);
        let b = v.remove(0);
        let c = v.remove(0);
        Ok((a, b, c))
    }

    /// Reads the negative end-stop parameter of channel `ch` of the RSM
    /// in `slot`, in the unit of the given stage, as the device reports
    /// it.
    pub fn read_neg_end_stop(
        &mut self,
        slot: Slot,
        ch: ModuleChannel,
        stage: &str,
    ) -> (r: Result<String, Error>)
        requires
            old(self).wf(),
        ensures
            final(self).wf(),
            r matches Ok(s) ==> (exists|vs: Seq<Seq<char>>|
                #[trigger] crate::codec::values_decode(final(self).conn.buffered(), vs)
                && vs.len() == 1 && s@ == vs[0]),
            final(self).op_mode == old(self).op_mode,
            final(self).fw_vers == old(self).fw_vers,
            final(self).modules == old(self).modules,
            old(self).supported_stages@.len() > 0 ==> final(self).supported_stages == old(
                self).supported_stages,
            old(self).supported_stages@.len() > 0 && !stage_listed(
                old(self).supported_stages.deep_view(),
                stage@,
            ) ==> (r matches Err(e) && e matches Error::DeviceError(m) && m@
                == stage_unsupported_msg(stage@) && *final(self) == *old(self)),
            r is Ok && old(self).supported_stages@.len() > 0 ==> final(self).written() == old(
                self).written() + (end_stop_read_payload("MIR "@, slot, ch, stage@)
                + crate::codec::term_chars()),
            r is Ok && old(self).supported_stages@.len() == 0 ==> final(self).written() == old(
                self).written() + ("/STAGES"@ + crate::codec::term_chars()) + (end_stop_read_payload(
                "MIR "@,
                slot,
                ch,
                stage@,
            ) + crate::codec::term_chars()),
            r is Ok ==> stage_listed(final(self).supported_stages.deep_view(), stage@),
            final(self).supported_stages@.len() > 0 && !stage_listed(
                final(self).supported_stages.deep_view(),
                stage@,
            ) ==> (r matches Err(e) && e matches Error::DeviceError(m) && m@
                == stage_unsupported_msg(stage@) && (final(self).written() == old(self).written()
                || final(self).written() == old(self).written() + ("/STAGES"@
                + crate::codec::term_chars()))),
            r matches Err(e) ==> !(e is Bound),
            r matches Err(e) ==> (e is InvalidParams ==> old(self).op_mode
                != ControllerOpMode::Basedrive || old(self).modules@[slot_index(slot)]
                != Module::Rsm),
            final(self).written() == old(self).written() || final(self).written() == old(
                self).written() + ("/STAGES"@ + crate::codec::term_chars()) || final(
                self).written() == old(self).written() + ("/STAGES"@ + crate::codec::term_chars())
                + (end_stop_read_payload("MIR "@, slot, ch, stage@) + crate::codec::term_chars()) || final(self).written() == old(
                self).written() + (end_stop_read_payload("MIR "@, slot, ch, stage@) + crate::codec::term_chars()),
    {
        let supported = match self.check_stage(stage) {
            Ok(b) => b,
            Err(e) => {
                return Err(e);
            },
        };
        if !supported {
            let mut m = String::from_str("Stage ");
            m.append(stage);
            m.append(" unsupported");
            return Err(Error::DeviceError(m));
        }
        let mut p = String::from_str("MIR ");
        p.append(slot.wire_str());
        p.append(" ");
        p.append(ch.wire_str());
        p.append(" ");
        p.append(stage);
        let cmd = Command::new("MIR", only_rsm(), mode_only_base(), p.as_str());
        proof {
            lemma_contains1(cmd.allowed_mod->Only_0@, Module::Rsm, old(self).modules@[slot_index(slot)]);
            lemma_contains1(cmd.allowed_mode->Only_0@, ControllerOpMode::Basedrive, old(self).op_mode);
        }
        let mut v = match self.handle_command(&cmd, Some(1), Some(slot)) {
            Ok(v) => v,
            Err(e) => {
                return Err(e);
            },
        };
        let ghost vs0 = v.deep_view();
        proof {
            lemma_dispatch_values(self.conn.buffered(), Some(1), v);
            assert(vs0[0] == v@[0]@);
        }
        Ok(v.remove(0))
    }

    /// Reads the positive end-stop parameter of channel `ch` of the RSM
    /// in `slot`, in the unit of the given stage, as the device reports
    /// it.
    pub fn read_pos_end_stop(
        &mut self,
        slot: Slot,
        ch: ModuleChannel,
        stage: &str,
    ) -> (r: Result<String, Error>)
        requires
            old(self).wf(),
        ensures
            final(self).wf(),
            r matches Ok(s) ==> (exists|vs: Seq<Seq<char>>|
                #[trigger] crate::codec::values_decode(final(self).conn.buffered(), vs)
                && vs.len() == 1 && s@ == vs[0]),
            final(self).op_mode == old(self).op_mode,
            final(self).fw_vers == old(self).fw_vers,
            final(self).modules == old(self).modules,
            old(self).supported_stages@.len() > 0 ==> final(self).supported_stages == old(
                self).supported_stages,
            old(self).supported_stages@.len() > 0 && !stage_listed(
                old(self).supported_stages.deep_view(),
                stage@,
            ) ==> (r matches Err(e) && e matches Error::DeviceError(m) && m@
                == stage_unsupported_msg(stage@) && *final(self) == *old(self)),
            r is Ok && old(self).supported_stages@.len() > 0 ==> final(self).written() == old(
                self).written() + (end_stop_read_payload("MAR "@, slot, ch, stage@)
                + crate::codec::term_chars()),
            r is Ok && old(self).supported_stages@.len() == 0 ==> final(self).written() == old(
                self).written() + ("/STAGES"@ + crate::codec::term_chars()) + (end_stop_read_payload(
                "MAR "@,
                slot,
                ch,
                stage@,
            ) + crate::codec::term_chars()),
            r is Ok ==> stage_listed(final(self).supported_stages.deep_view(), stage@),
            final(self).supported_stages@.len() > 0 && !stage_listed(
                final(self).supported_stages.deep_view(),
                stage@,
            ) ==> (r matches Err(e) && e matches Error::DeviceError(m) && m@
                == stage_unsupported_msg(stage@) && (final(self).written() == old(self).written()
                || final(self).written() == old(self).written() + ("/STAGES"@
                + crate::codec::term_chars()))),
            r matches Err(e) ==> !(e is Bound),
            r matches Err(e) ==> (e is InvalidParams ==> old(self).op_mode
                != ControllerOpMode::Basedrive || old(self).modules@[slot_index(slot)]
                != Module::Rsm),
            final(self).written() == old(self).written() || final(self).written() == old(
                self).written() + ("/STAGES"@ + crate::codec::term_chars()) || final(
                self).written() == old(self).written() + ("/STAGES"@ + crate::codec::term_chars())
                + (end_stop_read_payload("MAR "@, slot, ch, stage@) + crate::codec::term_chars()) || final(self).written() == old(
                self).written() + (end_stop_read_payload("MAR "@, slot, ch, stage@) + crate::codec::term_chars()),
    {
        let supported = match self.check_stage(stage) {
            Ok(b) => b,
            Err(e) => {
                return Err(e);
            },
        };
        if !supported {
            let mut m = String::from_str("Stage ");
            m.append(stage);
            m.append(" unsupported");
            return Err(Error::DeviceError(m));
        }
        let mut p = String::from_str("MAR ");
        p.append(slot.wire_str());
        p.append(" ");
        p.append(ch.wire_str());
        p.append(" ");
        p.append(stage);
        let cmd = Command::new("MAR", only_rsm(), mode_only_base(), p.as_str());
        proof {
            lemma_contains1(cmd.allowed_mod->Only_0@, Module::Rsm, old(self).modules@[slot_index(slot)]);
            lemma_contains1(cmd.allowed_mode->Only_0@, ControllerOpMode::Basedrive, old(self).op_mode);
        }
        let mut v = match self.handle_command(&cmd, Some(1), Some(slot)) {
            Ok(v) => v,
            Err(e) => {
                return Err(e);
            },
        };
        let ghost vs0 = v.deep_view();
        proof {
            lemma_dispatch_values(self.conn.buffered(), Some(1), v);
            assert(vs0[0] == v@[0]@);
        }
        Ok(v.remove(0))
    }

    /// Enables the internal position feedback control with up to three
    /// stages: servo drive. The initial step frequencies set how fast the
    /// stages first step; the control loop reduces them near a setpoint.
    /// On a confirmed success the recorded mode becomes servo drive, and
    /// a failed exchange leaves it untouched.
    pub fn enable_servodrive(
        &mut self,
        stage_1: &str,
        init_step_freq_1: u16,
        stage_2: &str,
        init_step_freq_2: u16,
        stage_3: &str,
        init_step_freq_3: u16,
        temp: u16,
        drive_factor_tenths: u8,
    ) -> (r: Result<String, Error>)
        requires
            old(self).wf(),
        ensures
            final(self).wf(),
            r matches Ok(s) ==> (exists|vs: Seq<Seq<char>>|
                #[trigger] crate::codec::values_decode(final(self).conn.buffered(), vs)
                && vs.len() == 1 && s@ == vs[0]),
            final(self).fw_vers == old(self).fw_vers,
            final(self).modules == old(self).modules,
            old(self).supported_stages@.len() > 0 ==> final(self).supported_stages == old(
                self).supported_stages,
            r is Ok ==> final(self).op_mode == ControllerOpMode::Servodrive,
            r is Err ==> final(self).op_mode == old(self).op_mode,
            !fben_bounds_ok(
                init_step_freq_1,
                init_step_freq_2,
                init_step_freq_3,
                temp,
                drive_factor_tenths,
            ) ==> (r matches Err(e) && e matches Error::Bound(m) && m@
                == "Input parameter out of bounds"@ && *final(self) == *old(self)),
            fben_bounds_ok(
                init_step_freq_1,
                init_step_freq_2,
                init_step_freq_3,
                temp,
                drive_factor_tenths,
            ) && old(self).supported_stages@.len() > 0 && !(stage_listed(
                old(self).supported_stages.deep_view(),
                stage_1@,
            ) && stage_listed(old(self).supported_stages.deep_view(), stage_2@) && stage_listed(
                old(self).supported_stages.deep_view(),
                stage_3@,
            )) ==> (r matches Err(e) && e matches Error::DeviceError(m) && m@ == (
            if !stage_listed(old(self).supported_stages.deep_view(), stage_1@) {
                stage_unsupported_msg(stage_1@)
            } else if !stage_listed(old(self).supported_stages.deep_view(), stage_2@) {
                stage_unsupported_msg(stage_2@)
            } else {
                stage_unsupported_msg(stage_3@)
            }) && *final(self) == *old(self)),
            r is Ok && old(self).supported_stages@.len() > 0 ==> final(self).written() == old(
                self).written() + (fben_payload(
                stage_1@,
                init_step_freq_1,
                stage_2@,
                init_step_freq_2,
                stage_3@,
                init_step_freq_3,
                temp,
                drive_factor_tenths,
            ) + crate::codec::term_chars()),
            r is Ok && old(self).supported_stages@.len() == 0 ==> final(self).written() == old(
                self).written() + ("/STAGES"@ + crate::codec::term_chars()) + (fben_payload(
                stage_1@,
                init_step_freq_1,
                stage_2@,
                init_step_freq_2,
                stage_3@,
                init_step_freq_3,
                temp,
                drive_factor_tenths,
            ) + crate::codec::term_chars()),
            r is Ok ==> stage_listed(final(self).supported_stages.deep_view(), stage_1@)
                && stage_listed(final(self).supported_stages.deep_view(), stage_2@)
                && stage_listed(final(self).supported_stages.deep_view(), stage_3@),
            fben_bounds_ok(
                init_step_freq_1,
                init_step_freq_2,
                init_step_freq_3,
                temp,
                drive_factor_tenths,
            ) && final(self).supported_stages@.len() > 0 && !(stage_listed(
                final(self).supported_stages.deep_view(),
                stage_1@,
            ) && stage_listed(final(self).supported_stages.deep_view(), stage_2@) && stage_listed(
                final(self).supported_stages.deep_view(),
                stage_3@,
            )) ==> (r matches Err(e) && e matches Error::DeviceError(m) && m@ == (
            if !stage_listed(final(self).supported_stages.deep_view(), stage_1@) {
                stage_unsupported_msg(stage_1@)
            } else if !stage_listed(final(self).supported_stages.deep_view(), stage_2@) {
                stage_unsupported_msg(stage_2@)
            } else {
                stage_unsupported_msg(stage_3@)
            }) && (final(self).written() == old(self).written() || final(self).written() == old(
                self).written() + ("/STAGES"@ + crate::codec::term_chars()))),
            r matches Err(e) ==> (e is Bound <==> !fben_bounds_ok(
                init_step_freq_1,
                init_step_freq_2,
                init_step_freq_3,
                temp,
                drive_factor_tenths,
            )),
            r matches Err(e) ==> !(e is InvalidParams),
            final(self).written() == old(self).written() || final(self).written() == old(
                self).written() + ("/STAGES"@ + crate::codec::term_chars()) || final(
                self).written() == old(self).written() + ("/STAGES"@ + crate::codec::term_chars())
                + (fben_payload(
                stage_1@,
                init_step_freq_1,
                stage_2@,
                init_step_freq_2,
                stage_3@,
                init_step_freq_3,
                temp,
                drive_factor_tenths,
            ) + crate::codec::term_chars()) || final(self).written() == old(
                self).written() + (fben_payload(
                stage_1@,
                init_step_freq_1,
                stage_2@,
                init_step_freq_2,
                stage_3@,
                init_step_freq_3,
                temp,
                drive_factor_tenths,
            ) + crate::codec::term_chars()),
    {
        if !(crate::config::DRIVE_FACTOR_TENTHS_MIN <= drive_factor_tenths && drive_factor_tenths
            <= crate::config::DRIVE_FACTOR_TENTHS_MAX && init_step_freq_1
            <= crate::config::STEP_FREQ_MAX && init_step_freq_2 <= crate::config::STEP_FREQ_MAX
            && init_step_freq_3 <= crate::config::STEP_FREQ_MAX && temp
            <= crate::config::TEMP_MAX) {
            return Err(Error::Bound(String::from_str("Input parameter out of bounds")));
        }
        let s1_ok = match self.check_stage(stage_1) {
            Ok(b) => b,
            Err(e) => {
                return Err(e);
            },
        };
        if !s1_ok {
            let mut m = String::from_str("Stage ");
            m.append(stage_1);
            m.append(" unsupported");
            return Err(Error::DeviceError(m));
        }
        let s2_ok = match self.check_stage(stage_2) {
            Ok(b) => b,
            Err(e) => {
                return Err(e);
            },
        };
        if !s2_ok {
            let mut m = String::from_str("Stage ");
            m.append(stage_2);
            m.append(" unsupported");
            return Err(Error::DeviceError(m));
        }
        let s3_ok = match self.check_stage(stage_3) {
            Ok(b) => b,
            Err(e) => {
                return Err(e);
            },
        };
        if !s3_ok {
            let mut m = String::from_str("Stage ");
            m.append(stage_3);
            m.append(" unsupported");
            return Err(Error::DeviceError(m));
        }
        let mut p = String::from_str("FBEN ");
        p.append(stage_1);
        p.append(" ");
        p.append(crate::numtext::u64_to_string(init_step_freq_1 as u64).as_str());
        p.append(" ");
        p.append(stage_2);
        p.append(" ");
        p.append(crate::numtext::u64_to_string(init_step_freq_2 as u64).as_str());
        p.append(" ");
        p.append(stage_3);
        p.append(" ");
        p.append(crate::numtext::u64_to_string(init_step_freq_3 as u64).as_str());
        p.append(" ");
        p.append(crate::numtext::tenths_to_string(drive_factor_tenths).as_str());
        p.append(" ");
        p.append(crate::numtext::u64_to_string(temp as u64).as_str());
        let cmd = Command::new("FBEN", ModuleScope::Any, ModeScope::Any, p.as_str());
        let mut v = match self.handle_command(&cmd, Some(1), None) {
            Ok(v) => v,
            Err(e) => {
                return Err(e);
            },
        };
        self.op_mode = ControllerOpMode::Servodrive;
        let ghost vs0 = v.deep_view();
        proof {
            lemma_dispatch_values(self.conn.buffered(), Some(1), v);
            assert(vs0[0] == v@[0]@);
        }
        Ok(v.remove(0))
    }
}

/// Whether the open-loop move arguments all lie in their documented
/// physical ranges.
pub open spec fn mov_bounds_ok(f: u16, rss: u8, n: u16, temp: u16, dft: u8) -> bool {
    &&& f <= crate::config::STEP_FREQ_MAX
    &&& rss <= crate::config::REL_STEP_SIZE_MAX
    &&& n <= crate::config::NUM_STEPS_MAX
    &&& temp <= crate::config::TEMP_MAX
    &&& crate::config::DRIVE_FACTOR_TENTHS_MIN <= dft <= crate::config::DRIVE_FACTOR_TENTHS_MAX
}

/// Whether the external-input-mode arguments all lie in their ranges.
pub open spec fn ext_bounds_ok(f: u16, rss: u8, temp: u16, dft: u8) -> bool {
    &&& f <= crate::config::STEP_FREQ_MAX
    &&& rss <= crate::config::REL_STEP_SIZE_MAX
    &&& temp <= crate::config::TEMP_MAX
    &&& crate::config::DRIVE_FACTOR_TENTHS_MIN <= dft <= crate::config::DRIVE_FACTOR_TENTHS_MAX
}

/// Whether the servodrive-enable arguments all lie in their ranges.
pub open spec fn fben_bounds_ok(f1: u16, f2: u16, f3: u16, temp: u16, dft: u8) -> bool {
    &&& f1 <= crate::config::STEP_FREQ_MAX
    &&& f2 <= crate::config::STEP_FREQ_MAX
    &&& f3 <= crate::config::STEP_FREQ_MAX
    &&& temp <= crate::config::TEMP_MAX
    &&& crate::config::DRIVE_FACTOR_TENTHS_MIN <= dft <= crate::config::DRIVE_FACTOR_TENTHS_MAX
}

/// The request text of the open-loop move command, without terminator.
pub open spec fn mov_payload(
    slot: Slot,
    d: Direction,
    f: u16,
    rss: u8,
    n: u16,
    temp: u16,
    stage: Seq<char>,
    dft: u8,
) -> Seq<char> {
    "MOV "@ + slot_chars(slot) + " "@ + direction_chars(d) + " "@ + crate::numtext::dec_chars(
        f as nat,
    ) + " "@ + crate::numtext::dec_chars(rss as nat) + " "@ + crate::numtext::dec_chars(n as nat)
        + " "@ + crate::numtext::dec_chars(temp as nat) + " "@ + stage + " "@
        + crate::numtext::tenths_chars(dft as nat)
}

/// The request text of the external-input-mode command.
pub open spec fn ext_payload(
    slot: Slot,
    d: Direction,
    f: u16,
    rss: u8,
    temp: u16,
    stage: Seq<char>,
    dft: u8,
) -> Seq<char> {
    "EXT "@ + slot_chars(slot) + " "@ + direction_chars(d) + " "@ + crate::numtext::dec_chars(
        f as nat,
    ) + " "@ + crate::numtext::dec_chars(rss as nat) + " "@ + crate::numtext::dec_chars(
        temp as nat,
    ) + " "@ + stage + " "@ + crate::numtext::tenths_chars(dft as nat)
}

/// The request text of the servodrive-enable command.
pub open spec fn fben_payload(
    s1: Seq<char>,
    f1: u16,
    s2: Seq<char>,
    f2: u16,
    s3: Seq<char>,
    f3: u16,
    temp: u16,
    dft: u8,
) -> Seq<char> {
    "FBEN "@ + s1 + " "@ + crate::numtext::dec_chars(f1 as nat) + " "@ + s2 + " "@
        + crate::numtext::dec_chars(f2 as nat) + " "@ + s3 + " "@ + crate::numtext::dec_chars(
        f3 as nat,
    ) + " "@ + crate::numtext::tenths_chars(dft as nat) + " "@ + crate::numtext::dec_chars(
        temp as nat,
    )
}

/// The request text of a single-channel position read.
pub open spec fn pgv_payload(slot: Slot, ch: ModuleChannel, stage: Seq<char>) -> Seq<char> {
    "PGV "@ + slot_chars(slot) + " "@ + channel_chars(ch) + " "@ + stage
}

/// The request text of the all-channel position read.
pub open spec fn pgva_payload(slot: Slot, s1: Seq<char>, s2: Seq<char>, s3: Seq<char>) -> Seq<
    char,
> {
    "PGVA "@ + slot_chars(slot) + " "@ + s1 + " "@ + s2 + " "@ + s3
}

/// The request text of an end-stop parameter read; `mn` is `MIR ` or
/// `MAR ` with its trailing space.
pub open spec fn end_stop_read_payload(
    mn: Seq<char>,
    slot: Slot,
    ch: ModuleChannel,
    stage: Seq<char>,
) -> Seq<char> {
    mn + slot_chars(slot) + " "@ + channel_chars(ch) + " "@ + stage
}

/// The full request text for reading the baud rate of one serial
/// interface.
pub open spec fn gbr_chars(ifc: SerialInterface) -> Seq<char> {
    match ifc {
        SerialInterface::Rs422 => "/GBR RS422"@,
        SerialInterface::Usb => "/GBR USB"@,
    }
}

/// The full request text for setting the LAN configuration: DHCP mode
/// carries placeholder zeros, static mode the three given addresses.
pub open spec fn ips_payload(mode: IpAddrMode, ip: Seq<char>, mask: Seq<char>, gw: Seq<char>) -> Seq<
    char,
> {
    match mode {
        IpAddrMode::Dhcp => "/IPS DHCP 0.0.0.0 0.0.0.0 0.0.0.0"@,
        IpAddrMode::Static => "/IPS STATIC "@ + ip + " "@ + mask + " "@ + gw,
    }
}

/// The request prefix for setting the baud rate of one serial interface.
pub open spec fn sbr_prefix_chars(ifc: SerialInterface) -> Seq<char> {
    match ifc {
        SerialInterface::Rs422 => "/SBR RS422 "@,
        SerialInterface::Usb => "/SBR USB "@,
    }
}

/// Membership in a one-element sequence is equality with that element.
proof fn lemma_contains1<T>(s: Seq<T>, x: T, y: T)
    requires
        s =~= seq![x],
    ensures
        s.contains(y) <==> y == x,
{
    if s.contains(y) {
        let i = choose|i: int| 0 <= i < s.len() && s[i] == y;
        assert(s[0] == x);
    }
    if y == x {
        assert(s[0] == y);
    }
}

/// Membership in a two-element sequence is equality with one of them.
proof fn lemma_contains2<T>(s: Seq<T>, x0: T, x1: T, y: T)
    requires
        s =~= seq![x0, x1],
    ensures
        s.contains(y) <==> (y == x0 || y == x1),
{
    if s.contains(y) {
        let i = choose|i: int| 0 <= i < s.len() && s[i] == y;
        assert(i == 0 || i == 1);
    }
    if y == x0 {
        assert(s[0] == y);
    }
    if y == x1 {
        assert(s[1] == y);
    }
}

/// The module scope holding only the CADM2 driver module.
fn only_cadm() -> (r: ModuleScope)
    ensures
        r matches ModuleScope::Only(ms) && ms@ =~= seq![Module::Cadm],
{
    let mut ms: Vec<Module> = Vec::new();
    ms.push(Module::Cadm);
    ModuleScope::Only(ms)
}

/// The module scope holding only the RSM sensor module.
fn only_rsm() -> (r: ModuleScope)
    ensures
        r matches ModuleScope::Only(ms) && ms@ =~= seq![Module::Rsm],
{
    let mut ms: Vec<Module> = Vec::new();
    ms.push(Module::Rsm);
    ModuleScope::Only(ms)
}

/// The mode scope holding only base drive.
fn mode_only_base() -> (r: ModeScope)
    ensures
        r matches ModeScope::Only(ms) && ms@ =~= seq![ControllerOpMode::Basedrive],
{
    let mut ms: Vec<ControllerOpMode> = Vec::new();
    ms.push(ControllerOpMode::Basedrive);
    ModeScope::Only(ms)
}

/// The mode scope holding only servo drive.
fn mode_only_servo() -> (r: ModeScope)
    ensures
        r matches ModeScope::Only(ms) && ms@ =~= seq![ControllerOpMode::Servodrive],
{
    let mut ms: Vec<ControllerOpMode> = Vec::new();
    ms.push(ControllerOpMode::Servodrive);
    ModeScope::Only(ms)
}

/// The mode scope holding base and flex drive.
fn mode_only_base_flex() -> (r: ModeScope)
    ensures
        r matches ModeScope::Only(ms) && ms@ =~= seq![
            ControllerOpMode::Basedrive,
            ControllerOpMode::Flexdrive,
        ],
{
    let mut ms: Vec<ControllerOpMode> = Vec::new();
    ms.push(ControllerOpMode::Basedrive);
    ms.push(ControllerOpMode::Flexdrive);
    ModeScope::Only(ms)
}

/// Clones a vector of strings, character for character.
fn clone_string_vec(v: &Vec<String>) -> (r: Vec<String>)
    ensures
        r@ == v@,
{
    let r = v.clone();
    proof {
        assert forall|i: int| 0 <= i < v@.len() implies r@[i] == v@[i] by {
            assert(vstd::pervasive::cloned::<String>(v[i], r[i]));
        }
        assert(r@ =~= v@);
    }
    r
}

} // verus!
