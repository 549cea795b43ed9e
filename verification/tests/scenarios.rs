use jpe::channel::{Channel, ChunkRead};
use jpe::codec::Frame;
use jpe::connection::Connection;
use jpe::context::BaseContext;
use jpe::{ControllerOpMode, Error, Module, Slot};

/// A scripted device double: each `send` arms the next scripted reply,
/// which `read_chunk` then delivers in pieces of at most 64 bytes.
struct MockChannel {
    replies: Vec<Vec<u8>>,
    next_reply: usize,
    pending: Vec<u8>,
    delivered: usize,
    /// Every byte handed to `send`, in order.
    written: Vec<u8>,
    /// How many transactions reached the wire.
    sends: usize,
    input_clears: usize,
}

impl MockChannel {
    fn new(replies: Vec<&[u8]>) -> MockChannel {
        MockChannel {
            replies: replies.into_iter().map(|r| r.to_vec()).collect(),
            next_reply: 0,
            pending: Vec::new(),
            delivered: 0,
            written: Vec::new(),
            sends: 0,
            input_clears: 0,
        }
    }
}

impl Channel for MockChannel {
    fn clear_input(&mut self) -> Result<(), String> {
        self.input_clears += 1;
        Ok(())
    }

    fn clear_output(&mut self) -> Result<(), String> {
        Ok(())
    }

    fn send(&mut self, data: &str) -> Result<(), String> {
        self.sends += 1;
        self.written.extend_from_slice(data.as_bytes());
        if self.next_reply < self.replies.len() {
            self.pending = self.replies[self.next_reply].clone();
            self.next_reply += 1;
            self.delivered = 0;
        } else {
            self.pending = Vec::new();
            self.delivered = 0;
        }
        Ok(())
    }

    fn reset_deadline(&mut self) {}

    fn deadline_expired(&mut self) -> bool {
        false
    }

    fn read_chunk(&mut self) -> ChunkRead {
        if self.delivered >= self.pending.len() {
            return ChunkRead::Eof;
        }
        let end = (self.delivered + 64).min(self.pending.len());
        let chunk = self.pending[self.delivered..end].to_vec();
        self.delivered = end;
        ChunkRead::Data(chunk)
    }
}

fn context_with(replies: Vec<&[u8]>) -> BaseContext<MockChannel> {
    BaseContext::new(MockChannel::new(replies))
}

#[test]
fn fw_version_happy_path_and_cached() {
    let mut ctx = context_with(vec![b"v8.0.20220221\r\n"]);
    let v = ctx.get_fw_version().unwrap();
    assert_eq!(v, "v8.0.20220221");
    assert_eq!(ctx.conn.channel.written, b"/VER\r\n");
    assert_eq!(ctx.conn.channel.sends, 1);
    // The second call answers from the cache: zero further transactions.
    let v2 = ctx.get_fw_version().unwrap();
    assert_eq!(v2, "v8.0.20220221");
    assert_eq!(ctx.conn.channel.sends, 1);
}

#[test]
fn fw_version_bad_terminator() {
    let mut ctx = context_with(vec![b"v8.0.20220221/"]);
    let r = ctx.get_fw_version();
    match r {
        Err(Error::InvalidResponse(msg)) => assert_eq!(msg, "Terminator not found"),
        other => panic!("expected an invalid response, got {:?}", other),
    }
    // A failed query caches nothing; the next call queries again.
    assert_eq!(ctx.fw_vers, "");
}

#[test]
fn module_list_comma_form_updates_table() {
    let mut ctx = context_with(vec![b"CADM2,CADM2,RSM,OEM2,-,EDM\r\n"]);
    let v = ctx.get_module_list().unwrap();
    assert_eq!(v, vec!["CADM2", "CADM2", "RSM", "OEM2", "-", "EDM"]);
    assert_eq!(ctx.conn.channel.written, b"/MODLIST\r\n");
    assert_eq!(
        ctx.modules,
        vec![Module::Cadm, Module::Cadm, Module::Rsm, Module::Oem, Module::Empty, Module::Edm]
    );
}

#[test]
fn module_list_cr_form_same_outcome() {
    let mut ctx = context_with(vec![b"CADM2\rCADM2\rRSM\rOEM2\r-\rEDM\r\n"]);
    let v = ctx.get_module_list().unwrap();
    assert_eq!(v, vec!["CADM2", "CADM2", "RSM", "OEM2", "-", "EDM"]);
    assert_eq!(
        ctx.modules,
        vec![Module::Cadm, Module::Cadm, Module::Rsm, Module::Oem, Module::Empty, Module::Edm]
    );
}

#[test]
fn module_list_wrong_count_leaves_table() {
    let mut ctx = context_with(vec![b"CADM2,RSM\r\n"]);
    let r = ctx.get_module_list();
    assert!(matches!(r, Err(Error::InvalidResponse(_))));
    assert_eq!(ctx.modules, vec![Module::Empty; 6]);
}

#[test]
fn module_list_unknown_module_leaves_table() {
    let mut ctx = context_with(vec![b"CADM2,CADM2,RSM,OEM2,JUNK,EDM\r\n"]);
    let r = ctx.get_module_list();
    assert!(matches!(r, Err(Error::InvalidResponse(_))));
    assert_eq!(ctx.modules, vec![Module::Empty; 6]);
}

#[test]
fn device_reported_failure_preserved_verbatim() {
    let mut ctx = context_with(vec![b"Error something failed\r\n"]);
    let r = ctx.get_fw_version();
    match r {
        Err(Error::DeviceError(msg)) => assert_eq!(msg, "Error something failed"),
        other => panic!("expected a device error, got {:?}", other),
    }
}

#[test]
fn mode_gating_issues_no_transaction() {
    // Disabling servodrive is only legal in servo drive; the context
    // starts in base drive, so validation must fail with zero bytes
    // written.
    let mut ctx = context_with(vec![b"ok\r\n"]);
    let r = ctx.disable_servodrive();
    match r {
        Err(Error::InvalidParams(msg)) => {
            assert_eq!(msg, "Unsupported command: 'FBXT', in mode: 'Basedrive'");
        },
        other => panic!("expected invalid params, got {:?}", other),
    }
    assert_eq!(ctx.conn.channel.sends, 0);
    assert_eq!(ctx.conn.channel.written, b"");
    assert_eq!(ctx.op_mode, ControllerOpMode::Basedrive);
}

#[test]
fn module_gating_issues_no_transaction() {
    // All slots are empty until a module-list query succeeds, so a
    // CADM2-scoped command must be rejected with zero bytes written.
    let mut ctx = context_with(vec![b"ok\r\n"]);
    let r = ctx.get_fail_safe_state(Slot::One);
    match r {
        Err(Error::InvalidParams(msg)) => {
            assert_eq!(msg, "Unsupported command: 'GFS', for module: 'Empty'");
        },
        other => panic!("expected invalid params, got {:?}", other),
    }
    assert_eq!(ctx.conn.channel.sends, 0);
}

#[test]
fn stage_catalog_fetched_once() {
    let mut ctx = context_with(vec![b"CLA2601,CLA2602,CRM1\r\n"]);
    let v = ctx.get_supported_stages().unwrap();
    assert_eq!(v, vec!["CLA2601", "CLA2602", "CRM1"]);
    assert_eq!(ctx.conn.channel.sends, 1);
    assert_eq!(ctx.conn.channel.written, b"/STAGES\r\n");
    // The second call returns the cached list unchanged with no wire
    // traffic.
    let v2 = ctx.get_supported_stages().unwrap();
    assert_eq!(v2, v);
    assert_eq!(ctx.conn.channel.sends, 1);
}

#[test]
fn bounds_rejection_issues_no_transaction() {
    let mut ctx = context_with(vec![b"ok\r\n"]);
    let r = ctx.move_stage_open(Slot::One, jpe::Direction::Positive, 601, 100, 0, 293, "CLA2601", 10);
    match r {
        Err(Error::Bound(msg)) => assert_eq!(msg, "Input parameter out of bounds."),
        other => panic!("expected a bound error, got {:?}", other),
    }
    assert_eq!(ctx.conn.channel.sends, 0);
}

#[test]
fn unsupported_stage_rejected_before_command() {
    let mut ctx = context_with(vec![b"CLA2601,CRM1\r\n", b"ok\r\n"]);
    let r = ctx.move_stage_open(Slot::One, jpe::Direction::Positive, 600, 100, 0, 293, "NOPE", 10);
    match r {
        Err(Error::DeviceError(msg)) => assert_eq!(msg, "Stage NOPE unsupported"),
        other => panic!("expected a device error, got {:?}", other),
    }
    // Only the stage-catalog query reached the wire.
    assert_eq!(ctx.conn.channel.sends, 1);
    assert_eq!(ctx.conn.channel.written, b"/STAGES\r\n");
}

#[test]
fn move_stage_open_full_payload() {
    let mut ctx = context_with(vec![
        b"CADM2,CADM2,RSM,OEM2,-,EDM\r\n",
        b"CLA2601,CRM1\r\n",
        b"ok\r\n",
    ]);
    ctx.get_module_list().unwrap();
    let r = ctx
        .move_stage_open(Slot::One, jpe::Direction::Positive, 600, 100, 50, 293, "CLA2601", 15)
        .unwrap();
    assert_eq!(r, "ok");
    let expected: Vec<u8> =
        b"/MODLIST\r\n/STAGES\r\nMOV 1 1 600 100 50 293 CLA2601 1.5\r\n".to_vec();
    assert_eq!(ctx.conn.channel.written, expected);
}

#[test]
fn overflow_guard_cites_capacity_and_offset() {
    // 4160 bytes arrive without a terminator: 65 chunks of 64. The 64th
    // chunk passes 4096, so the engine stops at 4160 bytes counted.
    let big = vec![b'x'; 4160];
    let mut ctx = context_with(vec![&big, b"v1\r\n"]);
    let r = ctx.get_fw_version();
    match r {
        Err(Error::BufOverflow { max_len, idx }) => {
            assert_eq!(max_len, 4096);
            assert_eq!(idx, 4160);
        },
        other => panic!("expected overflow, got {:?}", other),
    }
    // The buffer was discarded: the next transaction starts clean and
    // succeeds on a fresh reply.
    let v = ctx.get_fw_version().unwrap();
    assert_eq!(v, "v1");
}

#[test]
fn stop_stage_returns_to_base_drive() {
    let mut ctx = context_with(vec![
        b"CADM2,CADM2,RSM,OEM2,-,EDM\r\n",
        b"CLA2601\r\n",
        b"ok\r\n",
        b"ok\r\n",
    ]);
    ctx.get_module_list().unwrap();
    ctx.enable_ext_input_mode(Slot::One, jpe::Direction::Negative, 600, 100, 293, "CLA2601", 10)
        .unwrap();
    assert_eq!(ctx.op_mode, ControllerOpMode::Flexdrive);
    let r = ctx.stop_stage(Slot::One).unwrap();
    assert_eq!(r, "ok");
    assert_eq!(ctx.op_mode, ControllerOpMode::Basedrive);
}

#[test]
fn servodrive_cycle() {
    let mut ctx = context_with(vec![
        b"CLA2601,CRM1\r\n",
        b"ok\r\n",
        b"1,0,0,0,0,12,-3,0\r\n",
        b"ok\r\n",
    ]);
    ctx.enable_servodrive("CLA2601", 600, "CRM1", 600, "CLA2601", 600, 293, 30).unwrap();
    assert_eq!(ctx.op_mode, ControllerOpMode::Servodrive);
    let status = ctx.get_servodrive_status().unwrap();
    assert_eq!(status, (1, 0, 0, 0, 0, 12, -3, 0));
    ctx.servodrive_em_stop().unwrap();
    assert_eq!(ctx.op_mode, ControllerOpMode::Basedrive);
    let expected: Vec<u8> =
        b"/STAGES\r\nFBEN CLA2601 600 CRM1 600 CLA2601 600 3 293\r\nFBST\r\nFBES\r\n".to_vec();
    assert_eq!(ctx.conn.channel.written, expected);
}

#[test]
fn failed_mode_change_leaves_mode() {
    let mut ctx = context_with(vec![b"CLA2601\r\n", b"Error busy\r\n"]);
    let r = ctx.enable_servodrive("CLA2601", 100, "CLA2601", 100, "CLA2601", 100, 293, 10);
    assert!(matches!(r, Err(Error::DeviceError(_))));
    assert_eq!(ctx.op_mode, ControllerOpMode::Basedrive);
}

#[test]
fn duty_cycle_disjoint_range() {
    // 0 and 10..=100 are legal; 1..=9 and anything above 100 are not.
    // Validation order puts the bound check before mode and module
    // checks, so an out-of-range duty fails on the bound even here.
    let mut ctx = context_with(vec![]);
    assert!(matches!(ctx.set_excitation_ds(Slot::Three, 9), Err(Error::Bound(_))));
    assert!(matches!(ctx.set_excitation_ds(Slot::Three, 101), Err(Error::Bound(_))));
    assert_eq!(ctx.conn.channel.sends, 0);
    // Legal values pass the bound check and reach module validation.
    assert!(matches!(ctx.set_excitation_ds(Slot::Three, 0), Err(Error::InvalidParams(_))));
    assert!(matches!(ctx.set_excitation_ds(Slot::Three, 10), Err(Error::InvalidParams(_))));
    assert!(matches!(ctx.set_excitation_ds(Slot::Three, 100), Err(Error::InvalidParams(_))));
    assert_eq!(ctx.conn.channel.sends, 0);
}

#[test]
fn baud_rate_bounds() {
    let mut ctx = context_with(vec![b"ok\r\n", b"ok\r\n"]);
    assert!(matches!(
        ctx.set_baud_rate(jpe::SerialInterface::Usb, 9599),
        Err(Error::Bound(_))
    ));
    assert!(matches!(
        ctx.set_baud_rate(jpe::SerialInterface::Usb, 1_000_001),
        Err(Error::Bound(_))
    ));
    assert_eq!(ctx.conn.channel.sends, 0);
    assert_eq!(ctx.set_baud_rate(jpe::SerialInterface::Usb, 9600).unwrap(), "ok");
    assert_eq!(ctx.set_baud_rate(jpe::SerialInterface::Rs422, 1_000_000).unwrap(), "ok");
    let expected: Vec<u8> = b"/SBR USB 9600\r\n/SBR RS422 1000000\r\n".to_vec();
    assert_eq!(ctx.conn.channel.written, expected);
}

#[test]
fn get_baud_rate_parses_number() {
    let mut ctx = context_with(vec![b"115200\r\n", b"fast\r\n"]);
    assert_eq!(ctx.get_baud_rate(jpe::SerialInterface::Rs422).unwrap(), 115_200);
    assert!(matches!(
        ctx.get_baud_rate(jpe::SerialInterface::Rs422),
        Err(Error::ParseInt(_))
    ));
}

#[test]
fn ip_config_round() {
    let mut ctx = context_with(vec![b"ok\r\n"]);
    let r = ctx.set_ip_config(jpe::IpAddrMode::Static, "192.168.10.5", "255.255.255.0", "192.168.10.1");
    assert_eq!(r.unwrap(), "ok");
    let expected: Vec<u8> = b"/IPS STATIC 192.168.10.5 255.255.255.0 192.168.10.1\r\n".to_vec();
    assert_eq!(ctx.conn.channel.written, expected);
    let bad = ctx.set_ip_config(jpe::IpAddrMode::Static, "192.168.10.999", "255.255.255.0", "192.168.10.1");
    assert!(matches!(bad, Err(Error::InvalidParams(_))));
    assert_eq!(ctx.conn.channel.sends, 1);
}

#[test]
fn ip_config_dhcp_uses_placeholders() {
    let mut ctx = context_with(vec![b"ok\r\n"]);
    ctx.set_ip_config(jpe::IpAddrMode::Dhcp, "192.168.10.5", "255.255.255.0", "192.168.10.1")
        .unwrap();
    let expected: Vec<u8> = b"/IPS DHCP 0.0.0.0 0.0.0.0 0.0.0.0\r\n".to_vec();
    assert_eq!(ctx.conn.channel.written, expected);
}

#[test]
fn scan_mode_payload_and_level_bound() {
    let mut ctx = context_with(vec![b"CADM2,CADM2,RSM,OEM2,-,EDM\r\n", b"ok\r\n"]);
    ctx.get_module_list().unwrap();
    assert!(matches!(ctx.enable_scan_mode(Slot::One, 1024), Err(Error::Bound(_))));
    let r = ctx.enable_scan_mode(Slot::One, 512).unwrap();
    assert_eq!(r, "ok");
    let expected: Vec<u8> = b"/MODLIST\r\nSDC 1 512\r\n".to_vec();
    assert_eq!(ctx.conn.channel.written, expected);
    assert_eq!(ctx.op_mode, ControllerOpMode::Basedrive);
}

#[test]
fn servodrive_status_rejects_non_numeric() {
    let mut ctx = context_with(vec![b"CLA2601\r\n", b"ok\r\n", b"1,0,0,0,0,a,0,0\r\n"]);
    ctx.enable_servodrive("CLA2601", 100, "CLA2601", 100, "CLA2601", 100, 293, 10).unwrap();
    let r = ctx.get_servodrive_status();
    match r {
        Err(Error::ParseInt(s)) => assert_eq!(s, "a"),
        other => panic!("expected a parse error, got {:?}", other),
    }
}

#[test]
fn read_excitation_duty_parses() {
    let mut ctx = context_with(vec![b"CADM2,RSM,RSM,OEM2,-,EDM\r\n", b"80\r\n"]);
    ctx.get_module_list().unwrap();
    assert_eq!(ctx.read_excitation_ds(Slot::Two).unwrap(), 80);
}

#[test]
fn position_reads_return_device_text() {
    let mut ctx = context_with(vec![
        b"CADM2,RSM,RSM,OEM2,-,EDM\r\n",
        b"CLA2601\r\n",
        b"0.000123\r\n",
        b"-0.5,0.25,0\r\n",
    ]);
    ctx.get_module_list().unwrap();
    let p = ctx.get_current_position(Slot::Two, jpe::ModuleChannel::One, "CLA2601").unwrap();
    assert_eq!(p, "0.000123");
    let (a, b, c) = ctx
        .get_current_position_all(Slot::Two, "CLA2601", "CLA2601", "CLA2601")
        .unwrap();
    assert_eq!((a.as_str(), b.as_str(), c.as_str()), ("-0.5", "0.25", "0"));
}

#[test]
fn raw_transaction_frames() {
    let mut conn = Connection::new(MockChannel::new(vec![b"a,b\r\n"]));
    let cmd = jpe::codec::Command::new(
        "/VER",
        jpe::config::ModuleScope::Any,
        jpe::config::ModeScope::Any,
        "/VER",
    );
    let f = conn.transact(&cmd).unwrap();
    assert_eq!(f, Frame::CommaDelimited(vec!["a".to_string(), "b".to_string()]));
    assert_eq!(conn.channel.input_clears, 1);
}
