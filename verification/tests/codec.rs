use jpe::codec::{decode, Command, Frame};
use jpe::config::{ModeScope, ModuleScope};
use jpe::Error;

#[test]
fn command_appends_terminator() {
    let cmd = Command::new("/VER", ModuleScope::Any, ModeScope::Any, "/VER");
    assert_eq!(cmd.payload, "/VER\r\n");
    assert_eq!(cmd.mnemonic, "/VER");
}

#[test]
fn command_keeps_formatted_arguments() {
    let cmd = Command::new("MOV", ModuleScope::Any, ModeScope::Any, "MOV 1 1 600 100 0 293 CLA2601 1");
    assert_eq!(cmd.payload, "MOV 1 1 600 100 0 293 CLA2601 1\r\n");
}

#[test]
fn decode_comma_form() {
    let r = decode(b"v1,v2,v3\r\n").unwrap();
    assert_eq!(
        r,
        Frame::CommaDelimited(vec!["v1".to_string(), "v2".to_string(), "v3".to_string()])
    );
}

#[test]
fn decode_cr_form() {
    let r = decode(b"v1\rv2\rv3\r\n").unwrap();
    assert_eq!(
        r,
        Frame::CrDelimited(vec!["v1".to_string(), "v2".to_string(), "v3".to_string()])
    );
}

#[test]
fn decode_single_value_is_comma_form() {
    let r = decode(b"v8.0.20220221\r\n").unwrap();
    assert_eq!(r, Frame::CommaDelimited(vec!["v8.0.20220221".to_string()]));
}

#[test]
fn decode_one_interior_cr_picks_cr_form() {
    let r = decode(b"a\rb\r\n").unwrap();
    assert_eq!(r, Frame::CrDelimited(vec!["a".to_string(), "b".to_string()]));
}

#[test]
fn decode_error_precedence_over_commas() {
    let r = decode(b"Error bad, worse\r\n").unwrap();
    assert_eq!(r, Frame::Error("Error bad, worse".to_string()));
}

#[test]
fn decode_error_precedence_over_carriage_returns() {
    let r = decode(b"Error a\rb\rc\r\n").unwrap();
    assert_eq!(r, Frame::Error("Error a\rb\rc".to_string()));
}

#[test]
fn decode_missing_terminator() {
    let r = decode(b"v8.0.20220221/");
    assert!(matches!(r, Err(Error::InvalidResponse(_))));
}

#[test]
fn decode_error_without_terminator_is_invalid() {
    let r = decode(b"Error bad");
    assert!(matches!(r, Err(Error::InvalidResponse(_))));
}

#[test]
fn decode_invalid_utf8() {
    let r = decode(b"\xff\xfe\r\n");
    assert!(matches!(r, Err(Error::Utf8)));
}

#[test]
fn decode_empty_body() {
    let r = decode(b"\r\n").unwrap();
    assert_eq!(r, Frame::CommaDelimited(vec!["".to_string()]));
}

#[test]
fn decode_keeps_empty_pieces() {
    let r = decode(b"a,,b\r\n").unwrap();
    assert_eq!(
        r,
        Frame::CommaDelimited(vec!["a".to_string(), "".to_string(), "b".to_string()])
    );
}

#[test]
fn round_trip_comma_values() {
    // Encode a comma response the way the device would echo it, then
    // decode it back.
    let values = ["CADM2", "CADM2", "RSM", "OEM2", "-", "EDM"];
    let mut wire = values.join(",").into_bytes();
    wire.extend_from_slice(b"\r\n");
    let r = decode(&wire).unwrap();
    assert_eq!(
        r,
        Frame::CommaDelimited(values.iter().map(|s| s.to_string()).collect::<Vec<_>>())
    );
}
