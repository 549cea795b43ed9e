use jpe::config::Slot;
use jpe::ipv4::validate_ipv4;
use jpe::numtext::{parse_i64, parse_u32, parse_u64, parse_u8, tenths_to_string, u64_to_string};
use jpe::{Error, Module};

#[test]
fn format_decimal() {
    assert_eq!(u64_to_string(0), "0");
    assert_eq!(u64_to_string(7), "7");
    assert_eq!(u64_to_string(600), "600");
    assert_eq!(u64_to_string(50_000), "50000");
    assert_eq!(u64_to_string(115_200), "115200");
    assert_eq!(u64_to_string(u64::MAX), "18446744073709551615");
}

#[test]
fn format_tenths() {
    assert_eq!(tenths_to_string(1), "0.1");
    assert_eq!(tenths_to_string(10), "1");
    assert_eq!(tenths_to_string(15), "1.5");
    assert_eq!(tenths_to_string(30), "3");
    assert_eq!(tenths_to_string(29), "2.9");
}

#[test]
fn parse_unsigned() {
    assert_eq!(parse_u64("0"), Some(0));
    assert_eq!(parse_u64("007"), Some(7));
    assert_eq!(parse_u64("+42"), Some(42));
    assert_eq!(parse_u64("18446744073709551615"), Some(u64::MAX));
    assert_eq!(parse_u64("18446744073709551616"), None);
    assert_eq!(parse_u64(""), None);
    assert_eq!(parse_u64("+"), None);
    assert_eq!(parse_u64("12a"), None);
    assert_eq!(parse_u64("-1"), None);
    assert_eq!(parse_u64(" 1"), None);
}

#[test]
fn parse_unsigned_narrow() {
    assert_eq!(parse_u8("255"), Some(255));
    assert_eq!(parse_u8("256"), None);
    assert_eq!(parse_u32("4294967295"), Some(u32::MAX));
    assert_eq!(parse_u32("4294967296"), None);
}

#[test]
fn parse_signed() {
    assert_eq!(parse_i64("0"), Some(0));
    assert_eq!(parse_i64("-12"), Some(-12));
    assert_eq!(parse_i64("+12"), Some(12));
    assert_eq!(parse_i64("9223372036854775807"), Some(i64::MAX));
    assert_eq!(parse_i64("-9223372036854775808"), Some(i64::MIN));
    assert_eq!(parse_i64("9223372036854775808"), None);
    assert_eq!(parse_i64("-9223372036854775809"), None);
    assert_eq!(parse_i64("--1"), None);
    assert_eq!(parse_i64("+-1"), None);
    assert_eq!(parse_i64("-"), None);
}

#[test]
fn ipv4_validation() {
    assert!(validate_ipv4("192.168.10.5"));
    assert!(validate_ipv4("0.0.0.0"));
    assert!(validate_ipv4("255.255.255.255"));
    assert!(!validate_ipv4("256.1.1.1"));
    assert!(!validate_ipv4("1.2.3"));
    assert!(!validate_ipv4("1.2.3.4.5"));
    assert!(!validate_ipv4("01.2.3.4"));
    assert!(!validate_ipv4("1.2.3."));
    assert!(!validate_ipv4("a.b.c.d"));
    assert!(!validate_ipv4(""));
}

#[test]
fn slot_conversions() {
    assert_eq!(Slot::One.wire_str(), "1");
    assert_eq!(Slot::Six.wire_str(), "6");
    assert_eq!(Slot::One.index(), 0);
    assert_eq!(Slot::Six.index(), 5);
}

#[test]
fn module_parse_prefix_case_insensitive() {
    assert_eq!(Module::parse("CADM2"), Ok(Module::Cadm));
    assert_eq!(Module::parse("cadm"), Ok(Module::Cadm));
    assert_eq!(Module::parse("CaDm2-x"), Ok(Module::Cadm));
    assert_eq!(Module::parse("RSM"), Ok(Module::Rsm));
    assert_eq!(Module::parse("OEM2"), Ok(Module::Oem));
    assert_eq!(Module::parse("psm123"), Ok(Module::Psm));
    assert_eq!(Module::parse("EDM"), Ok(Module::Edm));
    assert_eq!(Module::parse("-"), Ok(Module::Empty));
}

#[test]
fn module_parse_unknown() {
    assert!(matches!(Module::parse("XYZ"), Err(Error::InvalidResponse(_))));
    assert!(matches!(Module::parse(""), Err(Error::InvalidResponse(_))));
    assert!(matches!(Module::parse("--"), Err(Error::InvalidResponse(_))));
}
