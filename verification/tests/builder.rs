use jpe::builder::BaseContextBuilder;
use jpe::Error;

#[test]
fn serial_path_carries_port_and_default_baud() {
    let b = BaseContextBuilder::new().with_serial("/dev/ttyUSB0");
    let (port, baud) = b.serial_settings().unwrap();
    assert_eq!(port, "/dev/ttyUSB0");
    assert_eq!(baud, 115_200);
}

#[test]
fn serial_baud_override() {
    let b = BaseContextBuilder::new().with_serial("COM15").baud(9600);
    let (port, baud) = b.serial_settings().unwrap();
    assert_eq!(port, "COM15");
    assert_eq!(baud, 9600);
}

#[test]
fn serial_async_path() {
    let b = BaseContextBuilder::new().with_serial_async("/dev/ttyUSB1").baud(230_400);
    let (port, baud) = b.serial_settings().unwrap();
    assert_eq!(port, "/dev/ttyUSB1");
    assert_eq!(baud, 230_400);
}

#[test]
fn network_path_validates_host() {
    let b = BaseContextBuilder::new().with_network("169.254.10.10").unwrap();
    assert_eq!(b.network_host().unwrap(), "169.254.10.10");
    let bad = BaseContextBuilder::new().with_network("169.254.10");
    assert!(matches!(bad, Err(Error::InvalidParams(_))));
    let bad2 = BaseContextBuilder::new().with_network("host.example");
    assert!(matches!(bad2, Err(Error::InvalidParams(_))));
}

#[test]
fn network_async_path_validates_host() {
    let b = BaseContextBuilder::new().with_network_async("192.168.10.5").unwrap();
    assert_eq!(b.network_host().unwrap(), "192.168.10.5");
    assert!(matches!(
        BaseContextBuilder::new().with_network_async("192.168.10.5:2000"),
        Err(Error::InvalidParams(_))
    ));
}
