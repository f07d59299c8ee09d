use rplc::comm::serial::{check_path, parse_path, Parity, SerialError};

#[test]
fn serial_descriptor_parses() {
    let p = parse_path("/dev/ttyS0:9600:8:N:1").unwrap();
    assert_eq!(p.port_dev, "/dev/ttyS0");
    assert_eq!(p.baud_rate, 9600);
    assert_eq!(p.char_size, 8);
    assert_eq!(p.parity, Parity::Disabled);
    assert_eq!(p.stop_bits, 1);
    let p = parse_path("/dev/ttyUSB1:115200:7:E:2").unwrap();
    assert_eq!((p.baud_rate, p.char_size, p.parity, p.stop_bits), (115200, 7, Parity::Even, 2));
    assert_eq!(check_path("/dev/ttyS0:19200:5:O:1"), Ok(()));
}

#[test]
fn serial_descriptor_errors() {
    assert_eq!(check_path("/dev/ttyS0"), Err(SerialError::NoBaudRate));
    assert_eq!(check_path("/dev/ttyS0:9600"), Err(SerialError::NoCharSize));
    assert_eq!(check_path("/dev/ttyS0:9600:8"), Err(SerialError::NoParity));
    assert_eq!(check_path("/dev/ttyS0:9600:8:N"), Err(SerialError::NoStopBits));
    assert_eq!(check_path("/dev/ttyS0:9601:8:N:1"), Err(SerialError::BaudRate));
    assert_eq!(check_path("/dev/ttyS0:9600:9:N:1"), Err(SerialError::CharSize));
    assert_eq!(check_path("/dev/ttyS0:9600:8:X:1"), Err(SerialError::Parity));
    assert_eq!(check_path("/dev/ttyS0:9600:8:N:3"), Err(SerialError::StopBits));
}
