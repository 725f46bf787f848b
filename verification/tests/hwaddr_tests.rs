use mdns_advertiser::error::ErrorCode;
use mdns_advertiser::hwaddr::parse_hardware_address;

#[test]
fn parses_eight_octets() {
    assert_eq!(
        parse_hardware_address("AA:BB:CC:DD:EE:FF:00:11"),
        Ok([0xAA, 0xBB, 0xCC, 0xDD, 0xEE, 0xFF, 0x00, 0x11])
    );
}

#[test]
fn parses_lower_case_and_mixed_digits() {
    assert_eq!(
        parse_hardware_address("0a:1b:2C:3d:4e:5F:69:70"),
        Ok([0x0a, 0x1b, 0x2c, 0x3d, 0x4e, 0x5f, 0x69, 0x70])
    );
    assert_eq!(parse_hardware_address("00:00:00:00:00:00:00:00"), Ok([0u8; 8]));
    assert_eq!(parse_hardware_address("ff:ff:ff:ff:ff:ff:ff:ff"), Ok([0xffu8; 8]));
}

#[test]
fn rejects_two_octets() {
    assert_eq!(parse_hardware_address("AA:BB"), Err(ErrorCode::InvalidHardwareAddress));
}

#[test]
fn rejects_six_and_nine_octets() {
    assert_eq!(parse_hardware_address("AA:BB:CC:DD:EE:FF"), Err(ErrorCode::InvalidHardwareAddress));
    assert_eq!(
        parse_hardware_address("AA:BB:CC:DD:EE:FF:00:11:22"),
        Err(ErrorCode::InvalidHardwareAddress)
    );
}

#[test]
fn rejects_empty_text() {
    assert_eq!(parse_hardware_address(""), Err(ErrorCode::InvalidHardwareAddress));
}

#[test]
fn rejects_octets_that_are_not_two_hex_digits() {
    assert_eq!(
        parse_hardware_address("AA:BB:CC:DD:EE:FF:00:1G"),
        Err(ErrorCode::InvalidHardwareAddress)
    );
    assert_eq!(
        parse_hardware_address("A:B:C:D:E:F:0:1"),
        Err(ErrorCode::InvalidHardwareAddress)
    );
    assert_eq!(
        parse_hardware_address("AAA:B:CC:DD:EE:FF:00:11"),
        Err(ErrorCode::InvalidHardwareAddress)
    );
    assert_eq!(
        parse_hardware_address("+A:BB:CC:DD:EE:FF:00:11"),
        Err(ErrorCode::InvalidHardwareAddress)
    );
}

#[test]
fn rejects_other_separators_and_stray_colons() {
    assert_eq!(
        parse_hardware_address("AA-BB-CC-DD-EE-FF-00-11"),
        Err(ErrorCode::InvalidHardwareAddress)
    );
    assert_eq!(
        parse_hardware_address("AA:BB:CC:DD:EE:FF:00:11:"),
        Err(ErrorCode::InvalidHardwareAddress)
    );
    assert_eq!(
        parse_hardware_address("AA:BB:CC:DD:EE:FF:00::1"),
        Err(ErrorCode::InvalidHardwareAddress)
    );
}

#[test]
fn rejects_text_outside_ascii() {
    assert_eq!(
        parse_hardware_address("AA:BB:CC:DD:EE:FF:00:1\u{e9}"),
        Err(ErrorCode::InvalidHardwareAddress)
    );
}
