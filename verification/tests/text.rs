use luatools::serial::{describe_port, PortInfo, UsbInfo};
use luatools::text::{decimal_string, hex4_string, parse_u32, parse_u64, str_eq, trim};

#[test]
fn hex_and_decimal() {
    assert_eq!(hex4_string(0x1a86), "1a86");
    assert_eq!(hex4_string(0x7), "0007");
    assert_eq!(hex4_string(0xffff), "ffff");
    assert_eq!(decimal_string(0), "0");
    assert_eq!(decimal_string(2_000_000), "2000000");
    assert_eq!(decimal_string(u64::MAX), u64::MAX.to_string());
}

#[test]
fn parsing_follows_str_parse() {
    for s in ["0", "42", "+7", "0009", "4294967295", "4294967296", "", "+", "-1", "1 ", "x1", "18446744073709551615", "18446744073709551616", "99999999999999999999999"] {
        assert_eq!(parse_u32(s), s.parse::<u32>().ok(), "u32 {s:?}");
        assert_eq!(parse_u64(s), s.parse::<u64>().ok(), "u64 {s:?}");
    }
}

#[test]
fn decimal_text_parses_back() {
    for n in [0u64, 9, 10, 115_200, 2_000_000, u64::MAX] {
        assert_eq!(parse_u64(&decimal_string(n)), Some(n));
    }
}

#[test]
fn trim_follows_str_trim() {
    for s in ["  a b  ", "\t\r\n", "", "x", "\u{a0}y\u{2000}", " \u{200b}z"] {
        assert_eq!(trim(s), s.trim());
    }
}

#[test]
fn string_equality() {
    assert!(str_eq("ports", "ports"));
    assert!(!str_eq("ports", "port"));
    assert!(str_eq("", ""));
}

#[test]
fn usb_port_info_and_listing() {
    let usb = UsbInfo {
        vid: 0x1a86,
        pid: 0x7523,
        manufacturer: Some("wch.cn".to_string()),
        product: Some("USB Serial".to_string()),
        serial_number: None,
    };
    assert_eq!(describe_port("COM3", &Some(usb)), "  COM3  USB VID:1a86 PID:7523 USB Serial");
    let usb = UsbInfo { vid: 1, pid: 2, manufacturer: None, product: None, serial_number: Some("S".to_string()) };
    assert_eq!(describe_port("COM4", &Some(usb)), "  COM4  USB VID:0001 PID:0002 ");
    assert_eq!(describe_port("/dev/ttyS0", &None), "  /dev/ttyS0");
    let usb = UsbInfo {
        vid: 0x1a86,
        pid: 0x7523,
        manufacturer: Some("wch.cn".to_string()),
        product: None,
        serial_number: Some("123".to_string()),
    };
    let p = PortInfo::from_port("COM3".to_string(), Some(usb));
    assert_eq!(p.port_name, "COM3");
    assert_eq!(p.vid.as_deref(), Some("1a86"));
    assert_eq!(p.pid.as_deref(), Some("7523"));
    assert_eq!(p.manufacturer.as_deref(), Some("wch.cn"));
    assert_eq!(p.product, None);
    assert_eq!(p.serial_number.as_deref(), Some("123"));
    let q = PortInfo::from_port("ttyS0".to_string(), None);
    assert!(q.vid.is_none() && q.pid.is_none() && q.manufacturer.is_none());
}
