use antiknob::commands::parse_hex_bytes;

#[test]
fn hex_bytes_parse_with_and_without_prefix() {
    assert_eq!(
        parse_hex_bytes(&vec!["FC".to_string(), "0xfc".to_string(), "00".to_string()]).unwrap(),
        vec![0xFC, 0xFC, 0x00]
    );
    assert!(parse_hex_bytes(&vec!["zz".to_string()]).is_err());
    assert!(parse_hex_bytes(&vec!["123".to_string()]).is_err());
}

#[test]
fn a_bad_byte_is_named_and_the_prefix_is_stripped_once() {
    assert_eq!(parse_hex_bytes(&vec!["0x1g".to_string()]).unwrap_err(), "Bad hex byte '1g'");
    assert_eq!(parse_hex_bytes(&vec!["0X0x1".to_string()]).unwrap_err(), "Bad hex byte '0x1'");
    assert_eq!(parse_hex_bytes(&vec!["+7".to_string(), "0XFf".to_string()]).unwrap(), vec![7, 0xFF]);
    assert_eq!(parse_hex_bytes(&vec![]).unwrap(), Vec::<u8>::new());
    assert!(parse_hex_bytes(&vec!["".to_string()]).is_err());
}
