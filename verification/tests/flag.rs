use ctfd_pwn_college::flag::{flag_from_bytes, generate_flag};

#[test]
fn flag_from_bytes_writes_two_lowercase_digits_per_byte() {
    let mut bytes = [0u8; 32];
    bytes[0] = 0x01;
    bytes[1] = 0xab;
    bytes[2] = 0xf0;
    bytes[31] = 0xff;
    let flag = flag_from_bytes(&bytes);
    let mut expected = String::from("01abf0");
    for _ in 3..31 {
        expected.push_str("00");
    }
    expected.push_str("ff");
    assert_eq!(flag, expected);
}

#[test]
fn generated_flag_is_64_hex_characters() {
    let flag = generate_flag();
    assert_eq!(flag.len(), 64);
    assert!(flag.chars().all(|c| matches!(c, '0'..='9' | 'a'..='f')));
}

#[test]
fn generated_flags_differ() {
    assert_ne!(generate_flag(), generate_flag());
}
