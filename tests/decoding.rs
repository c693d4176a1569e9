use tray_importer::hex::{parse_hex_u32, parse_hex_u64, push_hex};
use tray_importer::utils::{extract_id_and_type, split_file_name};

#[test]
fn decodes_two_part_stem() {
    let r = extract_id_and_type("0x01!00001234500006789");
    assert_eq!(r, Some((1u32, 0x1234500006789u64)));
}

#[test]
fn decoding_is_repeatable() {
    let a = extract_id_and_type("0x00000003!0x00000012ab34cd56");
    let b = extract_id_and_type("0x00000003!0x00000012ab34cd56");
    assert_eq!(a, b);
    assert_eq!(a, Some((3u32, 0x12ab34cd56u64)));
}

#[test]
fn type_code_without_prefix() {
    assert_eq!(extract_id_and_type("2!0x00000000000000ab"), Some((2u32, 0xabu64)));
    assert_eq!(extract_id_and_type("0xFF!0x00ABCDEF"), Some((0xffu32, 0xabcdefu64)));
}

#[test]
fn missing_separator_fails() {
    assert_eq!(extract_id_and_type("0x0100001234500006789"), None);
    assert_eq!(extract_id_and_type(""), None);
}

#[test]
fn extra_separator_fails() {
    assert_eq!(extract_id_and_type("0x01!0000!1234"), None);
    assert_eq!(extract_id_and_type("!!"), None);
}

#[test]
fn non_hex_parts_fail() {
    assert_eq!(extract_id_and_type("0xzz!00001234"), None);
    assert_eq!(extract_id_and_type("0x01!000012g4"), None);
    assert_eq!(extract_id_and_type("0x!00001234"), None);
    assert_eq!(extract_id_and_type("+1!00001234"), None);
}

#[test]
fn short_identifier_block() {
    assert_eq!(extract_id_and_type("0x01!abc"), None);
    assert_eq!(extract_id_and_type("0x01!abcd"), Some((1u32, 0u64)));
}

#[test]
fn oversized_values_fail() {
    assert_eq!(extract_id_and_type("0x100000000!00001234"), None);
    assert_eq!(extract_id_and_type("0xffffffff!00001234"), Some((0xffff_ffffu32, 0x1234u64)));
    assert_eq!(
        extract_id_and_type("0x1!0000ffffffffffffffff"),
        Some((1u32, u64::MAX))
    );
    assert_eq!(extract_id_and_type("0x1!00001ffffffffffffffff"), None);
}

#[test]
fn hex_parsing() {
    let digits: Vec<char> = "00fF".chars().collect();
    assert_eq!(parse_hex_u64(&digits), Some(255));
    assert_eq!(parse_hex_u32(&digits), Some(255));
    let none: Vec<char> = Vec::new();
    assert_eq!(parse_hex_u64(&none), None);
    let big: Vec<char> = "10000000000000000".chars().collect();
    assert_eq!(parse_hex_u64(&big), None);
    let mid: Vec<char> = "100000000".chars().collect();
    assert_eq!(parse_hex_u64(&mid), Some(0x1_0000_0000));
    assert_eq!(parse_hex_u32(&mid), None);
}

#[test]
fn hex_formatting() {
    let mut s = String::from("id ");
    push_hex(&mut s, 0);
    assert_eq!(s, "id 0");
    let mut s = String::new();
    push_hex(&mut s, 0x1234500006789);
    assert_eq!(s, "1234500006789");
    let mut s = String::new();
    push_hex(&mut s, u64::MAX);
    assert_eq!(s, "ffffffffffffffff");
}

#[test]
fn file_name_splitting() {
    let (stem, ext) = split_file_name("0x1!0x2.trayitem");
    assert_eq!(stem, "0x1!0x2");
    assert_eq!(ext, Some(String::from("trayitem")));
    let (stem, ext) = split_file_name("a.b.sgi");
    assert_eq!(stem, "a.b");
    assert_eq!(ext, Some(String::from("sgi")));
    let (stem, ext) = split_file_name(".hidden");
    assert_eq!(stem, ".hidden");
    assert_eq!(ext, None);
    let (stem, ext) = split_file_name("plain");
    assert_eq!(stem, "plain");
    assert_eq!(ext, None);
    let (stem, ext) = split_file_name("trailing.");
    assert_eq!(stem, "trailing");
    assert_eq!(ext, Some(String::new()));
}
