use voicepeak::bytes::{push_u32, read_u32};
use voicepeak::text::{contains_char, with_detail};

#[test]
fn numbers_are_little_endian() {
    let mut bytes = vec![9];
    push_u32(&mut bytes, 0x0403_0201);
    push_u32(&mut bytes, u32::MAX);
    assert_eq!(bytes, [9, 1, 2, 3, 4, 255, 255, 255, 255]);
    assert_eq!(read_u32(&bytes, 1), 0x0403_0201);
    assert_eq!(read_u32(&bytes, 5), u32::MAX);
}

#[test]
fn characters_are_found_in_text() {
    assert!(contains_char("雨/声", '/'));
    assert!(contains_char("雨/声", '声'));
    assert!(!contains_char("雨声", '/'));
    assert!(!contains_char("", '/'));
}

#[test]
fn detail_follows_context() {
    assert_eq!(with_detail("read output: ", "denied"), "read output: denied");
}
