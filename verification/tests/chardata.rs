use renderer::chardata::{
    append_data, character_data_offset, data_length, decode_utf16_lossy, delete_data,
    encode_utf16, insert_data, replace_data, substring_data,
};
use renderer::exceptions::DomExceptionKind;

#[test]
fn lengths_count_utf16_units() {
    assert_eq!(data_length(""), 0);
    assert_eq!(data_length("abc"), 3);
    assert_eq!(data_length("a\u{1F600}b"), 4);
    assert_eq!(encode_utf16("\u{1F600}"), vec![0xD83D, 0xDE00]);
    assert_eq!(encode_utf16("é"), vec![0xE9]);
}

#[test]
fn lossy_decoding_replaces_lone_surrogates() {
    assert_eq!(decode_utf16_lossy(&[0x61, 0xD83D, 0xDE00]), "a\u{1F600}");
    assert_eq!(decode_utf16_lossy(&[0xD83D, 0x61]), "\u{FFFD}a");
    assert_eq!(decode_utf16_lossy(&[0xDE00]), "\u{FFFD}");
    assert_eq!(decode_utf16_lossy(&[]), "");
}

#[test]
fn offsets_beyond_the_data_are_index_size_errors() {
    assert_eq!(character_data_offset(3, 3), Ok(3));
    assert_eq!(character_data_offset(4, 3), Err(DomExceptionKind::IndexSize));
    assert_eq!(substring_data("abc", 4, 1), Err(DomExceptionKind::IndexSize));
    assert_eq!(insert_data("abc", 9, "x"), Err(DomExceptionKind::IndexSize));
    assert_eq!(delete_data("abc", 4, 0), Err(DomExceptionKind::IndexSize));
    assert_eq!(replace_data("", 1, 0, "x"), Err(DomExceptionKind::IndexSize));
}

#[test]
fn edits_work_on_code_units() {
    assert_eq!(substring_data("hello", 1, 3), Ok("ell".to_string()));
    assert_eq!(substring_data("hello", 3, u32::MAX), Ok("lo".to_string()));
    assert_eq!(substring_data("hello", 5, 2), Ok(String::new()));
    assert_eq!(substring_data("a\u{1F600}b", 1, 1), Ok("\u{FFFD}".to_string()));
    assert_eq!(insert_data("held", 2, "l"), Ok("helld".to_string()));
    assert_eq!(insert_data("ab", 2, "c"), Ok("abc".to_string()));
    assert_eq!(delete_data("hello", 1, 3), Ok("ho".to_string()));
    assert_eq!(delete_data("hello", 2, 100), Ok("he".to_string()));
    assert_eq!(replace_data("hello", 1, 4, "ey"), Ok("hey".to_string()));
    assert_eq!(replace_data("a\u{1F600}b", 2, 1, "x"), Ok("a\u{FFFD}xb".to_string()));
    assert_eq!(append_data("ab", "cd"), "abcd");
}

#[test]
fn insert_then_delete_restores() {
    let inserted = insert_data("hello", 2, "XYZ").expect("insert");
    assert_eq!(delete_data(&inserted, 2, 3), Ok("hello".to_string()));
}
