use whelk::clipboard::{clipboard_decode, clipboard_encode};

#[test]
fn clipboard_text_is_prefixed_base91() {
    assert_eq!(clipboard_encode(b"test"), "welkin:fPNKd");
    assert_eq!(clipboard_encode(b""), "welkin:");
}

#[test]
fn clipboard_text_is_trimmed_and_decoded() {
    assert_eq!(clipboard_decode("  welkin:fPNKd \n"), Some(b"test".to_vec()));
    assert_eq!(clipboard_decode("welkin:"), Some(Vec::new()));
}

#[test]
fn other_text_is_not_a_term() {
    assert_eq!(clipboard_decode("hello"), None);
    assert_eq!(clipboard_decode("welk"), None);
    assert_eq!(clipboard_decode("xwelkin:fPNKd"), None);
}

#[test]
fn clipboard_round_trip() {
    let data = vec![0u8, 1, 2, 254, 255, 128];
    let text = clipboard_encode(&data);
    assert_eq!(clipboard_decode(&text), Some(data));
}

#[test]
fn unicode_white_space_is_trimmed() {
    assert_eq!(clipboard_decode("\u{3000}welkin:fPNKd\u{85}\t"), Some(b"test".to_vec()));
    assert_eq!(clipboard_decode("\u{200b}welkin:fPNKd"), None);
}
