use ephemeral_chat::ids::RoomId;

#[test]
fn parse_canonical_hyphenated() {
    let id = RoomId::parse_text("01234567-89ab-cdef-0123-456789abcdef").unwrap();
    assert_eq!(id.value, 0x0123456789abcdef0123456789abcdefu128);
}

#[test]
fn parse_uppercase_hex() {
    let id = RoomId::parse_text("01234567-89AB-CDEF-0123-456789ABCDEF").unwrap();
    assert_eq!(id.value, 0x0123456789abcdef0123456789abcdefu128);
}

#[test]
fn parse_simple_form() {
    let id = RoomId::parse_text("0123456789abcdef0123456789abcdef").unwrap();
    assert_eq!(id.value, 0x0123456789abcdef0123456789abcdefu128);
}

#[test]
fn parse_rejects_bad_lengths() {
    assert!(RoomId::parse_text("").is_none());
    assert!(RoomId::parse_text("0123").is_none());
    assert!(RoomId::parse_text("01234567-89ab-cdef-0123-456789abcde").is_none());
    assert!(RoomId::parse_text("01234567-89ab-cdef-0123-456789abcdef0").is_none());
}

#[test]
fn parse_rejects_misplaced_hyphens() {
    assert!(RoomId::parse_text("01234567-9ab-cdef-0123-456789abcdeff").is_none());
    assert!(RoomId::parse_text("0123456789ab-cdef-0123-456789abcdef-").is_none());
    assert!(RoomId::parse_text("------------------------------------").is_none());
}

#[test]
fn parse_rejects_non_hex() {
    assert!(RoomId::parse_text("0123456g-89ab-cdef-0123-456789abcdef").is_none());
    assert!(RoomId::parse_text("0123456789abcdef0123456789abcdeg").is_none());
}

#[test]
fn canonical_text_formats_lowercase() {
    let id = RoomId { value: 0x0123456789ABCDEF0123456789ABCDEFu128 };
    assert_eq!(id.canonical_text(), "01234567-89ab-cdef-0123-456789abcdef");
}

#[test]
fn canonical_text_pads_zeroes() {
    let id = RoomId { value: 0x2a };
    assert_eq!(id.canonical_text(), "00000000-0000-0000-0000-00000000002a");
}

#[test]
fn canonical_round_trip() {
    let id = RoomId { value: 0xfeedface0000123400005678deadbeefu128 };
    let text = id.canonical_text();
    let back = RoomId::parse_text(&text).unwrap();
    assert_eq!(back.value, id.value);
}

#[test]
fn fresh_handle_shape() {
    let s = ephemeral_chat::session::Session::joining(RoomId { value: 7 }, 3);
    let handle = s.handle;
    assert_eq!(handle.chars().count(), 20);
    assert!(handle.starts_with("anonymous_"));
    assert!(handle.chars().skip(10).all(|c| c.is_ascii_alphanumeric()));
}

#[test]
fn decimal_text() {
    assert_eq!(ephemeral_chat::text::u64_to_string(0), "0");
    assert_eq!(ephemeral_chat::text::u64_to_string(10), "10");
    assert_eq!(ephemeral_chat::text::u64_to_string(65535), "65535");
    assert_eq!(ephemeral_chat::text::u64_to_string(1234567890), "1234567890");
}
