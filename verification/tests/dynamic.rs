use whelk::dynamic::{color_to_class, read_frame, write_frame, Color, DynamicKind, DynamicReadError};

#[test]
fn colours_have_classes() {
    assert_eq!(color_to_class(Color::Data), "color-data");
    assert_eq!(color_to_class(Color::Reference), "color-reference");
    assert_eq!(color_to_class(Color::Binding), "color-binding");
    assert_eq!(color_to_class(Color::Hole), "color-hole");
    assert_eq!(color_to_class(Color::Type), "color-type");
}

#[test]
fn an_empty_frame_is_too_short() {
    assert_eq!(read_frame(&[]), Err(DynamicReadError::TooShort));
}

#[test]
fn an_unknown_tag_is_reported() {
    assert_eq!(read_frame(&[7, 1, 2]), Err(DynamicReadError::Unknown(7)));
}

#[test]
fn known_tags_give_kind_and_payload() {
    assert_eq!(read_frame(&[b'D', 1, 2]), Ok((DynamicKind::Def, vec![1, 2])));
    assert_eq!(read_frame(&[b'i']), Ok((DynamicKind::Control, vec![])));
}

#[test]
fn written_frames_read_back() {
    let framed = write_frame(DynamicKind::Control, &[9, 8, 7]);
    assert_eq!(framed, vec![b'i', 9, 8, 7]);
    assert_eq!(read_frame(&framed), Ok((DynamicKind::Control, vec![9, 8, 7])));
    let framed = write_frame(DynamicKind::Def, &[]);
    assert_eq!(read_frame(&framed), Ok((DynamicKind::Def, vec![])));
}
