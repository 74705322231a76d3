use yewoh::protocol::{CompressedGumpLayout, GumpLayout, ProtocolError};

#[test]
fn compressed_layout_inflates_back() {
    let source = GumpLayout {
        layout: "{ page 0 }{ text 10 10 0 0 }".to_string(),
        text: vec!["first".to_string(), "zweite Zeile ü".to_string()],
    };
    let c = CompressedGumpLayout::try_from(source.clone()).unwrap();
    assert_eq!(c.layout_length, source.layout.len());
    assert_eq!(c.text_count, 2);
    assert_eq!(c.text_length, (2 + 2 * 5) + (2 + 2 * 14));
    let back = GumpLayout::try_from(c).unwrap();
    assert_eq!(back.layout, source.layout);
    assert_eq!(back.text, source.text);
}

#[test]
fn damaged_layout_stream_is_invalid() {
    let c = CompressedGumpLayout { layout_length: 3, layout: vec![1, 2, 3], text_count: 0, text_length: 0, text: vec![] };
    assert_eq!(GumpLayout::try_from(c).err(), Some(ProtocolError::InvalidValue));
}

#[test]
fn text_stream_is_not_read_without_lines() {
    let good = CompressedGumpLayout::try_from(GumpLayout { layout: "x".to_string(), text: vec![] }).unwrap();
    let c = CompressedGumpLayout { text: vec![0xde, 0xad], ..good };
    let back = GumpLayout::try_from(c).unwrap();
    assert_eq!(back.layout, "x");
    assert!(back.text.is_empty());
}

#[test]
fn too_few_lines_in_text_stream() {
    let good = CompressedGumpLayout::try_from(GumpLayout { layout: "x".to_string(), text: vec!["a".to_string()] }).unwrap();
    let c = CompressedGumpLayout { text_count: 2, ..good };
    assert_eq!(GumpLayout::try_from(c).err(), Some(ProtocolError::UnexpectedEof));
}
