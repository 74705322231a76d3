use yewoh::protocol::{
    decode_frame, huffman_compress, write_frame, AnyPacket, ClientVersion, Encryption, GumpResult, OpenContainer,
    ProtocolError, SetTime, WriterState,
};
use yewoh::EntityId;

fn cv() -> ClientVersion {
    ClientVersion::new(7, 0, 9, 0)
}

#[test]
fn fixed_frame_is_kind_and_payload() {
    let mut out = Vec::new();
    write_frame(&mut out, cv(), true, &SetTime { hour: 1, minute: 2, second: 3 }).unwrap();
    assert_eq!(out, vec![0x5b, 1, 2, 3]);
}

#[test]
fn variable_frame_carries_its_length() {
    let p = GumpResult { id: 1, type_id: 2, button_id: 3, on_switches: vec![], text_fields: vec![] };
    let mut out = Vec::new();
    write_frame(&mut out, cv(), false, &p).unwrap();
    assert_eq!(out.len(), 23);
    assert_eq!(&out[..3], &[0xb1, 0, 23]);
}

#[test]
fn frame_reads_back_from_a_longer_buffer() {
    let p = OpenContainer { id: EntityId::from_u32(77), gump_id: 3 };
    let mut data = Vec::new();
    write_frame(&mut data, cv(), true, &p).unwrap();
    let n = data.len();
    data.extend_from_slice(&[0xff, 0xee]);
    let (any, used) = decode_frame(cv(), false, &data).unwrap().unwrap();
    assert_eq!(used, n);
    let c = any.downcast::<OpenContainer>().ok().unwrap();
    assert_eq!((c.id.as_u32(), c.gump_id), (77, 3));
}

#[test]
fn frame_needs_all_its_bytes() {
    assert!(decode_frame(cv(), false, &[]).unwrap().is_none());
    assert!(decode_frame(cv(), false, &[0x5b, 1, 2]).unwrap().is_none());
    assert!(decode_frame(cv(), false, &[0xb1, 0]).unwrap().is_none());
    assert!(decode_frame(cv(), false, &[0xb1, 0, 30, 1]).unwrap().is_none());
}

#[test]
fn frame_errors() {
    assert_eq!(decode_frame(cv(), false, &[0x01, 0, 0]).err(), Some(ProtocolError::Unsupported));
    assert_eq!(decode_frame(cv(), false, &[0xb1, 0, 2, 0]).err(), Some(ProtocolError::InvalidValue));
    assert_eq!(decode_frame(cv(), false, &[0xb1, 0, 5, 0, 0]).err(), Some(ProtocolError::UnexpectedEof));
}

#[test]
fn writer_sends_plain_then_compressed() {
    let mut w = WriterState::new(true);
    let p = SetTime { hour: 4, minute: 5, second: 6 };
    assert_eq!(w.send(cv(), &p).unwrap(), vec![0x5b, 4, 5, 6]);
    w.enable_compression();
    let mut expected = Vec::new();
    huffman_compress(&[0x5b, 4, 5, 6], &mut expected);
    assert_eq!(w.send(cv(), &p).unwrap(), expected);
}

#[test]
fn legacy_seed_only_before_anything_else() {
    let mut w = WriterState::new(false);
    assert_eq!(w.send_legacy_seed(0x01020304).unwrap(), vec![1, 2, 3, 4]);
    assert_eq!(w.send_legacy_seed(5).err(), Some(ProtocolError::Unsupported));
    let mut to_client = WriterState::new(true);
    assert_eq!(to_client.send_legacy_seed(5).err(), Some(ProtocolError::Unsupported));
}

#[test]
fn writer_encrypts_what_it_sends() {
    let version = ClientVersion::new(7, 0, 20, 0);
    let mut w = WriterState::new(false);
    w.set_encryption(Encryption::new(version, 0x1234, true));
    let p = SetTime { hour: 4, minute: 5, second: 6 };
    let sent = w.send(version, &AnyPacket::from(p)).unwrap();
    let mut reader = Encryption::new(version, 0x1234, true).unwrap();
    let mut back = sent.clone();
    reader.crypt_client_to_server(&mut back);
    assert_eq!(back, vec![0x5b, 4, 5, 6]);
    assert_ne!(sent, back);
}
