use yewoh::protocol::{
    AnyPacket, ClientVersion, ContextMenu, ContextMenuEntries, ContextMenuEntry, ContextMenuFlags, ExtendedCommand,
    GumpLayout, GumpResult, OpenChatWindow, OpenContainer, OpenGump, OpenGumpCompressed, CompressedGumpLayout,
    Packet, ProtocolError, ScreenSize, SetTime, SkillEntries, SkillEntry, SkillLock, SkillsResponse,
    SkillsResponseKind,
};
use yewoh::vector::IVec2;
use yewoh::EntityId;

fn old_client() -> ClientVersion {
    ClientVersion::new(7, 0, 9, 0)
}

fn new_client() -> ClientVersion {
    ClientVersion::new(7, 0, 10, 0)
}

#[test]
fn set_time_bytes_and_back() {
    let mut out = Vec::new();
    SetTime { hour: 12, minute: 30, second: 5 }.encode(old_client(), true, &mut out).unwrap();
    assert_eq!(out, vec![12, 30, 5]);
    let back = SetTime::decode(old_client(), false, &out).unwrap();
    assert_eq!((back.hour, back.minute, back.second), (12, 30, 5));
}

#[test]
fn short_payload_is_unexpected_eof() {
    assert_eq!(SetTime::decode(old_client(), false, &[1, 2]).err(), Some(ProtocolError::UnexpectedEof));
}

#[test]
fn open_chat_window_is_zeros() {
    let mut out = Vec::new();
    OpenChatWindow.encode(old_client(), true, &mut out).unwrap();
    assert_eq!(out, vec![0u8; 63]);
    assert_eq!(OpenChatWindow::fixed_length(old_client()), Some(64));
}

#[test]
fn open_container_layout_depends_on_version() {
    let p = OpenContainer { id: EntityId::from_u32(0x40000001), gump_id: 0x3c };
    let mut old_bytes = Vec::new();
    p.encode(old_client(), true, &mut old_bytes).unwrap();
    assert_eq!(old_bytes, vec![0x40, 0, 0, 1, 0, 0x3c]);
    let mut new_bytes = Vec::new();
    p.encode(new_client(), true, &mut new_bytes).unwrap();
    assert_eq!(new_bytes, vec![0x40, 0, 0, 1, 0, 0x3c, 0, 0x7d]);
    assert_eq!(OpenContainer::fixed_length(old_client()), Some(7));
    assert_eq!(OpenContainer::fixed_length(new_client()), Some(9));
    let back = OpenContainer::decode(new_client(), false, &new_bytes).unwrap();
    assert_eq!(back.id.as_u32(), 0x40000001);
    assert_eq!(back.gump_id, 0x3c);
}

#[test]
fn open_gump_without_layout_reads_back() {
    let p = OpenGump {
        id: 7,
        type_id: 9,
        position: IVec2::new(-3, 40),
        layout: GumpLayout { layout: String::new(), text: vec!["héllo".to_string(), "𝄞".to_string()] },
    };
    let mut out = Vec::new();
    p.encode(old_client(), true, &mut out).unwrap();
    let back = OpenGump::decode(old_client(), false, &out).unwrap();
    assert_eq!((back.id, back.type_id, back.position.x, back.position.y), (7, 9, -3, 40));
    assert_eq!(back.layout.text, vec!["héllo".to_string(), "𝄞".to_string()]);
}

#[test]
fn open_gump_reads_line_count_where_layout_starts() {
    // The layout "\0\0" is followed by a line count of one and one line, but
    // the count is read from the first two bytes of the layout itself.
    let p = OpenGump {
        id: 1,
        type_id: 2,
        position: IVec2::new(0, 0),
        layout: GumpLayout { layout: "\0\0".to_string(), text: vec!["x".to_string()] },
    };
    let mut out = Vec::new();
    p.encode(old_client(), true, &mut out).unwrap();
    let back = OpenGump::decode(old_client(), false, &out).unwrap();
    assert_eq!(back.layout.layout, "\0\0");
    assert!(back.layout.text.is_empty());
}

#[test]
fn gump_result_reads_back() {
    let p = GumpResult {
        id: 1,
        type_id: 2,
        button_id: 3,
        on_switches: vec![10, 20],
        text_fields: vec!["abc".to_string()],
    };
    let mut out = Vec::new();
    p.encode(old_client(), false, &mut out).unwrap();
    assert_eq!(out.len(), 4 * 4 + 8 + 4 + 2 + 6);
    let back = GumpResult::decode(old_client(), true, &out).unwrap();
    assert_eq!(back.on_switches, vec![10, 20]);
    assert_eq!(back.text_fields, vec!["abc".to_string()]);
    assert_eq!(GumpResult::decode(old_client(), true, &out[..out.len() - 1]).err(), Some(ProtocolError::UnexpectedEof));
}

#[test]
fn open_gump_compressed_reads_back() {
    let p = OpenGumpCompressed {
        id: 5,
        type_id: 6,
        position: IVec2::new(100, 200),
        layout: CompressedGumpLayout { layout_length: 10, layout: vec![1, 2, 3], text_count: 2, text_length: 30, text: vec![9] },
    };
    let mut out = Vec::new();
    p.encode(old_client(), true, &mut out).unwrap();
    assert_eq!(&out[16..20], &[0, 0, 0, 7]);
    let back = OpenGumpCompressed::decode(old_client(), false, &out).unwrap();
    assert_eq!(back.layout.layout, vec![1, 2, 3]);
    assert_eq!((back.layout.layout_length, back.layout.text_count, back.layout.text_length), (10, 2, 30));
    assert_eq!(back.layout.text, vec![9]);
    let mut bad = out.clone();
    bad[19] = 3;
    assert_eq!(OpenGumpCompressed::decode(old_client(), false, &bad).err(), Some(ProtocolError::UnexpectedEof));
}

fn skill(id: u16, cap: u16) -> SkillEntry {
    SkillEntry { id, value: 500, raw_value: 510, lock: SkillLock::Down, cap }
}

#[test]
fn full_skill_list_ends_with_two_zero_bytes() {
    let mut skills = SkillEntries::new();
    skills.push(skill(1, 0));
    skills.push(skill(2, 0));
    let p = SkillsResponse { kind: SkillsResponseKind::Full, skills };
    let mut out = Vec::new();
    p.encode(old_client(), true, &mut out).unwrap();
    assert_eq!(out.len(), 1 + 2 * 7 + 2);
    assert_eq!(&out[out.len() - 2..], &[0, 0]);
    let back = SkillsResponse::decode(old_client(), false, &out).unwrap();
    let got: Vec<(u16, u16, u16)> = back.skills.as_slice().iter().map(|s| (s.id, s.value, s.cap)).collect();
    assert_eq!(got, vec![(1, 500, 0), (2, 500, 0)]);
}

#[test]
fn skill_list_with_caps_reads_caps() {
    let mut skills = SkillEntries::new();
    skills.push(skill(3, 1000));
    let p = SkillsResponse { kind: SkillsResponseKind::FullWithCaps, skills };
    let mut out = Vec::new();
    p.encode(old_client(), true, &mut out).unwrap();
    assert_eq!(out.len(), 1 + 9);
    let back = SkillsResponse::decode(old_client(), false, &out).unwrap();
    assert_eq!(back.skills.as_slice()[0].cap, 1000);
    let mut bad = out.clone();
    bad[7] = 9;
    assert_eq!(SkillsResponse::decode(old_client(), false, &bad).err(), Some(ProtocolError::InvalidValue));
}

#[test]
fn screen_size_command_reads_back() {
    let p = ExtendedCommand::ScreenSize(ScreenSize { width: 800, height: 600 });
    let mut out = Vec::new();
    p.encode(old_client(), false, &mut out).unwrap();
    assert_eq!(out, vec![0, 5, 0, 0, 3, 0x20, 0, 0, 2, 0x58]);
    match ExtendedCommand::decode(old_client(), true, &out).unwrap() {
        ExtendedCommand::ScreenSize(s) => assert_eq!((s.width, s.height), (800, 600)),
        other => panic!("unexpected {:?}", other),
    }
}

fn menu_entries(text_id: u32, hue: Option<u16>) -> ContextMenuEntries {
    let mut entries = ContextMenuEntries::new();
    let flags = if hue.is_some() { ContextMenuFlags::HUE } else { 0 };
    entries.push(ContextMenuEntry { id: 4, text_id, hue, flags: ContextMenuFlags::from_bits_truncate(flags) });
    entries
}

#[test]
fn classic_context_menu_reads_back() {
    let p = ExtendedCommand::ContextMenu(ContextMenu {
        target_id: EntityId::from_u32(9),
        entries: menu_entries(3_000_005, Some(0x22)),
    });
    let mut out = Vec::new();
    p.encode(old_client(), true, &mut out).unwrap();
    match ExtendedCommand::decode(old_client(), false, &out).unwrap() {
        ExtendedCommand::ContextMenu(m) => {
            let e = m.entries.as_slice()[0];
            assert_eq!((e.id, e.text_id, e.hue), (4, 3_000_005, Some(0x22)));
        },
        other => panic!("unexpected {:?}", other),
    }
}

#[test]
fn classic_context_menu_refuses_small_text_ids() {
    let p = ExtendedCommand::ContextMenu(ContextMenu { target_id: EntityId::from_u32(9), entries: menu_entries(5, None) });
    let mut out = vec![1];
    assert_eq!(p.encode(old_client(), true, &mut out).err(), Some(ProtocolError::InvalidValue));
    assert_eq!(out, vec![1, 0, 0x14, 0, 1, 0, 0, 0, 9, 1]);
}

#[test]
fn classic_context_menu_stops_at_the_first_small_text_id() {
    let mut entries = ContextMenuEntries::new();
    entries.push(ContextMenuEntry { id: 4, text_id: 3_000_005, hue: None, flags: ContextMenuFlags::from_bits_truncate(0) });
    entries.push(ContextMenuEntry { id: 6, text_id: 5, hue: None, flags: ContextMenuFlags::from_bits_truncate(0) });
    entries.push(ContextMenuEntry { id: 8, text_id: 3_000_007, hue: None, flags: ContextMenuFlags::from_bits_truncate(0) });
    let p = ExtendedCommand::ContextMenu(ContextMenu { target_id: EntityId::from_u32(9), entries });
    let mut out = Vec::new();
    assert_eq!(p.encode(old_client(), true, &mut out).err(), Some(ProtocolError::InvalidValue));
    assert_eq!(out, vec![0, 0x14, 0, 1, 0, 0, 0, 9, 3, 0, 4, 0, 5, 0, 0]);
}

#[test]
fn enhanced_context_menu_reads_back() {
    let p = ExtendedCommand::ContextMenuEnhanced(ContextMenu {
        target_id: EntityId::from_u32(9),
        entries: menu_entries(1_234_567, None),
    });
    let mut out = Vec::new();
    p.encode(old_client(), true, &mut out).unwrap();
    match ExtendedCommand::decode(old_client(), false, &out).unwrap() {
        ExtendedCommand::ContextMenuEnhanced(m) => assert_eq!(m.entries.as_slice()[0].text_id, 1_234_567),
        other => panic!("unexpected {:?}", other),
    }
}

#[test]
fn unknown_extended_command_is_unsupported() {
    let mut out = Vec::new();
    assert_eq!(ExtendedCommand::Unknown(0x99).encode(old_client(), true, &mut out).err(), Some(ProtocolError::Unsupported));
    match ExtendedCommand::decode(old_client(), true, &[0, 0x99]).unwrap() {
        ExtendedCommand::Unknown(k) => assert_eq!(k, 0x99),
        other => panic!("unexpected {:?}", other),
    }
}

#[test]
fn registration_decodes_by_kind() {
    let reg = AnyPacket::registration_for(0x24).unwrap();
    assert_eq!(reg.fixed_length(old_client()), Some(7));
    let p = reg.decode(old_client(), false, &[0, 0, 0, 5, 0, 6]).unwrap();
    let c = p.downcast_ref::<OpenContainer>().unwrap();
    assert_eq!((c.id.as_u32(), c.gump_id), (5, 6));
    assert!(p.downcast_ref::<SetTime>().is_none());
    assert!(AnyPacket::registration_for(0x01).is_none());
}

#[test]
fn downcast_gives_back_the_packet() {
    let any: AnyPacket = SetTime { hour: 1, minute: 2, second: 3 }.into();
    let any = match any.downcast::<OpenContainer>() {
        Ok(_) => panic!("wrong type"),
        Err(a) => a,
    };
    let mut any = any;
    if let Some(t) = any.downcast_mut::<SetTime>() {
        t.hour = 9;
    }
    let t = any.downcast::<SetTime>().ok().unwrap();
    assert_eq!((t.hour, t.minute, t.second), (9, 2, 3));
}

#[test]
fn fixed_strings_hold_their_text() {
    let s: yewoh::types::FixedString<8> = yewoh::types::FixedString::from_str("abc");
    assert_eq!(s.as_str(), "abc");
    assert_eq!(s.len(), 3);
    assert!(s.eq_text("abc"));
    assert!(!s.eq_text("abd"));
    assert!(!s.eq_text("ab"));
    assert!(yewoh::types::FixedString::<2>::try_from_str("abc").is_err());
}

#[test]
fn fixed_strings_may_hold_nul() {
    let s: yewoh::types::FixedString<8> = yewoh::types::FixedString::from_str("a\0b");
    assert_eq!(s.len(), 3);
    assert_eq!(s.as_str(), "a\0b");
    assert_eq!(s.as_bytes(), b"a\0b");
    assert_eq!(&s.as_byte_array()[3..], &[0u8; 5]);
    assert!(s.eq_text("a\0b"));
}

#[test]
fn entity_ids_order_by_number() {
    assert!(yewoh::EntityId::from_u32(1) < yewoh::EntityId::from_u32(2));
    assert!(yewoh::EntityId::from_u32(0x40000000) > yewoh::EntityId::from_u32(7));
    assert_eq!(yewoh::EntityId::from_u32(5).partial_cmp(&yewoh::EntityId::from_u32(5)), Some(std::cmp::Ordering::Equal));
}
