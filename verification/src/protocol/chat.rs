//! Speech, system messages and text commands.

use vstd::prelude::*;
use vstd::utf8::*;

use crate::protocol::format::{
    be_u16, be_u32, concat_map, first_error, first_zero, fits_str_block, lemma_concat_map_fixed,
    lemma_first_error_none, lemma_str_block_len, lemma_valid_utf8_zeros, is_first_zero, lemma_first_zero, str_nul_error, str_nul_text, str_nul_len, no_nul_chars, lemma_str_nul_roundtrip, read_str_fixed, write_str_fixed, fixed_text_valid, lemma_fixed_roundtrip,
    nul2_index, utf16_decode_lossy, be_units, le_units, units_be, units_le, utf16_encode, utf16_pascal_bytes, fits_utf16_pascal,
    lemma_utf16_pascal_roundtrip, lemma_be_u16_roundtrip, lemma_be_u32_roundtrip,
    lemma_i32_u32_cast, lemma_str_block_roundtrip, str_block_bytes, str_block_text, u16_be, u32_be,
    zeros, PacketReadExt, PacketWriteExt, optional_id_field, optional_id_of, write_optional_id,
};
use crate::protocol::{ClientFlags, ClientVersion, Packet, ProtocolError};
use crate::types::FixedString;
use crate::vector::{IVec2, IVec3, UVec3};
use crate::{Direction, EntityId, EntityKind, Notoriety};

verus! {

broadcast use crate::lemma_entity_id_view_injective;

/// What a text command asks for.
#[derive(Debug, Clone, Copy, PartialEq, Eq, Structural, Default)]
pub enum TextCommandKind {
    #[default]
    Go,
    UseSkill,
    CastSpellFromBook,
    UseScroll,
    OpenSpellBook,
    CastSpellFromMacro,
    OpenDoor,
    Animate,
    InvokeVirtues,
}

impl TextCommandKind {
    pub open spec fn spec_from_repr(v: u8) -> Option<TextCommandKind> {
        if v == 0 {
            Some(TextCommandKind::Go)
        } else if v == 0x24 {
            Some(TextCommandKind::UseSkill)
        } else if v == 0x27 {
            Some(TextCommandKind::CastSpellFromBook)
        } else if v == 0x2f {
            Some(TextCommandKind::UseScroll)
        } else if v == 0x43 {
            Some(TextCommandKind::OpenSpellBook)
        } else if v == 0x56 {
            Some(TextCommandKind::CastSpellFromMacro)
        } else if v == 0x58 {
            Some(TextCommandKind::OpenDoor)
        } else if v == 0xc7 {
            Some(TextCommandKind::Animate)
        } else if v == 0xf4 {
            Some(TextCommandKind::InvokeVirtues)
        } else {
            None
        }
    }

    pub open spec fn spec_repr(&self) -> u8 {
        match self {
            TextCommandKind::Go => 0,
            TextCommandKind::UseSkill => 0x24,
            TextCommandKind::CastSpellFromBook => 0x27,
            TextCommandKind::UseScroll => 0x2f,
            TextCommandKind::OpenSpellBook => 0x43,
            TextCommandKind::CastSpellFromMacro => 0x56,
            TextCommandKind::OpenDoor => 0x58,
            TextCommandKind::Animate => 0xc7,
            TextCommandKind::InvokeVirtues => 0xf4,
        }
    }

    /// The value with the given wire representation, if there is one.
    pub fn from_repr(v: u8) -> (r: Option<TextCommandKind>)
        ensures
            r == TextCommandKind::spec_from_repr(v),
    {
        match v {
            0 => Some(TextCommandKind::Go),
            0x24 => Some(TextCommandKind::UseSkill),
            0x27 => Some(TextCommandKind::CastSpellFromBook),
            0x2f => Some(TextCommandKind::UseScroll),
            0x43 => Some(TextCommandKind::OpenSpellBook),
            0x56 => Some(TextCommandKind::CastSpellFromMacro),
            0x58 => Some(TextCommandKind::OpenDoor),
            0xc7 => Some(TextCommandKind::Animate),
            0xf4 => Some(TextCommandKind::InvokeVirtues),
            _ => None,
        }
    }

    /// The wire representation of this value.
    pub fn repr(&self) -> (r: u8)
        ensures
            r == self.spec_repr(),
            TextCommandKind::spec_from_repr(r) == Some(*self),
    {
        match self {
            TextCommandKind::Go => 0,
            TextCommandKind::UseSkill => 0x24,
            TextCommandKind::CastSpellFromBook => 0x27,
            TextCommandKind::UseScroll => 0x2f,
            TextCommandKind::OpenSpellBook => 0x43,
            TextCommandKind::CastSpellFromMacro => 0x56,
            TextCommandKind::OpenDoor => 0x58,
            TextCommandKind::Animate => 0xc7,
            TextCommandKind::InvokeVirtues => 0xf4,
        }
    }
}

/// A command typed by the player.
#[derive(Debug, Clone, Default)]
pub struct TextCommand {
    pub kind: TextCommandKind,
    pub command: String,
}

impl Packet for TextCommand {
    open spec fn spec_packet_kind() -> u8 {
        0x12
    }

    open spec fn spec_fixed_length(client_version: ClientVersion) -> Option<usize> {
        None
    }

    open spec fn wire(&self, client_version: ClientVersion, to_client: bool) -> Seq<u8> {
        seq![self.kind.spec_repr()] + encode_utf8(self.command@) + seq![0u8]
    }

    open spec fn can_encode(&self, client_version: ClientVersion, to_client: bool) -> bool {
        true
    }

    open spec fn decode_error(client_version: ClientVersion, from_client: bool, s: Seq<u8>) -> Option<ProtocolError> {
        if s.len() < 1 {
            Some(ProtocolError::UnexpectedEof)
        } else if TextCommandKind::spec_from_repr(s[0]) is None {
            Some(ProtocolError::InvalidValue)
        } else if s.len() < 1 {
            Some(ProtocolError::UnexpectedEof)
        } else {
            str_nul_error(s.skip(1))
        }
    }

    open spec fn decodes_to(client_version: ClientVersion, from_client: bool, s: Seq<u8>, p: Self) -> bool {
        &&& Some(p.kind) == TextCommandKind::spec_from_repr(s[0])
        &&& str_nul_text(s.skip(1)) == Some(p.command@)
    }

    open spec fn roundtrips(&self, client_version: ClientVersion, to_client: bool) -> bool {
        no_nul_chars(self.command@)
    }

    fn packet_kind() -> (r: u8) {
        0x12
    }

    fn fixed_length(client_version: ClientVersion) -> (r: Option<usize>) {
        None
    }

    fn decode(client_version: ClientVersion, from_client: bool, payload: &[u8]) -> (r: Result<Self, ProtocolError>) {
        let ghost s = payload@;
        let mut payload = payload;
        let kind = match TextCommandKind::from_repr(payload.read_u8()?) {
            Some(v) => v,
            None => return Err(ProtocolError::InvalidValue),
        };
        assert(payload@ =~= s.skip(1));
        let command = payload.read_str_nul()?;
        Ok(TextCommand { kind, command })
    }

    fn encode(&self, client_version: ClientVersion, to_client: bool, writer: &mut Vec<u8>) -> (r: Result<(), ProtocolError>) {
        writer.write_u8(self.kind.repr());
        writer.write_str_nul(self.command.as_str());
        assert(writer@ =~= old(writer)@ + self.wire(client_version, to_client));
        Ok(())
    }

    proof fn lemma_roundtrip(&self, client_version: ClientVersion, to_client: bool) {
        let w = self.wire(client_version, to_client);
        assert(w.subrange(0, 1) =~= seq![self.kind.spec_repr()]);
        lemma_str_nul_roundtrip(self.command@, Seq::<u8>::empty());
        assert(w.skip(1) =~= encode_utf8(self.command@) + seq![0u8] + Seq::<u8>::empty());
    }
}

/// How a message is shown.
#[derive(Debug, Clone, Copy, PartialEq, Eq, Structural, Default)]
pub enum MessageKind {
    #[default]
    Regular,
    System,
    Emote,
    Label,
    Focus,
    Whisper,
    Yell,
    Spell,
    Guild,
    Alliance,
    Command,
}

impl MessageKind {
    pub open spec fn spec_from_repr(v: u8) -> Option<MessageKind> {
        if v == 0 {
            Some(MessageKind::Regular)
        } else if v == 0x1 {
            Some(MessageKind::System)
        } else if v == 0x2 {
            Some(MessageKind::Emote)
        } else if v == 0x6 {
            Some(MessageKind::Label)
        } else if v == 0x7 {
            Some(MessageKind::Focus)
        } else if v == 0x8 {
            Some(MessageKind::Whisper)
        } else if v == 0x9 {
            Some(MessageKind::Yell)
        } else if v == 0xa {
            Some(MessageKind::Spell)
        } else if v == 0xd {
            Some(MessageKind::Guild)
        } else if v == 0xe {
            Some(MessageKind::Alliance)
        } else if v == 0xf {
            Some(MessageKind::Command)
        } else {
            None
        }
    }

    pub open spec fn spec_repr(&self) -> u8 {
        match self {
            MessageKind::Regular => 0,
            MessageKind::System => 0x1,
            MessageKind::Emote => 0x2,
            MessageKind::Label => 0x6,
            MessageKind::Focus => 0x7,
            MessageKind::Whisper => 0x8,
            MessageKind::Yell => 0x9,
            MessageKind::Spell => 0xa,
            MessageKind::Guild => 0xd,
            MessageKind::Alliance => 0xe,
            MessageKind::Command => 0xf,
        }
    }

    /// The value with the given wire representation, if there is one.
    pub fn from_repr(v: u8) -> (r: Option<MessageKind>)
        ensures
            r == MessageKind::spec_from_repr(v),
    {
        match v {
            0 => Some(MessageKind::Regular),
            0x1 => Some(MessageKind::System),
            0x2 => Some(MessageKind::Emote),
            0x6 => Some(MessageKind::Label),
            0x7 => Some(MessageKind::Focus),
            0x8 => Some(MessageKind::Whisper),
            0x9 => Some(MessageKind::Yell),
            0xa => Some(MessageKind::Spell),
            0xd => Some(MessageKind::Guild),
            0xe => Some(MessageKind::Alliance),
            0xf => Some(MessageKind::Command),
            _ => None,
        }
    }

    /// The wire representation of this value.
    pub fn repr(&self) -> (r: u8)
        ensures
            r == self.spec_repr(),
            MessageKind::spec_from_repr(r) == Some(*self),
    {
        match self {
            MessageKind::Regular => 0,
            MessageKind::System => 0x1,
            MessageKind::Emote => 0x2,
            MessageKind::Label => 0x6,
            MessageKind::Focus => 0x7,
            MessageKind::Whisper => 0x8,
            MessageKind::Yell => 0x9,
            MessageKind::Spell => 0xa,
            MessageKind::Guild => 0xd,
            MessageKind::Alliance => 0xe,
            MessageKind::Command => 0xf,
        }
    }
}

/// A message in the single-byte character set.
#[derive(Debug, Clone, Default)]
pub struct AsciiTextMessage {
    pub entity_id: Option<EntityId>,
    pub kind: MessageKind,
    pub text: String,
    pub name: FixedString<30>,
    pub hue: u16,
    pub font: u16,
    pub graphic_id: u16,
}

impl Packet for AsciiTextMessage {
    open spec fn spec_packet_kind() -> u8 {
        0x1c
    }

    open spec fn spec_fixed_length(client_version: ClientVersion) -> Option<usize> {
        None
    }

    open spec fn wire(&self, client_version: ClientVersion, to_client: bool) -> Seq<u8> {
        u32_be(optional_id_field(self.entity_id)) + u16_be(self.graphic_id) + seq![self.kind.spec_repr()] + u16_be(self.hue) + u16_be(self.font) + self.name.spec_contents() + encode_utf8(self.text@) + seq![0u8]
    }

    open spec fn can_encode(&self, client_version: ClientVersion, to_client: bool) -> bool {
        true
    }

    open spec fn decode_error(client_version: ClientVersion, from_client: bool, s: Seq<u8>) -> Option<ProtocolError> {
        if s.len() < 7 {
            Some(ProtocolError::UnexpectedEof)
        } else if MessageKind::spec_from_repr(s[6]) is None {
            Some(ProtocolError::InvalidValue)
        } else if s.len() < 41 {
            Some(ProtocolError::UnexpectedEof)
        } else if !fixed_text_valid(s.subrange(11, 41)) {
            Some(ProtocolError::InvalidUtf8)
        } else if s.len() < 41 {
            Some(ProtocolError::UnexpectedEof)
        } else {
            str_nul_error(s.skip(41))
        }
    }

    open spec fn decodes_to(client_version: ClientVersion, from_client: bool, s: Seq<u8>, p: Self) -> bool {
        &&& p.entity_id == optional_id_of(be_u32(s, 0))
        &&& p.graphic_id == be_u16(s, 4)
        &&& Some(p.kind) == MessageKind::spec_from_repr(s[6])
        &&& p.hue == be_u16(s, 7)
        &&& p.font == be_u16(s, 9)
        &&& p.name.wf() && p.name.spec_bytes() == s.subrange(11, 41).take(first_zero(s.subrange(11, 41)))
        &&& str_nul_text(s.skip(41)) == Some(p.text@)
    }

    open spec fn roundtrips(&self, client_version: ClientVersion, to_client: bool) -> bool {
        self.entity_id != Some(EntityId::spec_from_u32(0xffffffff)) && self.name.wf() && self.name.spec_no_nul() && no_nul_chars(self.text@)
    }

    fn packet_kind() -> (r: u8) {
        0x1c
    }

    fn fixed_length(client_version: ClientVersion) -> (r: Option<usize>) {
        None
    }

    fn decode(client_version: ClientVersion, from_client: bool, payload: &[u8]) -> (r: Result<Self, ProtocolError>) {
        let ghost s = payload@;
        let mut payload = payload;
        let raw_entity_id = payload.read_u32()?;
        let entity_id = if raw_entity_id != 0xffffffff {
            Some(EntityId::from_u32(raw_entity_id))
        } else {
            None
        };
        assert(payload@ =~= s.skip(4));
        let graphic_id = payload.read_u16()?;
        assert(payload@ =~= s.skip(6));
        let kind = match MessageKind::from_repr(payload.read_u8()?) {
            Some(v) => v,
            None => return Err(ProtocolError::InvalidValue),
        };
        assert(payload@ =~= s.skip(7));
        let hue = payload.read_u16()?;
        assert(payload@ =~= s.skip(9));
        let font = payload.read_u16()?;
        assert(payload@ =~= s.skip(11));
        proof {
            if payload@.len() >= 30 {
                assert(payload@.take(30) =~= s.subrange(11, 41));
            }
        }
        let name = read_str_fixed::<30>(&mut payload)?;
        assert(payload@ =~= s.skip(41));
        let text = payload.read_str_nul()?;
        Ok(AsciiTextMessage { entity_id, kind, text, name, hue, font, graphic_id })
    }

    fn encode(&self, client_version: ClientVersion, to_client: bool, writer: &mut Vec<u8>) -> (r: Result<(), ProtocolError>) {
        write_optional_id(writer, self.entity_id);
        writer.write_u16(self.graphic_id);
        writer.write_u8(self.kind.repr());
        writer.write_u16(self.hue);
        writer.write_u16(self.font);
        write_str_fixed(writer, &self.name);
        writer.write_str_nul(self.text.as_str());
        assert(writer@ =~= old(writer)@ + self.wire(client_version, to_client));
        Ok(())
    }

    proof fn lemma_roundtrip(&self, client_version: ClientVersion, to_client: bool) {
        let w = self.wire(client_version, to_client);
        assert(w.subrange(0, 4) =~= u32_be(optional_id_field(self.entity_id)));
        lemma_be_u32_roundtrip(optional_id_field(self.entity_id), w, 0);
        EntityId::lemma_spec_from_u32(0xffffffff);
        if let Some(c) = self.entity_id {
            EntityId::lemma_spec_from_u32(c@);
        }
        assert(w.subrange(4, 6) =~= u16_be(self.graphic_id));
        lemma_be_u16_roundtrip(self.graphic_id, w, 4);
        assert(w.subrange(6, 7) =~= seq![self.kind.spec_repr()]);
        assert(w.subrange(7, 9) =~= u16_be(self.hue));
        lemma_be_u16_roundtrip(self.hue, w, 7);
        assert(w.subrange(9, 11) =~= u16_be(self.font));
        lemma_be_u16_roundtrip(self.font, w, 9);
        lemma_fixed_roundtrip(self.name);
        assert(w.subrange(11, 41) =~= self.name.spec_contents());
        assert(w.subrange(11, 41) == self.name.spec_contents());
        lemma_str_nul_roundtrip(self.text@, Seq::<u8>::empty());
        assert(w.skip(41) =~= encode_utf8(self.text@) + seq![0u8] + Seq::<u8>::empty());
    }
}

/// A message in UTF-16.
#[derive(Debug, Clone, Default)]
pub struct UnicodeTextMessage {
    pub entity_id: Option<EntityId>,
    pub kind: MessageKind,
    pub language: FixedString<4>,
    pub text: String,
    pub name: FixedString<30>,
    pub hue: u16,
    pub font: u16,
    pub graphic_id: u16,
}

impl Packet for UnicodeTextMessage {
    open spec fn spec_packet_kind() -> u8 {
        0xae
    }

    open spec fn spec_fixed_length(client_version: ClientVersion) -> Option<usize> {
        None
    }

    open spec fn wire(&self, client_version: ClientVersion, to_client: bool) -> Seq<u8> {
        u32_be(optional_id_field(self.entity_id)) + u16_be(self.graphic_id) + seq![self.kind.spec_repr()] + u16_be(self.hue) + u16_be(self.font) + self.language.spec_contents() + self.name.spec_contents() + units_be(utf16_encode(self.text@))
    }

    open spec fn can_encode(&self, client_version: ClientVersion, to_client: bool) -> bool {
        true
    }

    open spec fn decode_error(client_version: ClientVersion, from_client: bool, s: Seq<u8>) -> Option<ProtocolError> {
        if s.len() < 7 {
            Some(ProtocolError::UnexpectedEof)
        } else if MessageKind::spec_from_repr(s[6]) is None {
            Some(ProtocolError::InvalidValue)
        } else if s.len() < 15 {
            Some(ProtocolError::UnexpectedEof)
        } else if !fixed_text_valid(s.subrange(11, 15)) {
            Some(ProtocolError::InvalidUtf8)
        } else if s.len() < 45 {
            Some(ProtocolError::UnexpectedEof)
        } else if !fixed_text_valid(s.subrange(15, 45)) {
            Some(ProtocolError::InvalidUtf8)
        } else if s.len() < 45 {
            Some(ProtocolError::UnexpectedEof)
        } else if nul2_index(s.skip(45)) is None {
            Some(ProtocolError::UnexpectedEof)
        } else {
            None
        }
    }

    open spec fn decodes_to(client_version: ClientVersion, from_client: bool, s: Seq<u8>, p: Self) -> bool {
        &&& p.entity_id == optional_id_of(be_u32(s, 0))
        &&& p.graphic_id == be_u16(s, 4)
        &&& Some(p.kind) == MessageKind::spec_from_repr(s[6])
        &&& p.hue == be_u16(s, 7)
        &&& p.font == be_u16(s, 9)
        &&& p.language.wf() && p.language.spec_bytes() == s.subrange(11, 15).take(first_zero(s.subrange(11, 15)))
        &&& p.name.wf() && p.name.spec_bytes() == s.subrange(15, 45).take(first_zero(s.subrange(15, 45)))
        &&& nul2_index(s.skip(45)) matches Some(i) && p.text@ == utf16_decode_lossy(be_units(s.skip(45).take(i)))
    }

    open spec fn roundtrips(&self, client_version: ClientVersion, to_client: bool) -> bool {
        self.entity_id != Some(EntityId::spec_from_u32(0xffffffff)) && self.language.wf() && self.name.wf() && false
    }

    fn packet_kind() -> (r: u8) {
        0xae
    }

    fn fixed_length(client_version: ClientVersion) -> (r: Option<usize>) {
        None
    }

    fn decode(client_version: ClientVersion, from_client: bool, payload: &[u8]) -> (r: Result<Self, ProtocolError>) {
        let ghost s = payload@;
        let mut payload = payload;
        let raw_entity_id = payload.read_u32()?;
        let entity_id = if raw_entity_id != 0xffffffff {
            Some(EntityId::from_u32(raw_entity_id))
        } else {
            None
        };
        assert(payload@ =~= s.skip(4));
        let graphic_id = payload.read_u16()?;
        assert(payload@ =~= s.skip(6));
        let kind = match MessageKind::from_repr(payload.read_u8()?) {
            Some(v) => v,
            None => return Err(ProtocolError::InvalidValue),
        };
        assert(payload@ =~= s.skip(7));
        let hue = payload.read_u16()?;
        assert(payload@ =~= s.skip(9));
        let font = payload.read_u16()?;
        assert(payload@ =~= s.skip(11));
        proof {
            if payload@.len() >= 4 {
                assert(payload@.take(4) =~= s.subrange(11, 15));
            }
        }
        let language = read_str_fixed::<4>(&mut payload)?;
        assert(payload@ =~= s.skip(15));
        proof {
            if payload@.len() >= 30 {
                assert(payload@.take(30) =~= s.subrange(15, 45));
            }
        }
        let name = read_str_fixed::<30>(&mut payload)?;
        assert(payload@ =~= s.skip(45));
        let text = payload.read_utf16_nul()?;
        Ok(UnicodeTextMessage { entity_id, kind, language, text, name, hue, font, graphic_id })
    }

    fn encode(&self, client_version: ClientVersion, to_client: bool, writer: &mut Vec<u8>) -> (r: Result<(), ProtocolError>) {
        write_optional_id(writer, self.entity_id);
        writer.write_u16(self.graphic_id);
        writer.write_u8(self.kind.repr());
        writer.write_u16(self.hue);
        writer.write_u16(self.font);
        write_str_fixed(writer, &self.language);
        write_str_fixed(writer, &self.name);
        writer.write_utf16_nul(self.text.as_str());
        assert(writer@ =~= old(writer)@ + self.wire(client_version, to_client));
        Ok(())
    }

    proof fn lemma_roundtrip(&self, client_version: ClientVersion, to_client: bool) {
        let w = self.wire(client_version, to_client);
        assert(w.subrange(0, 4) =~= u32_be(optional_id_field(self.entity_id)));
        lemma_be_u32_roundtrip(optional_id_field(self.entity_id), w, 0);
        EntityId::lemma_spec_from_u32(0xffffffff);
        if let Some(c) = self.entity_id {
            EntityId::lemma_spec_from_u32(c@);
        }
        assert(w.subrange(4, 6) =~= u16_be(self.graphic_id));
        lemma_be_u16_roundtrip(self.graphic_id, w, 4);
        assert(w.subrange(6, 7) =~= seq![self.kind.spec_repr()]);
        assert(w.subrange(7, 9) =~= u16_be(self.hue));
        lemma_be_u16_roundtrip(self.hue, w, 7);
        assert(w.subrange(9, 11) =~= u16_be(self.font));
        lemma_be_u16_roundtrip(self.font, w, 9);
        lemma_fixed_roundtrip(self.language);
        assert(w.subrange(11, 15) =~= self.language.spec_contents());
        assert(w.subrange(11, 15) == self.language.spec_contents());
        lemma_fixed_roundtrip(self.name);
        assert(w.subrange(15, 45) =~= self.name.spec_contents());
        assert(w.subrange(15, 45) == self.name.spec_contents());
    }
}

/// A message given by number from the client's table of texts.
#[derive(Debug, Clone, Default)]
pub struct LocalisedTextMessage {
    pub entity_id: Option<EntityId>,
    pub graphic_id: u16,
    pub kind: MessageKind,
    pub hue: u16,
    pub font: u16,
    pub name: FixedString<30>,
    pub text_id: u32,
    pub params: String,
}

impl Packet for LocalisedTextMessage {
    open spec fn spec_packet_kind() -> u8 {
        0xc1
    }

    open spec fn spec_fixed_length(client_version: ClientVersion) -> Option<usize> {
        None
    }

    open spec fn wire(&self, client_version: ClientVersion, to_client: bool) -> Seq<u8> {
        u32_be(optional_id_field(self.entity_id)) + u16_be(self.graphic_id) + seq![self.kind.spec_repr()] + u16_be(self.hue) + u16_be(self.font) + u32_be(self.text_id) + self.name.spec_contents() + units_le(utf16_encode(self.params@))
    }

    open spec fn can_encode(&self, client_version: ClientVersion, to_client: bool) -> bool {
        true
    }

    open spec fn decode_error(client_version: ClientVersion, from_client: bool, s: Seq<u8>) -> Option<ProtocolError> {
        if s.len() < 7 {
            Some(ProtocolError::UnexpectedEof)
        } else if MessageKind::spec_from_repr(s[6]) is None {
            Some(ProtocolError::InvalidValue)
        } else if s.len() < 45 {
            Some(ProtocolError::UnexpectedEof)
        } else if !fixed_text_valid(s.subrange(15, 45)) {
            Some(ProtocolError::InvalidUtf8)
        } else if s.len() < 45 {
            Some(ProtocolError::UnexpectedEof)
        } else if nul2_index(s.skip(45)) is None {
            Some(ProtocolError::UnexpectedEof)
        } else {
            None
        }
    }

    open spec fn decodes_to(client_version: ClientVersion, from_client: bool, s: Seq<u8>, p: Self) -> bool {
        &&& p.entity_id == optional_id_of(be_u32(s, 0))
        &&& p.graphic_id == be_u16(s, 4)
        &&& Some(p.kind) == MessageKind::spec_from_repr(s[6])
        &&& p.hue == be_u16(s, 7)
        &&& p.font == be_u16(s, 9)
        &&& p.text_id == be_u32(s, 11)
        &&& p.name.wf() && p.name.spec_bytes() == s.subrange(15, 45).take(first_zero(s.subrange(15, 45)))
        &&& nul2_index(s.skip(45)) matches Some(i) && p.params@ == utf16_decode_lossy(le_units(s.skip(45).take(i)))
    }

    open spec fn roundtrips(&self, client_version: ClientVersion, to_client: bool) -> bool {
        self.entity_id != Some(EntityId::spec_from_u32(0xffffffff)) && self.name.wf() && false
    }

    fn packet_kind() -> (r: u8) {
        0xc1
    }

    fn fixed_length(client_version: ClientVersion) -> (r: Option<usize>) {
        None
    }

    fn decode(client_version: ClientVersion, from_client: bool, payload: &[u8]) -> (r: Result<Self, ProtocolError>) {
        let ghost s = payload@;
        let mut payload = payload;
        let raw_entity_id = payload.read_u32()?;
        let entity_id = if raw_entity_id != 0xffffffff {
            Some(EntityId::from_u32(raw_entity_id))
        } else {
            None
        };
        assert(payload@ =~= s.skip(4));
        let graphic_id = payload.read_u16()?;
        assert(payload@ =~= s.skip(6));
        let kind = match MessageKind::from_repr(payload.read_u8()?) {
            Some(v) => v,
            None => return Err(ProtocolError::InvalidValue),
        };
        assert(payload@ =~= s.skip(7));
        let hue = payload.read_u16()?;
        assert(payload@ =~= s.skip(9));
        let font = payload.read_u16()?;
        assert(payload@ =~= s.skip(11));
        let text_id = payload.read_u32()?;
        assert(payload@ =~= s.skip(15));
        proof {
            if payload@.len() >= 30 {
                assert(payload@.take(30) =~= s.subrange(15, 45));
            }
        }
        let name = read_str_fixed::<30>(&mut payload)?;
        assert(payload@ =~= s.skip(45));
        let params = payload.read_utf16le_nul()?;
        Ok(LocalisedTextMessage { entity_id, graphic_id, kind, name, hue, font, text_id, params })
    }

    fn encode(&self, client_version: ClientVersion, to_client: bool, writer: &mut Vec<u8>) -> (r: Result<(), ProtocolError>) {
        write_optional_id(writer, self.entity_id);
        writer.write_u16(self.graphic_id);
        writer.write_u8(self.kind.repr());
        writer.write_u16(self.hue);
        writer.write_u16(self.font);
        writer.write_u32(self.text_id);
        write_str_fixed(writer, &self.name);
        writer.write_utf16le_nul(self.params.as_str());
        assert(writer@ =~= old(writer)@ + self.wire(client_version, to_client));
        Ok(())
    }

    proof fn lemma_roundtrip(&self, client_version: ClientVersion, to_client: bool) {
        let w = self.wire(client_version, to_client);
        assert(w.subrange(0, 4) =~= u32_be(optional_id_field(self.entity_id)));
        lemma_be_u32_roundtrip(optional_id_field(self.entity_id), w, 0);
        EntityId::lemma_spec_from_u32(0xffffffff);
        if let Some(c) = self.entity_id {
            EntityId::lemma_spec_from_u32(c@);
        }
        assert(w.subrange(4, 6) =~= u16_be(self.graphic_id));
        lemma_be_u16_roundtrip(self.graphic_id, w, 4);
        assert(w.subrange(6, 7) =~= seq![self.kind.spec_repr()]);
        assert(w.subrange(7, 9) =~= u16_be(self.hue));
        lemma_be_u16_roundtrip(self.hue, w, 7);
        assert(w.subrange(9, 11) =~= u16_be(self.font));
        lemma_be_u16_roundtrip(self.font, w, 9);
        assert(w.subrange(11, 15) =~= u32_be(self.text_id));
        lemma_be_u32_roundtrip(self.text_id, w, 11);
        lemma_fixed_roundtrip(self.name);
        assert(w.subrange(15, 45) =~= self.name.spec_contents());
        assert(w.subrange(15, 45) == self.name.spec_contents());
    }
}

/// Speech typed by the player, in the single-byte character set.
#[derive(Debug, Clone, Default)]
pub struct AsciiTextMessageRequest {
    pub kind: MessageKind,
    pub hue: u16,
    pub font: u16,
    pub text: String,
}

impl Packet for AsciiTextMessageRequest {
    open spec fn spec_packet_kind() -> u8 {
        0x03
    }

    open spec fn spec_fixed_length(client_version: ClientVersion) -> Option<usize> {
        None
    }

    open spec fn wire(&self, client_version: ClientVersion, to_client: bool) -> Seq<u8> {
        seq![self.kind.spec_repr()] + u16_be(self.hue) + u16_be(self.font) + encode_utf8(self.text@) + seq![0u8]
    }

    open spec fn can_encode(&self, client_version: ClientVersion, to_client: bool) -> bool {
        true
    }

    open spec fn decode_error(client_version: ClientVersion, from_client: bool, s: Seq<u8>) -> Option<ProtocolError> {
        if s.len() < 1 {
            Some(ProtocolError::UnexpectedEof)
        } else if MessageKind::spec_from_repr(s[0]) is None {
            Some(ProtocolError::InvalidValue)
        } else if s.len() < 5 {
            Some(ProtocolError::UnexpectedEof)
        } else {
            str_nul_error(s.skip(5))
        }
    }

    open spec fn decodes_to(client_version: ClientVersion, from_client: bool, s: Seq<u8>, p: Self) -> bool {
        &&& Some(p.kind) == MessageKind::spec_from_repr(s[0])
        &&& p.hue == be_u16(s, 1)
        &&& p.font == be_u16(s, 3)
        &&& str_nul_text(s.skip(5)) == Some(p.text@)
    }

    open spec fn roundtrips(&self, client_version: ClientVersion, to_client: bool) -> bool {
        no_nul_chars(self.text@)
    }

    fn packet_kind() -> (r: u8) {
        0x03
    }

    fn fixed_length(client_version: ClientVersion) -> (r: Option<usize>) {
        None
    }

    fn decode(client_version: ClientVersion, from_client: bool, payload: &[u8]) -> (r: Result<Self, ProtocolError>) {
        let ghost s = payload@;
        let mut payload = payload;
        let kind = match MessageKind::from_repr(payload.read_u8()?) {
            Some(v) => v,
            None => return Err(ProtocolError::InvalidValue),
        };
        assert(payload@ =~= s.skip(1));
        let hue = payload.read_u16()?;
        assert(payload@ =~= s.skip(3));
        let font = payload.read_u16()?;
        assert(payload@ =~= s.skip(5));
        let text = payload.read_str_nul()?;
        Ok(AsciiTextMessageRequest { kind, hue, font, text })
    }

    fn encode(&self, client_version: ClientVersion, to_client: bool, writer: &mut Vec<u8>) -> (r: Result<(), ProtocolError>) {
        writer.write_u8(self.kind.repr());
        writer.write_u16(self.hue);
        writer.write_u16(self.font);
        writer.write_str_nul(self.text.as_str());
        assert(writer@ =~= old(writer)@ + self.wire(client_version, to_client));
        Ok(())
    }

    proof fn lemma_roundtrip(&self, client_version: ClientVersion, to_client: bool) {
        let w = self.wire(client_version, to_client);
        assert(w.subrange(0, 1) =~= seq![self.kind.spec_repr()]);
        assert(w.subrange(1, 3) =~= u16_be(self.hue));
        lemma_be_u16_roundtrip(self.hue, w, 1);
        assert(w.subrange(3, 5) =~= u16_be(self.font));
        lemma_be_u16_roundtrip(self.font, w, 3);
        lemma_str_nul_roundtrip(self.text@, Seq::<u8>::empty());
        assert(w.skip(5) =~= encode_utf8(self.text@) + seq![0u8] + Seq::<u8>::empty());
    }
}

/// The bits of the kind byte that announce keywords.
pub const HAS_KEYWORDS: u8 = 0xc0;

/// Speech typed by the player, in UTF-16, or in UTF-8 after the ids of the
/// keywords it contains.
#[derive(Debug, Clone, Default)]
pub struct UnicodeTextMessageRequest {
    pub kind: MessageKind,
    pub hue: u16,
    pub font: u16,
    pub language: FixedString<4>,
    pub text: String,
    pub keywords: Vec<u16>,
}

/// Reads `count` keyword ids from `s` at `pos`: the first is the pending
/// `bits` followed by a byte, the next the high twelve bits of a two-byte word
/// whose low four bits are pending for the one after, and so on. Gives the
/// ids and the position after them, or `None` when the bytes run out.
pub open spec fn decode_keywords(s: Seq<u8>, pos: int, count: nat, have_bits: bool, bits: u16) -> Option<
    (Seq<u16>, int),
>
    decreases count,
{
    if count == 0 {
        Some((Seq::empty(), pos))
    } else if have_bits {
        if pos < 0 || pos + 1 > s.len() {
            None
        } else {
            let id = (bits << 8u16) | (s[pos] as u16);
            match decode_keywords(s, pos + 1, (count - 1) as nat, false, bits) {
                Some((rest, end)) => Some((seq![id] + rest, end)),
                None => None,
            }
        }
    } else {
        if pos < 0 || pos + 2 > s.len() {
            None
        } else {
            let word = be_u16(s, pos);
            match decode_keywords(s, pos + 2, (count - 1) as nat, true, word & 0xf) {
                Some((rest, end)) => Some((seq![word >> 4u16] + rest, end)),
                None => None,
            }
        }
    }
}

/// The words written for keyword ids: each id is split over the word that
/// carries what is left of the one before, and a last word carries the rest.
pub open spec fn encode_keywords(keywords: Seq<u16>, to_write: u16, have_bits: bool) -> Seq<u8>
    decreases keywords.len(),
{
    if keywords.len() == 0 {
        u16_be(
            to_write << if have_bits {
                4u16
            } else {
                8u16
            },
        )
    } else {
        let k = keywords[0];
        if have_bits {
            u16_be((to_write << 4u16) | (k & 0xf)) + encode_keywords(keywords.skip(1), k & 0xff, false)
        } else {
            u16_be((to_write << 8u16) | (k & 0xff)) + encode_keywords(keywords.skip(1), k & 0xfff, true)
        }
    }
}

/// The kind byte: the message kind, with the keyword bits when there are keywords.
pub open spec fn unicode_request_kind_byte(kind: MessageKind, has_keywords: bool) -> u8 {
    if has_keywords {
        kind.spec_repr() | HAS_KEYWORDS
    } else {
        kind.spec_repr()
    }
}

impl UnicodeTextMessageRequest {
    /// The keyword ids, and the position after them within `rest`, for the
    /// `rest` of a payload after its fixed fields.
    pub open spec fn keywords_of(rest: Seq<u8>) -> Option<(Seq<u16>, int)> {
        let word = be_u16(rest, 0);
        decode_keywords(rest, 2, (word >> 4u16) as nat, true, word & 0xf)
    }

    fn read_keywords(payload: &mut &[u8]) -> (r: Result<Vec<u16>, ProtocolError>)
        ensures
            ({
                let s = old(payload)@;
                let word = be_u16(s, 0);
                &&& s.len() < 2 ==> r == Err::<Vec<u16>, ProtocolError>(ProtocolError::UnexpectedEof)
                &&& s.len() >= 2 ==> match decode_keywords(s, 2, (word >> 4u16) as nat, true, word & 0xf) {
                    None => r == Err::<Vec<u16>, ProtocolError>(ProtocolError::UnexpectedEof),
                    Some((ids, end)) => r matches Ok(v) && v@ == ids && final(payload)@ == s.skip(end),
                }
            }),
    {
        let ghost s = payload@;
        let word = payload.read_u16()?;
        let count = word >> 4;
        let mut bits = word & 0xf;
        let mut have_bits = true;
        let mut keywords: Vec<u16> = Vec::new();
        let mut i: u16 = 0;
        let ghost target = decode_keywords(s, 2, count as nat, true, word & 0xf);
        proof {
            assert(payload@ =~= s.skip(2));
            assert(keywords@ =~= Seq::<u16>::empty());
            match decode_keywords(s, 2, count as nat, true, word & 0xf) {
                Some((rest, end)) => {
                    assert(keywords@ + rest =~= rest);
                },
                None => {},
            }
        }
        while i < count
            invariant
                i <= count,
                s == old(payload)@,
                s.len() >= 2,
                word == be_u16(s, 0),
                count == word >> 4u16,
                target == decode_keywords(s, 2, count as nat, true, word & 0xf),
                payload@.len() + 2 <= s.len(),
                payload@ == s.skip(s.len() - payload@.len()),
                target == match decode_keywords(
                    s,
                    s.len() - payload@.len(),
                    (count - i) as nat,
                    have_bits,
                    bits,
                ) {
                    Some((rest, end)) => Some((keywords@ + rest, end)),
                    None => None,
                },
            decreases count - i,
        {
            let ghost pos = s.len() - payload@.len();
            let ghost kws0 = keywords@;
            let ghost bits0 = bits;
            let id = if have_bits {
                have_bits = false;
                let b = match payload.read_u8() {
                    Ok(b) => b,
                    Err(e) => {
                        proof {
                            assert(decode_keywords(s, pos, (count - i) as nat, true, bits0) is None);
                        }
                        return Err(e);
                    },
                };
                proof {
                    assert(payload@ =~= s.skip(pos + 1));
                }
                (bits << 8) | (b as u16)
            } else {
                let w = match payload.read_u16() {
                    Ok(w) => w,
                    Err(e) => {
                        proof {
                            assert(decode_keywords(s, pos, (count - i) as nat, false, bits0) is None);
                        }
                        return Err(e);
                    },
                };
                proof {
                    assert(payload@ =~= s.skip(pos + 2));
                }
                bits = w & 0xf;
                have_bits = true;
                w >> 4
            };
            keywords.push(id);
            i += 1;
            proof {
                match decode_keywords(s, s.len() - payload@.len(), (count - i) as nat, have_bits, bits) {
                    Some((rest, end)) => {
                        assert(kws0 + (seq![id] + rest) =~= keywords@ + rest);
                    },
                    None => {},
                }
            }
        }
        proof {
            assert(keywords@ + Seq::<u16>::empty() =~= keywords@);
        }
        Ok(keywords)
    }

    fn write_keywords(writer: &mut Vec<u8>, keywords: &Vec<u16>)
        ensures
            final(writer)@ == old(writer)@ + encode_keywords(keywords@, keywords@.len() as u16, true),
    {
        let mut to_write = keywords.len() as u16;
        let mut have_bits = true;
        let mut i: usize = 0;
        proof {
            assert(keywords@.skip(0) =~= keywords@);
        }
        while i < keywords.len()
            invariant
                i <= keywords.len(),
                old(writer)@ + encode_keywords(keywords@, keywords@.len() as u16, true) == writer@
                    + encode_keywords(keywords@.skip(i as int), to_write, have_bits),
            decreases keywords.len() - i,
        {
            let keyword = keywords[i];
            let ghost before = writer@;
            let ghost rest = keywords@.skip(i as int);
            proof {
                assert(rest.skip(1) =~= keywords@.skip(i + 1));
                assert(rest[0] == keyword);
            }
            if have_bits {
                writer.write_u16((to_write << 4) | (keyword & 0xf));
                to_write = keyword & 0xff;
            } else {
                writer.write_u16((to_write << 8) | (keyword & 0xff));
                to_write = keyword & 0xfff;
            }
            have_bits = !have_bits;
            i += 1;
            proof {
                let w = writer@.skip(before.len() as int);
                assert(writer@ =~= before + w);
                assert(before + (w + encode_keywords(keywords@.skip(i as int), to_write, have_bits)) =~= writer@
                    + encode_keywords(keywords@.skip(i as int), to_write, have_bits));
            }
        }
        writer.write_u16(to_write << if have_bits { 4 } else { 8 });
        proof {
            assert(keywords@.skip(i as int) =~= Seq::<u16>::empty());
        }
    }
}

impl Packet for UnicodeTextMessageRequest {
    open spec fn spec_packet_kind() -> u8 {
        0xad
    }

    open spec fn spec_fixed_length(client_version: ClientVersion) -> Option<usize> {
        None
    }

    open spec fn wire(&self, client_version: ClientVersion, to_client: bool) -> Seq<u8> {
        let has_keywords = self.keywords@.len() > 0;
        seq![unicode_request_kind_byte(self.kind, has_keywords)] + u16_be(self.hue) + u16_be(self.font)
            + self.language.spec_contents() + if has_keywords {
            encode_keywords(self.keywords@, self.keywords@.len() as u16, true) + encode_utf8(self.text@)
                + seq![0u8]
        } else {
            units_be(utf16_encode(self.text@))
        }
    }

    open spec fn can_encode(&self, client_version: ClientVersion, to_client: bool) -> bool {
        true
    }

    open spec fn decode_error(client_version: ClientVersion, from_client: bool, s: Seq<u8>) -> Option<
        ProtocolError,
    > {
        if s.len() < 1 {
            Some(ProtocolError::UnexpectedEof)
        } else if MessageKind::spec_from_repr(s[0] & 0x3f) is None {
            Some(ProtocolError::InvalidValue)
        } else if s.len() < 9 {
            Some(ProtocolError::UnexpectedEof)
        } else if !fixed_text_valid(s.subrange(5, 9)) {
            Some(ProtocolError::InvalidUtf8)
        } else if s[0] & HAS_KEYWORDS != 0 {
            if s.len() < 11 {
                Some(ProtocolError::UnexpectedEof)
            } else {
                match UnicodeTextMessageRequest::keywords_of(s.skip(9)) {
                    None => Some(ProtocolError::UnexpectedEof),
                    Some((_ids, end)) => str_nul_error(s.skip(9).skip(end)),
                }
            }
        } else if nul2_index(s.skip(9)) is None {
            Some(ProtocolError::UnexpectedEof)
        } else {
            None
        }
    }

    open spec fn decodes_to(client_version: ClientVersion, from_client: bool, s: Seq<u8>, p: Self) -> bool {
        &&& Some(p.kind) == MessageKind::spec_from_repr(s[0] & 0x3f)
        &&& p.hue == be_u16(s, 1)
        &&& p.font == be_u16(s, 3)
        &&& p.language.wf()
        &&& p.language.spec_bytes() == s.subrange(5, 9).take(first_zero(s.subrange(5, 9)))
        &&& if s[0] & HAS_KEYWORDS != 0 {
            &&& UnicodeTextMessageRequest::keywords_of(s.skip(9)) matches Some((ids, end))
            &&& p.keywords@ == ids
            &&& str_nul_text(s.skip(9).skip(end)) == Some(p.text@)
        } else {
            &&& p.keywords@.len() == 0
            &&& nul2_index(s.skip(9)) matches Some(i)
            &&& p.text@ == utf16_decode_lossy(be_units(s.skip(9).take(i)))
        }
    }

    /// The text is written without the terminator that reading looks for,
    /// and keyword ids are packed otherwise than they are read.
    open spec fn roundtrips(&self, client_version: ClientVersion, to_client: bool) -> bool {
        false
    }

    fn packet_kind() -> (r: u8) {
        0xad
    }

    fn fixed_length(client_version: ClientVersion) -> (r: Option<usize>) {
        None
    }

    fn decode(client_version: ClientVersion, from_client: bool, payload: &[u8]) -> (r: Result<Self, ProtocolError>) {
        let ghost s = payload@;
        let mut payload = payload;
        let kind_raw = payload.read_u8()?;
        let kind = match MessageKind::from_repr(kind_raw & 0x3f) {
            Some(k) => k,
            None => return Err(ProtocolError::InvalidValue),
        };
        let hue = payload.read_u16()?;
        let font = payload.read_u16()?;
        proof {
            assert(payload@ =~= s.skip(5));
            if payload@.len() >= 4 {
                assert(payload@.take(4) =~= s.subrange(5, 9));
            }
        }
        let language = read_str_fixed::<4>(&mut payload)?;
        proof {
            assert(payload@ =~= s.skip(9));
        }
        let mut keywords: Vec<u16> = Vec::new();
        let text = if kind_raw & HAS_KEYWORDS != 0 {
            keywords = Self::read_keywords(&mut payload)?;
            payload.read_str_nul()?
        } else {
            payload.read_utf16_nul()?
        };
        Ok(UnicodeTextMessageRequest { kind, hue, font, language, text, keywords })
    }

    fn encode(&self, client_version: ClientVersion, to_client: bool, writer: &mut Vec<u8>) -> (r: Result<(), ProtocolError>) {
        let has_keywords = self.keywords.len() > 0;
        let mut raw_kind = self.kind.repr();
        if has_keywords {
            raw_kind = raw_kind | HAS_KEYWORDS;
        }
        writer.write_u8(raw_kind);
        writer.write_u16(self.hue);
        writer.write_u16(self.font);
        write_str_fixed(writer, &self.language);
        if has_keywords {
            Self::write_keywords(writer, &self.keywords);
            writer.write_str_nul(self.text.as_str());
        } else {
            writer.write_utf16_nul(self.text.as_str());
        }
        assert(writer@ =~= old(writer)@ + self.wire(client_version, to_client));
        Ok(())
    }

    proof fn lemma_roundtrip(&self, client_version: ClientVersion, to_client: bool) {
    }
}

} // verus!
