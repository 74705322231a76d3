//! Characters: profiles, skills, combat and animations.

use vstd::prelude::*;
use vstd::utf8::*;

use crate::protocol::format::{
    nul_index, lemma_first_zero_bounds,
    str_from_utf8,
    be_u16, be_u32, concat_map, first_error, first_zero, fits_str_block, lemma_concat_map_fixed,
    lemma_first_error_none, lemma_str_block_len, lemma_valid_utf8_zeros, is_first_zero, lemma_first_zero, str_nul_error, str_nul_text, str_nul_len, no_nul_chars, lemma_str_nul_roundtrip, read_str_fixed, write_str_fixed, fixed_text_valid, lemma_fixed_roundtrip,
    nul2_index, utf16_decode_lossy, be_units, le_units, units_be, units_le, utf16_encode, utf16_pascal_bytes, fits_utf16_pascal,
    lemma_utf16_pascal_roundtrip, lemma_be_u16_roundtrip, lemma_be_u32_roundtrip,
    lemma_i32_u32_cast, lemma_str_block_roundtrip, str_block_bytes, str_block_text, u16_be, u32_be,
    zeros, PacketReadExt, PacketWriteExt, be_u16_at, be_u32_at, optional_id_field, optional_id_of, write_optional_id,
};
use crate::protocol::{ClientFlags, ClientVersion, Packet, ProtocolError};
use crate::types::FixedString;
use crate::vector::{IVec2, IVec3, UVec3};
use crate::{Direction, EntityId, EntityKind, Notoriety};

verus! {

broadcast use crate::lemma_entity_id_view_injective;


/// Asks for a character's profile, or sets the player's own.
#[derive(Debug, Clone)]
pub struct ProfileRequest {
    pub target_id: EntityId,
    pub new_profile: Option<String>,
}

impl Packet for ProfileRequest {
    open spec fn spec_packet_kind() -> u8 {
        0xb8
    }

    open spec fn spec_fixed_length(client_version: ClientVersion) -> Option<usize> {
        None
    }

    open spec fn wire(&self, client_version: ClientVersion, to_client: bool) -> Seq<u8> {
        match self.new_profile {
            Some(text) => seq![1u8] + u32_be(self.target_id@) + u16_be(1) + utf16_pascal_bytes(text@),
            None => seq![0u8] + u32_be(self.target_id@),
        }
    }

    open spec fn can_encode(&self, client_version: ClientVersion, to_client: bool) -> bool {
        true
    }

    open spec fn decode_error(client_version: ClientVersion, from_client: bool, s: Seq<u8>) -> Option<ProtocolError> {
        if s.len() < 5 {
            Some(ProtocolError::UnexpectedEof)
        } else if s[0] == 0 {
            None
        } else if s.len() < 9 || s.len() < 9 + 2 * be_u16(s, 7) {
            Some(ProtocolError::UnexpectedEof)
        } else {
            None
        }
    }

    open spec fn decodes_to(client_version: ClientVersion, from_client: bool, s: Seq<u8>, p: Self) -> bool {
        &&& p.target_id@ == be_u32(s, 1)
        &&& if s[0] == 0 {
            p.new_profile is None
        } else {
            p.new_profile matches Some(text) && text@ == utf16_decode_lossy(
                be_units(s.subrange(9, 9 + 2 * be_u16(s, 7))),
            )
        }
    }

    open spec fn roundtrips(&self, client_version: ClientVersion, to_client: bool) -> bool {
        self.new_profile matches Some(text) ==> fits_utf16_pascal(text@)
    }

    fn packet_kind() -> (r: u8) {
        0xb8
    }

    fn fixed_length(client_version: ClientVersion) -> (r: Option<usize>) {
        None
    }

    fn decode(client_version: ClientVersion, from_client: bool, payload: &[u8]) -> (r: Result<Self, ProtocolError>) {
        let ghost s = payload@;
        let mut payload = payload;
        let is_edit = payload.read_u8()? != 0;
        let target_id = payload.read_entity_id()?;
        assert(payload@ =~= s.skip(5));
        let new_profile = if is_edit {
            payload.skip(2)?;
            assert(payload@ =~= s.skip(7));
            Some(payload.read_utf16_pascal()?)
        } else {
            None
        };
        proof {
            if is_edit {
                assert(s.skip(7).subrange(2, 2 + 2 * be_u16(s.skip(7), 0)) =~= s.subrange(9, 9 + 2 * be_u16(s, 7)));
            }
        }
        Ok(ProfileRequest { target_id, new_profile })
    }

    fn encode(&self, client_version: ClientVersion, to_client: bool, writer: &mut Vec<u8>) -> (r: Result<(), ProtocolError>) {
        writer.write_u8(
            if self.new_profile.is_some() {
                1
            } else {
                0
            },
        );
        writer.write_entity_id(self.target_id);
        match &self.new_profile {
            Some(new_profile) => {
                writer.write_u16(1);
                writer.write_utf16_pascal(new_profile.as_str());
            },
            None => {},
        }
        assert(writer@ =~= old(writer)@ + self.wire(client_version, to_client));
        Ok(())
    }

    proof fn lemma_roundtrip(&self, client_version: ClientVersion, to_client: bool) {
        let w = self.wire(client_version, to_client);
        assert(w.subrange(1, 5) =~= u32_be(self.target_id@));
        lemma_be_u32_roundtrip(self.target_id@, w, 1);
        match self.new_profile {
            Some(text) => {
                lemma_utf16_pascal_roundtrip(text@, Seq::<u8>::empty());
                let t = utf16_pascal_bytes(text@);
                assert(w.skip(7) =~= t + Seq::<u8>::empty());
                assert(be_u16(w, 7) == be_u16(w.skip(7), 0));
                let n = be_u16(w, 7) as int;
                assert(w.subrange(9, 9 + 2 * n) =~= (t + Seq::<u8>::empty()).subrange(2, 2 + 2 * n));
            },
            None => {},
        }
    }
}

/// A character's profile: its title, its fixed text, and the text its player wrote.
#[derive(Debug, Clone)]
pub struct ProfileResponse {
    pub target_id: EntityId,
    pub header: String,
    pub footer: String,
    pub profile: String,
}

impl ProfileResponse {
    /// Where the footer starts in a payload whose header is readable.
    pub open spec fn footer_start(s: Seq<u8>) -> int {
        4 + str_nul_len(s.skip(4))
    }

    /// Where the profile text starts, given that the footer is terminated.
    pub open spec fn profile_start(s: Seq<u8>) -> int {
        let a = ProfileResponse::footer_start(s);
        match nul2_index(s.skip(a)) {
            Some(i) => a + i + 2,
            None => 0,
        }
    }
}

impl Packet for ProfileResponse {
    open spec fn spec_packet_kind() -> u8 {
        0xb8
    }

    open spec fn spec_fixed_length(client_version: ClientVersion) -> Option<usize> {
        None
    }

    open spec fn wire(&self, client_version: ClientVersion, to_client: bool) -> Seq<u8> {
        u32_be(self.target_id@) + encode_utf8(self.header@) + seq![0u8] + units_be(utf16_encode(self.footer@))
            + units_be(utf16_encode(self.profile@))
    }

    open spec fn can_encode(&self, client_version: ClientVersion, to_client: bool) -> bool {
        true
    }

    open spec fn decode_error(client_version: ClientVersion, from_client: bool, s: Seq<u8>) -> Option<ProtocolError> {
        if s.len() < 4 {
            Some(ProtocolError::UnexpectedEof)
        } else if str_nul_error(s.skip(4)) is Some {
            str_nul_error(s.skip(4))
        } else if nul2_index(s.skip(ProfileResponse::footer_start(s))) is None {
            Some(ProtocolError::UnexpectedEof)
        } else if nul2_index(s.skip(ProfileResponse::profile_start(s))) is None {
            Some(ProtocolError::UnexpectedEof)
        } else {
            None
        }
    }

    open spec fn decodes_to(client_version: ClientVersion, from_client: bool, s: Seq<u8>, p: Self) -> bool {
        let a = ProfileResponse::footer_start(s);
        let b = ProfileResponse::profile_start(s);
        &&& p.target_id@ == be_u32(s, 0)
        &&& str_nul_text(s.skip(4)) == Some(p.header@)
        &&& nul2_index(s.skip(a)) matches Some(i) && p.footer@ == utf16_decode_lossy(be_units(s.skip(a).take(i)))
        &&& nul2_index(s.skip(b)) matches Some(j) && p.profile@ == utf16_decode_lossy(be_units(s.skip(b).take(j)))
    }

    /// The two UTF-16 texts are written without the terminators that reading
    /// looks for.
    open spec fn roundtrips(&self, client_version: ClientVersion, to_client: bool) -> bool {
        false
    }

    fn packet_kind() -> (r: u8) {
        0xb8
    }

    fn fixed_length(client_version: ClientVersion) -> (r: Option<usize>) {
        None
    }

    fn decode(client_version: ClientVersion, from_client: bool, payload: &[u8]) -> (r: Result<Self, ProtocolError>) {
        let ghost s = payload@;
        let mut payload = payload;
        let target_id = payload.read_entity_id()?;
        assert(payload@ =~= s.skip(4));
        let header = payload.read_str_nul()?;
        proof {
            let i = nul_index(s.skip(4)).unwrap();
            lemma_first_zero_bounds(s.skip(4));
            assert(payload@ =~= s.skip(4).skip(i + 1));
            assert(payload@ =~= s.skip(ProfileResponse::footer_start(s)));
        }
        let ghost before_footer = payload@;
        let footer = payload.read_utf16_nul()?;
        proof {
            let a = ProfileResponse::footer_start(s);
            let j = nul2_index(s.skip(a)).unwrap();
            assert(payload@ =~= s.skip(a).skip(j + 2));
            assert(payload@ =~= s.skip(ProfileResponse::profile_start(s)));
        }
        let profile = payload.read_utf16_nul()?;
        Ok(ProfileResponse { target_id, header, footer, profile })
    }

    fn encode(&self, client_version: ClientVersion, to_client: bool, writer: &mut Vec<u8>) -> (r: Result<(), ProtocolError>) {
        writer.write_entity_id(self.target_id);
        writer.write_str_nul(self.header.as_str());
        writer.write_utf16_nul(self.footer.as_str());
        writer.write_utf16_nul(self.profile.as_str());
        assert(writer@ =~= old(writer)@ + self.wire(client_version, to_client));
        Ok(())
    }

    proof fn lemma_roundtrip(&self, client_version: ClientVersion, to_client: bool) {
    }
}

/// Which skills a skill list holds, and whether it gives their caps.
#[derive(Debug, Clone, Copy, PartialEq, Eq, Structural)]
pub enum SkillsResponseKind {
    Full,
    FullWithCaps,
    SingleUpdate,
    SingleUpdateWithCap,
}

impl SkillsResponseKind {
    pub open spec fn spec_from_repr(v: u8) -> Option<SkillsResponseKind> {
        if v == 0 {
            Some(SkillsResponseKind::Full)
        } else if v == 2 {
            Some(SkillsResponseKind::FullWithCaps)
        } else if v == 0xff {
            Some(SkillsResponseKind::SingleUpdate)
        } else if v == 0xdf {
            Some(SkillsResponseKind::SingleUpdateWithCap)
        } else {
            None
        }
    }

    pub open spec fn spec_repr(&self) -> u8 {
        match self {
            SkillsResponseKind::Full => 0,
            SkillsResponseKind::FullWithCaps => 2,
            SkillsResponseKind::SingleUpdate => 0xff,
            SkillsResponseKind::SingleUpdateWithCap => 0xdf,
        }
    }

    /// The value with the given wire representation, if there is one.
    pub fn from_repr(v: u8) -> (r: Option<SkillsResponseKind>)
        ensures
            r == SkillsResponseKind::spec_from_repr(v),
    {
        match v {
            0 => Some(SkillsResponseKind::Full),
            2 => Some(SkillsResponseKind::FullWithCaps),
            0xff => Some(SkillsResponseKind::SingleUpdate),
            0xdf => Some(SkillsResponseKind::SingleUpdateWithCap),
            _ => None,
        }
    }

    /// The wire representation of this value.
    pub fn repr(&self) -> (r: u8)
        ensures
            r == self.spec_repr(),
            SkillsResponseKind::spec_from_repr(r) == Some(*self),
    {
        match self {
            SkillsResponseKind::Full => 0,
            SkillsResponseKind::FullWithCaps => 2,
            SkillsResponseKind::SingleUpdate => 0xff,
            SkillsResponseKind::SingleUpdateWithCap => 0xdf,
        }
    }
}

/// Whether a skill may rise, may fall, or stays.
#[derive(Debug, Clone, Copy, PartialEq, Eq, Structural)]
pub enum SkillLock {
    Up,
    Down,
    Locked,
}

impl SkillLock {
    pub open spec fn spec_from_repr(v: u8) -> Option<SkillLock> {
        if v == 0 {
            Some(SkillLock::Up)
        } else if v == 1 {
            Some(SkillLock::Down)
        } else if v == 2 {
            Some(SkillLock::Locked)
        } else {
            None
        }
    }

    pub open spec fn spec_repr(&self) -> u8 {
        match self {
            SkillLock::Up => 0,
            SkillLock::Down => 1,
            SkillLock::Locked => 2,
        }
    }

    /// The value with the given wire representation, if there is one.
    pub fn from_repr(v: u8) -> (r: Option<SkillLock>)
        ensures
            r == SkillLock::spec_from_repr(v),
    {
        match v {
            0 => Some(SkillLock::Up),
            1 => Some(SkillLock::Down),
            2 => Some(SkillLock::Locked),
            _ => None,
        }
    }

    /// The wire representation of this value.
    pub fn repr(&self) -> (r: u8)
        ensures
            r == self.spec_repr(),
            SkillLock::spec_from_repr(r) == Some(*self),
    {
        match self {
            SkillLock::Up => 0,
            SkillLock::Down => 1,
            SkillLock::Locked => 2,
        }
    }
}

/// One skill of a character.
#[derive(Debug, Clone, Copy)]
pub struct SkillEntry {
    pub id: u16,
    pub value: u16,
    pub raw_value: u16,
    pub lock: SkillLock,
    pub cap: u16,
}

/// Sets the lock of one of the player's skills.
#[derive(Debug, Clone)]
pub struct SkillLockRequest {
    pub id: u16,
    pub lock: SkillLock,
}

impl Packet for SkillLockRequest {
    open spec fn spec_packet_kind() -> u8 {
        0x3a
    }

    open spec fn spec_fixed_length(client_version: ClientVersion) -> Option<usize> {
        None
    }

    open spec fn wire(&self, client_version: ClientVersion, to_client: bool) -> Seq<u8> {
        u16_be(self.id) + seq![self.lock.spec_repr()]
    }

    open spec fn can_encode(&self, client_version: ClientVersion, to_client: bool) -> bool {
        true
    }

    open spec fn decode_error(client_version: ClientVersion, from_client: bool, s: Seq<u8>) -> Option<ProtocolError> {
        if s.len() < 3 {
            Some(ProtocolError::UnexpectedEof)
        } else if SkillLock::spec_from_repr(s[2]) is None {
            Some(ProtocolError::InvalidValue)
        } else if s.len() < 3 {
            Some(ProtocolError::UnexpectedEof)
        } else {
            None
        }
    }

    open spec fn decodes_to(client_version: ClientVersion, from_client: bool, s: Seq<u8>, p: Self) -> bool {
        &&& p.id == be_u16(s, 0)
        &&& Some(p.lock) == SkillLock::spec_from_repr(s[2])
    }

    open spec fn roundtrips(&self, client_version: ClientVersion, to_client: bool) -> bool {
        true
    }

    fn packet_kind() -> (r: u8) {
        0x3a
    }

    fn fixed_length(client_version: ClientVersion) -> (r: Option<usize>) {
        None
    }

    fn decode(client_version: ClientVersion, from_client: bool, payload: &[u8]) -> (r: Result<Self, ProtocolError>) {
        let ghost s = payload@;
        let mut payload = payload;
        let id = payload.read_u16()?;
        assert(payload@ =~= s.skip(2));
        let lock = match SkillLock::from_repr(payload.read_u8()?) {
            Some(v) => v,
            None => return Err(ProtocolError::InvalidValue),
        };
        assert(payload@ =~= s.skip(3));
        Ok(SkillLockRequest { id, lock })
    }

    fn encode(&self, client_version: ClientVersion, to_client: bool, writer: &mut Vec<u8>) -> (r: Result<(), ProtocolError>) {
        writer.write_u16(self.id);
        writer.write_u8(self.lock.repr());
        assert(writer@ =~= old(writer)@ + self.wire(client_version, to_client));
        Ok(())
    }

    proof fn lemma_roundtrip(&self, client_version: ClientVersion, to_client: bool) {
        let w = self.wire(client_version, to_client);
        assert(w.subrange(0, 2) =~= u16_be(self.id));
        lemma_be_u16_roundtrip(self.id, w, 0);
        assert(w.subrange(2, 3) =~= seq![self.lock.spec_repr()]);
    }
}

/// Asks to attack a target.
#[derive(Debug, Clone)]
pub struct AttackRequest {
    pub target_id: EntityId,
}

impl Packet for AttackRequest {
    open spec fn spec_packet_kind() -> u8 {
        0x5
    }

    open spec fn spec_fixed_length(client_version: ClientVersion) -> Option<usize> {
        Some(5)
    }

    open spec fn wire(&self, client_version: ClientVersion, to_client: bool) -> Seq<u8> {
        u32_be(self.target_id@)
    }

    open spec fn can_encode(&self, client_version: ClientVersion, to_client: bool) -> bool {
        true
    }

    open spec fn decode_error(client_version: ClientVersion, from_client: bool, s: Seq<u8>) -> Option<ProtocolError> {
        if s.len() < 4 {
            Some(ProtocolError::UnexpectedEof)
        } else {
            None
        }
    }

    open spec fn decodes_to(client_version: ClientVersion, from_client: bool, s: Seq<u8>, p: Self) -> bool {
        &&& p.target_id@ == be_u32(s, 0)
    }

    open spec fn roundtrips(&self, client_version: ClientVersion, to_client: bool) -> bool {
        true
    }

    fn packet_kind() -> (r: u8) {
        0x5
    }

    fn fixed_length(client_version: ClientVersion) -> (r: Option<usize>) {
        Some(5)
    }

    fn decode(client_version: ClientVersion, from_client: bool, payload: &[u8]) -> (r: Result<Self, ProtocolError>) {
        let ghost s = payload@;
        let mut payload = payload;
        let target_id = payload.read_entity_id()?;
        assert(payload@ =~= s.skip(4));
        Ok(AttackRequest { target_id })
    }

    fn encode(&self, client_version: ClientVersion, to_client: bool, writer: &mut Vec<u8>) -> (r: Result<(), ProtocolError>) {
        writer.write_entity_id(self.target_id);
        assert(writer@ =~= old(writer)@ + self.wire(client_version, to_client));
        Ok(())
    }

    proof fn lemma_roundtrip(&self, client_version: ClientVersion, to_client: bool) {
        let w = self.wire(client_version, to_client);
        assert(w.subrange(0, 4) =~= u32_be(self.target_id@));
        lemma_be_u32_roundtrip(self.target_id@, w, 0);
    }
}

/// Sets or clears the player's attack target.
#[derive(Debug, Clone)]
pub struct SetAttackTarget {
    pub target_id: Option<EntityId>,
}

/// The attack target field: zero for none.
pub open spec fn attack_target_field(id: Option<EntityId>) -> u32 {
    match id {
        Some(t) => t@,
        None => 0,
    }
}

/// The attack target a field names.
pub open spec fn attack_target_of(raw: u32) -> Option<EntityId> {
    if raw != 0 {
        Some(EntityId::spec_from_u32(raw))
    } else {
        None
    }
}

impl Packet for SetAttackTarget {
    open spec fn spec_packet_kind() -> u8 {
        0xaa
    }

    open spec fn spec_fixed_length(client_version: ClientVersion) -> Option<usize> {
        Some(5)
    }

    open spec fn wire(&self, client_version: ClientVersion, to_client: bool) -> Seq<u8> {
        u32_be(attack_target_field(self.target_id))
    }

    open spec fn can_encode(&self, client_version: ClientVersion, to_client: bool) -> bool {
        true
    }

    open spec fn decode_error(client_version: ClientVersion, from_client: bool, s: Seq<u8>) -> Option<ProtocolError> {
        if s.len() < 4 {
            Some(ProtocolError::UnexpectedEof)
        } else {
            None
        }
    }

    open spec fn decodes_to(client_version: ClientVersion, from_client: bool, s: Seq<u8>, p: Self) -> bool {
        &&& p.target_id == attack_target_of(be_u32(s, 0))
    }

    open spec fn roundtrips(&self, client_version: ClientVersion, to_client: bool) -> bool {
        self.target_id != Some(EntityId::spec_from_u32(0))
    }

    fn packet_kind() -> (r: u8) {
        0xaa
    }

    fn fixed_length(client_version: ClientVersion) -> (r: Option<usize>) {
        Some(5)
    }

    fn decode(client_version: ClientVersion, from_client: bool, payload: &[u8]) -> (r: Result<Self, ProtocolError>) {
        let ghost s = payload@;
        let mut payload = payload;
        let raw_target_id = payload.read_u32()?;
        let target_id = if raw_target_id != 0 {
            Some(EntityId::from_u32(raw_target_id))
        } else {
            None
        };
        assert(payload@ =~= s.skip(4));
        Ok(SetAttackTarget { target_id })
    }

    fn encode(&self, client_version: ClientVersion, to_client: bool, writer: &mut Vec<u8>) -> (r: Result<(), ProtocolError>) {
        match self.target_id {
            Some(id) => writer.write_entity_id(id),
            None => writer.write_u32(0),
        }
        assert(writer@ =~= old(writer)@ + self.wire(client_version, to_client));
        Ok(())
    }

    proof fn lemma_roundtrip(&self, client_version: ClientVersion, to_client: bool) {
        let w = self.wire(client_version, to_client);
        assert(w.subrange(0, 4) =~= u32_be(attack_target_field(self.target_id)));
        lemma_be_u32_roundtrip(attack_target_field(self.target_id), w, 0);
        EntityId::lemma_spec_from_u32(0);
        if let Some(c) = self.target_id {
            EntityId::lemma_spec_from_u32(c@);
        }
    }
}

/// A swing of a weapon at a target.
#[derive(Debug, Clone)]
pub struct Swing {
    pub attacker_id: EntityId,
    pub target_id: EntityId,
}

impl Packet for Swing {
    open spec fn spec_packet_kind() -> u8 {
        0x2f
    }

    open spec fn spec_fixed_length(client_version: ClientVersion) -> Option<usize> {
        Some(10)
    }

    open spec fn wire(&self, client_version: ClientVersion, to_client: bool) -> Seq<u8> {
        zeros(1) + u32_be(self.attacker_id@) + u32_be(self.target_id@)
    }

    open spec fn can_encode(&self, client_version: ClientVersion, to_client: bool) -> bool {
        true
    }

    open spec fn decode_error(client_version: ClientVersion, from_client: bool, s: Seq<u8>) -> Option<ProtocolError> {
        if s.len() < 9 {
            Some(ProtocolError::UnexpectedEof)
        } else {
            None
        }
    }

    open spec fn decodes_to(client_version: ClientVersion, from_client: bool, s: Seq<u8>, p: Self) -> bool {
        &&& p.attacker_id@ == be_u32(s, 1)
        &&& p.target_id@ == be_u32(s, 5)
    }

    open spec fn roundtrips(&self, client_version: ClientVersion, to_client: bool) -> bool {
        true
    }

    fn packet_kind() -> (r: u8) {
        0x2f
    }

    fn fixed_length(client_version: ClientVersion) -> (r: Option<usize>) {
        Some(10)
    }

    fn decode(client_version: ClientVersion, from_client: bool, payload: &[u8]) -> (r: Result<Self, ProtocolError>) {
        let ghost s = payload@;
        let mut payload = payload;
        payload.skip(1)?;
        assert(payload@ =~= s.skip(1));
        let attacker_id = payload.read_entity_id()?;
        assert(payload@ =~= s.skip(5));
        let target_id = payload.read_entity_id()?;
        assert(payload@ =~= s.skip(9));
        Ok(Swing { attacker_id, target_id })
    }

    fn encode(&self, client_version: ClientVersion, to_client: bool, writer: &mut Vec<u8>) -> (r: Result<(), ProtocolError>) {
        writer.write_zeros(1);
        writer.write_entity_id(self.attacker_id);
        writer.write_entity_id(self.target_id);
        assert(writer@ =~= old(writer)@ + self.wire(client_version, to_client));
        Ok(())
    }

    proof fn lemma_roundtrip(&self, client_version: ClientVersion, to_client: bool) {
        let w = self.wire(client_version, to_client);
        assert(w.subrange(1, 5) =~= u32_be(self.attacker_id@));
        lemma_be_u32_roundtrip(self.attacker_id@, w, 1);
        assert(w.subrange(5, 9) =~= u32_be(self.target_id@));
        lemma_be_u32_roundtrip(self.target_id@, w, 5);
    }
}

/// Plays an animation on a character.
#[derive(Debug, Clone)]
pub struct CharacterAnimation {
    pub target_id: EntityId,
    pub animation_id: u16,
    pub frame_count: u16,
    pub repeat_count: u16,
    pub reverse: bool,
    pub speed: u8,
}

impl Packet for CharacterAnimation {
    open spec fn spec_packet_kind() -> u8 {
        0x6e
    }

    open spec fn spec_fixed_length(client_version: ClientVersion) -> Option<usize> {
        Some(14)
    }

    open spec fn wire(&self, client_version: ClientVersion, to_client: bool) -> Seq<u8> {
        u32_be(self.target_id@) + u16_be(self.animation_id) + u16_be(self.frame_count) + u16_be(self.repeat_count) + seq![if self.reverse { 1u8 } else { 0u8 }] + seq![if self.repeat_count != 1 { 1u8 } else { 0u8 }] + seq![self.speed]
    }

    open spec fn can_encode(&self, client_version: ClientVersion, to_client: bool) -> bool {
        true
    }

    open spec fn decode_error(client_version: ClientVersion, from_client: bool, s: Seq<u8>) -> Option<ProtocolError> {
        if s.len() < 13 {
            Some(ProtocolError::UnexpectedEof)
        } else {
            None
        }
    }

    open spec fn decodes_to(client_version: ClientVersion, from_client: bool, s: Seq<u8>, p: Self) -> bool {
        &&& p.target_id@ == be_u32(s, 0)
        &&& p.animation_id == be_u16(s, 4)
        &&& p.frame_count == be_u16(s, 6)
        &&& p.repeat_count == (if s[11] != 0 { be_u16(s, 8) } else { 1u16 })
        &&& p.reverse == (s[10] != 0)
        &&& p.speed == s[12]
    }

    open spec fn roundtrips(&self, client_version: ClientVersion, to_client: bool) -> bool {
        true
    }

    fn packet_kind() -> (r: u8) {
        0x6e
    }

    fn fixed_length(client_version: ClientVersion) -> (r: Option<usize>) {
        Some(14)
    }

    fn decode(client_version: ClientVersion, from_client: bool, payload: &[u8]) -> (r: Result<Self, ProtocolError>) {
        let ghost s = payload@;
        let mut payload = payload;
        let target_id = payload.read_entity_id()?;
        assert(payload@ =~= s.skip(4));
        let animation_id = payload.read_u16()?;
        assert(payload@ =~= s.skip(6));
        let frame_count = payload.read_u16()?;
        assert(payload@ =~= s.skip(8));
        let raw_repeat_count = payload.read_u16()?;
        let reverse = payload.read_u8()? != 0;
        let repeat_count = if payload.read_u8()? != 0 {
            raw_repeat_count
        } else {
            1
        };
        assert(payload@ =~= s.skip(12));
        let speed = payload.read_u8()?;
        assert(payload@ =~= s.skip(13));
        Ok(CharacterAnimation { target_id, animation_id, frame_count, repeat_count, reverse, speed })
    }

    fn encode(&self, client_version: ClientVersion, to_client: bool, writer: &mut Vec<u8>) -> (r: Result<(), ProtocolError>) {
        writer.write_entity_id(self.target_id);
        writer.write_u16(self.animation_id);
        writer.write_u16(self.frame_count);
        writer.write_u16(self.repeat_count);
        writer.write_u8(if self.reverse { 1 } else { 0 });
        writer.write_u8(if self.repeat_count != 1 { 1 } else { 0 });
        writer.write_u8(self.speed);
        assert(writer@ =~= old(writer)@ + self.wire(client_version, to_client));
        Ok(())
    }

    proof fn lemma_roundtrip(&self, client_version: ClientVersion, to_client: bool) {
        let w = self.wire(client_version, to_client);
        assert(w.subrange(0, 4) =~= u32_be(self.target_id@));
        lemma_be_u32_roundtrip(self.target_id@, w, 0);
        assert(w.subrange(4, 6) =~= u16_be(self.animation_id));
        lemma_be_u16_roundtrip(self.animation_id, w, 4);
        assert(w.subrange(6, 8) =~= u16_be(self.frame_count));
        lemma_be_u16_roundtrip(self.frame_count, w, 6);
        assert(w.subrange(8, 12) =~= u16_be(self.repeat_count) + seq![if self.reverse { 1u8 } else { 0u8 }] + seq![if self.repeat_count != 1 { 1u8 } else { 0u8 }]);
        assert(w.subrange(8, 10) =~= u16_be(self.repeat_count));
        lemma_be_u16_roundtrip(self.repeat_count, w, 8);
        assert(w.subrange(12, 13) =~= seq![self.speed]);
    }
}

/// Plays one of the client's predefined animations on a character.
#[derive(Debug, Clone)]
pub struct CharacterPredefinedAnimation {
    pub target_id: EntityId,
    pub kind: u16,
    pub action: u16,
    pub variant: u8,
}

impl Packet for CharacterPredefinedAnimation {
    open spec fn spec_packet_kind() -> u8 {
        0xe2
    }

    open spec fn spec_fixed_length(client_version: ClientVersion) -> Option<usize> {
        Some(10)
    }

    open spec fn wire(&self, client_version: ClientVersion, to_client: bool) -> Seq<u8> {
        u32_be(self.target_id@) + u16_be(self.kind) + u16_be(self.action) + seq![self.variant]
    }

    open spec fn can_encode(&self, client_version: ClientVersion, to_client: bool) -> bool {
        true
    }

    open spec fn decode_error(client_version: ClientVersion, from_client: bool, s: Seq<u8>) -> Option<ProtocolError> {
        if s.len() < 9 {
            Some(ProtocolError::UnexpectedEof)
        } else {
            None
        }
    }

    open spec fn decodes_to(client_version: ClientVersion, from_client: bool, s: Seq<u8>, p: Self) -> bool {
        &&& p.target_id@ == be_u32(s, 0)
        &&& p.kind == be_u16(s, 4)
        &&& p.action == be_u16(s, 6)
        &&& p.variant == s[8]
    }

    open spec fn roundtrips(&self, client_version: ClientVersion, to_client: bool) -> bool {
        true
    }

    fn packet_kind() -> (r: u8) {
        0xe2
    }

    fn fixed_length(client_version: ClientVersion) -> (r: Option<usize>) {
        Some(10)
    }

    fn decode(client_version: ClientVersion, from_client: bool, payload: &[u8]) -> (r: Result<Self, ProtocolError>) {
        let ghost s = payload@;
        let mut payload = payload;
        let target_id = payload.read_entity_id()?;
        assert(payload@ =~= s.skip(4));
        let kind = payload.read_u16()?;
        assert(payload@ =~= s.skip(6));
        let action = payload.read_u16()?;
        assert(payload@ =~= s.skip(8));
        let variant = payload.read_u8()?;
        assert(payload@ =~= s.skip(9));
        Ok(CharacterPredefinedAnimation { target_id, kind, action, variant })
    }

    fn encode(&self, client_version: ClientVersion, to_client: bool, writer: &mut Vec<u8>) -> (r: Result<(), ProtocolError>) {
        writer.write_entity_id(self.target_id);
        writer.write_u16(self.kind);
        writer.write_u16(self.action);
        writer.write_u8(self.variant);
        assert(writer@ =~= old(writer)@ + self.wire(client_version, to_client));
        Ok(())
    }

    proof fn lemma_roundtrip(&self, client_version: ClientVersion, to_client: bool) {
        let w = self.wire(client_version, to_client);
        assert(w.subrange(0, 4) =~= u32_be(self.target_id@));
        lemma_be_u32_roundtrip(self.target_id@, w, 0);
        assert(w.subrange(4, 6) =~= u16_be(self.kind));
        lemma_be_u16_roundtrip(self.kind, w, 4);
        assert(w.subrange(6, 8) =~= u16_be(self.action));
        lemma_be_u16_roundtrip(self.action, w, 6);
        assert(w.subrange(8, 9) =~= seq![self.variant]);
    }
}

/// The skills of a skill list, held inline up to sixty-four entries.
#[verifier::external_body]
#[derive(Debug)]
pub struct SkillEntries {
    inner: smallvec::SmallVec<[SkillEntry; 64]>,
}

/// What a skill list holds, in order.
pub uninterp spec fn skill_items(v: SkillEntries) -> Seq<SkillEntry>;

/// An empty list: `smallvec::SmallVec::new`.
#[verifier::external_body]
fn skill_items_new() -> (r: SkillEntries)
    ensures
        skill_items(r) == Seq::<SkillEntry>::empty(),
{
    SkillEntries { inner: smallvec::SmallVec::new() }
}

/// Appends an entry at the end: `smallvec::SmallVec::push`, which panics
/// only when the doubled capacity would overflow.
#[verifier::external_body]
fn skill_items_push(v: &mut SkillEntries, e: SkillEntry)
    requires
        skill_items(*old(v)).len() <= usize::MAX / 2,
    ensures
        skill_items(*final(v)) == skill_items(*old(v)).push(e),
{
    v.inner.push(e)
}

/// The entries, in order: `smallvec::SmallVec::as_slice`. A slice spans at
/// most `isize::MAX` bytes and an entry takes more than two, so there are
/// fewer than `usize::MAX / 2` of them.
#[verifier::external_body]
fn skill_items_slice(v: &SkillEntries) -> (r: &[SkillEntry])
    ensures
        r@ == skill_items(*v),
        r@.len() <= usize::MAX / 2,
{
    v.inner.as_slice()
}

impl Clone for SkillEntries {
    /// A list with the same entries.
    fn clone(&self) -> (r: Self)
        ensures
            skill_items(r) == skill_items(*self),
    {
        let items = skill_items_slice(self);
        let mut out = skill_items_new();
        let mut i: usize = 0;
        while i < items.len()
            invariant
                i <= items@.len() <= usize::MAX / 2,
                skill_items(out) == items@.take(i as int),
            decreases items@.len() - i,
        {
            skill_items_push(&mut out, items[i]);
            i += 1;
            assert(skill_items(out) =~= items@.take(i as int));
        }
        assert(items@.take(items@.len() as int) =~= items@);
        out
    }
}

impl SkillEntries {
    /// An empty list.
    pub fn new() -> (r: Self)
        ensures
            skill_items(r) == Seq::<SkillEntry>::empty(),
    {
        skill_items_new()
    }

    /// Appends an entry at the end.
    pub fn push(&mut self, e: SkillEntry)
        requires
            skill_items(*old(self)).len() <= usize::MAX / 2,
        ensures
            skill_items(*final(self)) == skill_items(*old(self)).push(e),
    {
        skill_items_push(self, e)
    }

    /// The entries, in order.
    pub fn as_slice(&self) -> (r: &[SkillEntry])
        ensures
            r@ == skill_items(*self),
    {
        skill_items_slice(self)
    }
}

/// A character's skills, all of them or one that changed.
#[derive(Debug, Clone)]
pub struct SkillsResponse {
    pub kind: SkillsResponseKind,
    pub skills: SkillEntries,
}

/// Whether entries of this kind carry the skill's cap.
pub open spec fn skills_with_caps(kind: SkillsResponseKind) -> bool {
    kind == SkillsResponseKind::FullWithCaps || kind == SkillsResponseKind::SingleUpdateWithCap
}

/// The byte length of one entry.
pub open spec fn skill_entry_size(caps: bool) -> int {
    if caps {
        9
    } else {
        7
    }
}

/// The bytes of one entry; the cap only when entries carry it.
pub open spec fn skill_entry_wire(e: SkillEntry, caps: bool) -> Seq<u8> {
    u16_be(e.id) + u16_be(e.value) + u16_be(e.raw_value) + seq![e.lock.spec_repr()] + if caps {
        u16_be(e.cap)
    } else {
        Seq::empty()
    }
}

/// `r` with `done` put in front of its entries.
pub open spec fn after_entries(
    done: Seq<SkillEntry>,
    r: Result<(Seq<SkillEntry>, int), ProtocolError>,
) -> Result<(Seq<SkillEntry>, int), ProtocolError> {
    match r {
        Ok((es, end)) => Ok((done + es, end)),
        Err(e) => Err(e),
    }
}

/// Reads entries from `pos` while more than two bytes remain: the entries
/// and the position where reading stopped, or the error. An entry without
/// its cap gets cap 0.
pub open spec fn skill_entries_of(s: Seq<u8>, pos: int, caps: bool) -> Result<(Seq<SkillEntry>, int), ProtocolError>
    decreases s.len() - pos,
{
    if pos < 0 || s.len() - pos <= 2 {
        Ok((Seq::empty(), pos))
    } else if s.len() < pos + 7 {
        Err(ProtocolError::UnexpectedEof)
    } else if SkillLock::spec_from_repr(s[pos + 6]) is None {
        Err(ProtocolError::InvalidValue)
    } else if caps && s.len() < pos + 9 {
        Err(ProtocolError::UnexpectedEof)
    } else {
        let e = SkillEntry {
            id: be_u16(s, pos),
            value: be_u16(s, pos + 2),
            raw_value: be_u16(s, pos + 4),
            lock: SkillLock::spec_from_repr(s[pos + 6]).unwrap(),
            cap: if caps {
                be_u16(s, pos + 7)
            } else {
                0
            },
        };
        after_entries(seq![e], skill_entries_of(s, pos + skill_entry_size(caps), caps))
    }
}

/// Entries written one after the other read back as themselves, up to the
/// end of their bytes, when at most two bytes follow them.
proof fn lemma_skill_entries_roundtrip(es: Seq<SkillEntry>, caps: bool, s: Seq<u8>, pos: int, k: nat)
    requires
        0 <= pos,
        k <= es.len(),
        s.len() >= pos + skill_entry_size(caps) * es.len(),
        s.len() <= pos + skill_entry_size(caps) * es.len() + 2,
        s.subrange(pos, pos + skill_entry_size(caps) * es.len()) == concat_map(
            es,
            |e: SkillEntry| skill_entry_wire(e, caps),
        ),
        !caps ==> forall|i: int| 0 <= i < es.len() ==> (#[trigger] es[i]).cap == 0,
    ensures
        skill_entries_of(s, pos + skill_entry_size(caps) * k, caps) == Ok::<(Seq<SkillEntry>, int), ProtocolError>(
            (es.skip(k as int), pos + skill_entry_size(caps) * es.len()),
        ),
    decreases es.len() - k,
{
    let m = skill_entry_size(caps);
    let n = es.len() as int;
    let f = |e: SkillEntry| skill_entry_wire(e, caps);
    let at = pos + m * k;
    if k == es.len() {
        assert(es.skip(k as int) =~= Seq::<SkillEntry>::empty());
    } else {
        assert(m * k + m <= m * n) by (nonlinear_arith)
            requires
                k < n,
                m == 7 || m == 9,
        ;
        assert(at + m == pos + m * (k + 1)) by (nonlinear_arith)
            requires
                at == pos + m * k,
        ;
        assert(0 <= m * k) by (nonlinear_arith)
            requires
                0 <= k,
                m == 7 || m == 9,
        ;
        lemma_skill_entries_roundtrip(es, caps, s, pos, k + 1);
        assert forall|i: int| 0 <= i < es.len() implies #[trigger] f(es[i]).len() == m by {}
        lemma_concat_map_fixed(es, f, m as nat);
        let e = es[k as int];
        let w = concat_map(es, f);
        assert(w.subrange(m * k, m * k + m) == f(e));
        assert(s.subrange(at, at + m) =~= f(e));
        let fe = f(e);
        assert(fe.subrange(0, 2) =~= u16_be(e.id));
        assert(fe.subrange(2, 4) =~= u16_be(e.value));
        assert(fe.subrange(4, 6) =~= u16_be(e.raw_value));
        assert(s.subrange(at, at + 2) =~= fe.subrange(0, 2));
        assert(s.subrange(at + 2, at + 4) =~= fe.subrange(2, 4));
        assert(s.subrange(at + 4, at + 6) =~= fe.subrange(4, 6));
        assert(s.subrange(at, at + 2) =~= u16_be(e.id));
        lemma_be_u16_roundtrip(e.id, s, at);
        assert(s.subrange(at + 2, at + 4) =~= u16_be(e.value));
        lemma_be_u16_roundtrip(e.value, s, at + 2);
        assert(s.subrange(at + 4, at + 6) =~= u16_be(e.raw_value));
        lemma_be_u16_roundtrip(e.raw_value, s, at + 4);
        assert(fe[6] == e.lock.spec_repr());
        assert(s[at + 6] == s.subrange(at, at + m)[6]);
        assert(s[at + 6] == e.lock.spec_repr());
        if caps {
            assert(fe.subrange(7, 9) =~= u16_be(e.cap));
            assert(s.subrange(at + 7, at + 9) =~= fe.subrange(7, 9));
            lemma_be_u16_roundtrip(e.cap, s, at + 7);
        }
        assert(seq![e] + es.skip((k + 1) as int) =~= es.skip(k as int));
    }
}

impl Packet for SkillsResponse {
    open spec fn spec_packet_kind() -> u8 {
        0x3a
    }

    open spec fn spec_fixed_length(client_version: ClientVersion) -> Option<usize> {
        None
    }

    /// A full list without caps ends with two zero bytes.
    open spec fn wire(&self, client_version: ClientVersion, to_client: bool) -> Seq<u8> {
        seq![self.kind.spec_repr()] + concat_map(
            skill_items(self.skills),
            |e: SkillEntry| skill_entry_wire(e, skills_with_caps(self.kind)),
        ) + if self.kind == SkillsResponseKind::Full {
            u16_be(0)
        } else {
            Seq::empty()
        }
    }

    open spec fn can_encode(&self, client_version: ClientVersion, to_client: bool) -> bool {
        true
    }

    open spec fn decode_error(client_version: ClientVersion, from_client: bool, s: Seq<u8>) -> Option<ProtocolError> {
        if s.len() < 1 {
            Some(ProtocolError::UnexpectedEof)
        } else {
            match SkillsResponseKind::spec_from_repr(s[0]) {
                None => Some(ProtocolError::InvalidValue),
                Some(kind) => match skill_entries_of(s, 1, skills_with_caps(kind)) {
                    Err(e) => Some(e),
                    Ok((_es, end)) => if kind == SkillsResponseKind::Full && s.len() < end + 2 {
                        Some(ProtocolError::UnexpectedEof)
                    } else {
                        None
                    },
                },
            }
        }
    }

    open spec fn decodes_to(client_version: ClientVersion, from_client: bool, s: Seq<u8>, p: Self) -> bool {
        &&& Some(p.kind) == SkillsResponseKind::spec_from_repr(s[0])
        &&& skill_entries_of(s, 1, skills_with_caps(p.kind)) matches Ok((es, _end)) && skill_items(p.skills) == es
    }

    /// Entries of a kind without caps read back with cap 0.
    open spec fn roundtrips(&self, client_version: ClientVersion, to_client: bool) -> bool {
        !skills_with_caps(self.kind) ==> forall|i: int|
            0 <= i < skill_items(self.skills).len() ==> (#[trigger] skill_items(self.skills)[i]).cap == 0
    }

    fn packet_kind() -> (r: u8) {
        0x3a
    }

    fn fixed_length(client_version: ClientVersion) -> (r: Option<usize>) {
        None
    }

    fn decode(client_version: ClientVersion, from_client: bool, payload: &[u8]) -> (r: Result<Self, ProtocolError>) {
        let ghost s = payload@;
        let total = payload.len();
        let mut payload = payload;
        let kind = match SkillsResponseKind::from_repr(payload.read_u8()?) {
            Some(v) => v,
            None => return Err(ProtocolError::InvalidValue),
        };
        let caps = kind == SkillsResponseKind::FullWithCaps || kind == SkillsResponseKind::SingleUpdateWithCap;
        let ghost size = skill_entry_size(caps);
        let mut skills = skill_items_new();
        proof {
            assert(payload@ =~= s.skip(1));
            assert(after_entries(Seq::<SkillEntry>::empty(), skill_entries_of(s, 1, caps)) =~= skill_entries_of(s, 1, caps)) by {
                match skill_entries_of(s, 1, caps) {
                    Ok((es, end)) => {
                        assert(Seq::<SkillEntry>::empty() + es =~= es);
                    },
                    Err(_) => {},
                }
            }
        }
        #[verifier::loop_isolation(false)]
        while payload.len() > 2
            invariant
                total == s.len(),
                caps == skills_with_caps(kind),
                1 <= s.len() - payload@.len(),
                payload@ == s.skip(s.len() - payload@.len()),
                7 * skill_items(skills).len() <= s.len() - payload@.len(),
                after_entries(skill_items(skills), skill_entries_of(s, s.len() - payload@.len(), caps))
                    == skill_entries_of(s, 1, caps),
            decreases payload@.len(),
        {
            let ghost at = s.len() - payload@.len();
            let ghost p0 = payload@;
            if payload.len() < 7 {
                return Err(ProtocolError::UnexpectedEof);
            }
            let id = be_u16_at(payload, 0);
            let value = be_u16_at(payload, 2);
            let raw_value = be_u16_at(payload, 4);
            let lock = match SkillLock::from_repr(payload[6]) {
                Some(v) => v,
                None => return Err(ProtocolError::InvalidValue),
            };
            let cap = if caps {
                if payload.len() < 9 {
                    return Err(ProtocolError::UnexpectedEof);
                }
                be_u16_at(payload, 7)
            } else {
                0
            };
            let n: usize = if caps { 9 } else { 7 };
            payload = vstd::slice::slice_subrange(payload, n, payload.len());
            let entry = SkillEntry { id, value, raw_value, lock, cap };
            proof {
                assert(payload@ =~= s.skip(at + size));
                assert(entry.id == be_u16(s, at));
                assert(entry.value == be_u16(s, at + 2));
                assert(entry.raw_value == be_u16(s, at + 4));
                assert(s[at + 6] == p0[6]);
                assert(caps ==> entry.cap == be_u16(s, at + 7));
                let d = skill_items(skills);
                match skill_entries_of(s, at + size, caps) {
                    Ok((es, end)) => {
                        assert(d + (seq![entry] + es) =~= d.push(entry) + es);
                    },
                    Err(_) => {},
                }
            }
            skill_items_push(&mut skills, entry);
        }
        proof {
            let at = s.len() - payload@.len();
            assert(skill_entries_of(s, at, caps) == Ok::<(Seq<SkillEntry>, int), ProtocolError>((Seq::<SkillEntry>::empty(), at)));
            assert(skill_items(skills) + Seq::<SkillEntry>::empty() =~= skill_items(skills));
        }
        if kind == SkillsResponseKind::Full {
            payload.skip(2)?;
        }
        Ok(SkillsResponse { kind, skills })
    }

    fn encode(&self, client_version: ClientVersion, to_client: bool, writer: &mut Vec<u8>) -> (r: Result<(), ProtocolError>) {
        let caps = self.kind == SkillsResponseKind::FullWithCaps || self.kind == SkillsResponseKind::SingleUpdateWithCap;
        writer.write_u8(self.kind.repr());
        let ghost start = writer@;
        let ghost f = |e: SkillEntry| skill_entry_wire(e, caps);
        let entries = skill_items_slice(&self.skills);
        let mut i: usize = 0;
        proof {
            assert(entries@.take(0) =~= Seq::<SkillEntry>::empty());
            assert(writer@ =~= start + concat_map(entries@.take(0), f));
        }
        while i < entries.len()
            invariant
                i <= entries@.len(),
                f == (|e: SkillEntry| skill_entry_wire(e, caps)),
                writer@ == start + concat_map(entries@.take(i as int), f),
            decreases entries@.len() - i,
        {
            let e = entries[i];
            writer.write_u16(e.id);
            writer.write_u16(e.value);
            writer.write_u16(e.raw_value);
            writer.write_u8(e.lock.repr());
            if caps {
                writer.write_u16(e.cap);
            }
            proof {
                let v = entries@;
                assert(v.take(i + 1).drop_last() =~= v.take(i as int));
                assert(v.take(i + 1).last() == e);
                assert(writer@ =~= start + concat_map(v.take(i + 1), f));
            }
            i += 1;
        }
        assert(entries@.take(entries@.len() as int) =~= entries@);
        if self.kind == SkillsResponseKind::Full {
            writer.write_u16(0);
        }
        assert(writer@ =~= old(writer)@ + self.wire(client_version, to_client));
        Ok(())
    }

    proof fn lemma_roundtrip(&self, client_version: ClientVersion, to_client: bool) {
        let w = self.wire(client_version, to_client);
        let caps = skills_with_caps(self.kind);
        let es = skill_items(self.skills);
        let f = |e: SkillEntry| skill_entry_wire(e, caps);
        let m = skill_entry_size(caps);
        assert forall|i: int| 0 <= i < es.len() implies #[trigger] f(es[i]).len() == m by {}
        lemma_concat_map_fixed(es, f, m as nat);
        let body = concat_map(es, f);
        assert(w.subrange(1, 1 + m * es.len()) =~= body);
        lemma_skill_entries_roundtrip(es, caps, w, 1, 0);
        assert(es.skip(0) =~= es);
        assert(Seq::<SkillEntry>::empty() + es =~= es);
    }
}

/// A skill lock change is the skill number, most significant byte first,
/// then the lock.
pub proof fn lemma_skill_lock_request_layout(p: SkillLockRequest, client_version: ClientVersion, to_client: bool)
    ensures
        ({
            let w = p.wire(client_version, to_client);
            &&& w.len() == 3
            &&& be_u16(w, 0) == p.id
            &&& w[2] == p.lock.spec_repr()
        }),
{
    let w = p.wire(client_version, to_client);
    assert(w.subrange(0, 2) =~= u16_be(p.id));
    lemma_be_u16_roundtrip(p.id, w, 0);
}

/// An attack request is the target's id, most significant byte first.
pub proof fn lemma_attack_request_layout(p: AttackRequest, client_version: ClientVersion, to_client: bool)
    ensures
        ({
            let w = p.wire(client_version, to_client);
            &&& w.len() == 4
            &&& be_u32(w, 0) == p.target_id@
        }),
{
    let w = p.wire(client_version, to_client);
    assert(w.subrange(0, 4) =~= u32_be(p.target_id@));
    lemma_be_u32_roundtrip(p.target_id@, w, 0);
}

/// A swing is nine bytes: a zero byte, the attacker's id, then the target's
/// id, most significant byte first.
pub proof fn lemma_swing_layout(p: Swing, client_version: ClientVersion, to_client: bool)
    ensures
        ({
            let w = p.wire(client_version, to_client);
            &&& w.len() == 9
            &&& w[0] == 0u8
            &&& be_u32(w, 1) == p.attacker_id@
            &&& be_u32(w, 5) == p.target_id@
        }),
{
    let w = p.wire(client_version, to_client);
    assert(w.subrange(1, 5) =~= u32_be(p.attacker_id@));
    lemma_be_u32_roundtrip(p.attacker_id@, w, 1);
    assert(w.subrange(5, 9) =~= u32_be(p.target_id@));
    lemma_be_u32_roundtrip(p.target_id@, w, 5);
}

/// An animation is fourteen bytes: the character's id, the animation, the
/// frame count and the repeat count, numbers most significant byte first;
/// then one when played in reverse, one when it repeats other than once, and
/// the speed.
pub proof fn lemma_character_animation_layout(p: CharacterAnimation, client_version: ClientVersion, to_client: bool)
    ensures
        ({
            let w = p.wire(client_version, to_client);
            &&& w.len() == 13
            &&& be_u32(w, 0) == p.target_id@
            &&& be_u16(w, 4) == p.animation_id
            &&& be_u16(w, 6) == p.frame_count
            &&& be_u16(w, 8) == p.repeat_count
            &&& w[10] == (if p.reverse { 1u8 } else { 0u8 })
            &&& w[11] == (if p.repeat_count != 1 { 1u8 } else { 0u8 })
            &&& w[12] == p.speed
        }),
{
    let w = p.wire(client_version, to_client);
    assert(w.subrange(0, 4) =~= u32_be(p.target_id@));
    lemma_be_u32_roundtrip(p.target_id@, w, 0);
    assert(w.subrange(4, 6) =~= u16_be(p.animation_id));
    lemma_be_u16_roundtrip(p.animation_id, w, 4);
    assert(w.subrange(6, 8) =~= u16_be(p.frame_count));
    lemma_be_u16_roundtrip(p.frame_count, w, 6);
    assert(w.subrange(8, 10) =~= u16_be(p.repeat_count));
    lemma_be_u16_roundtrip(p.repeat_count, w, 8);
}

/// A predefined animation is nine bytes: the character's id, the kind and
/// the action, numbers most significant byte first, then the variant.
pub proof fn lemma_character_predefined_animation_layout(p: CharacterPredefinedAnimation, client_version: ClientVersion, to_client: bool)
    ensures
        ({
            let w = p.wire(client_version, to_client);
            &&& w.len() == 9
            &&& be_u32(w, 0) == p.target_id@
            &&& be_u16(w, 4) == p.kind
            &&& be_u16(w, 6) == p.action
            &&& w[8] == p.variant
        }),
{
    let w = p.wire(client_version, to_client);
    assert(w.subrange(0, 4) =~= u32_be(p.target_id@));
    lemma_be_u32_roundtrip(p.target_id@, w, 0);
    assert(w.subrange(4, 6) =~= u16_be(p.kind));
    lemma_be_u16_roundtrip(p.kind, w, 4);
    assert(w.subrange(6, 8) =~= u16_be(p.action));
    lemma_be_u16_roundtrip(p.action, w, 6);
}

} // verus!
