//! Packets of player input: movement, clicks, dragging items and targeting.

use vstd::prelude::*;
use vstd::utf8::*;

use crate::protocol::format::{
    be_u16, be_u32, concat_map, first_error, fits_str_block, lemma_concat_map_fixed,
    lemma_first_error_none, lemma_str_block_len, lemma_valid_utf8_zeros, is_first_zero, lemma_first_zero, str_nul_error, str_nul_text, str_nul_len, no_nul_chars, lemma_str_nul_roundtrip, read_str_fixed, write_str_fixed, fixed_text_valid, lemma_fixed_roundtrip,
    nul2_index, utf16_decode_lossy, be_units, le_units, units_be, units_le, utf16_encode, utf16_pascal_bytes, fits_utf16_pascal,
    lemma_utf16_pascal_roundtrip, lemma_be_u16_roundtrip, lemma_be_u32_roundtrip,
    lemma_i32_u32_cast, lemma_str_block_roundtrip, str_block_bytes, str_block_text, u16_be, u32_be,
    zeros, PacketReadExt, PacketWriteExt, optional_id_field, optional_id_of, write_optional_id,
};
use crate::protocol::client_version::{spec_version_grid_inventory, version_grid_inventory};
use crate::protocol::{ClientFlags, ClientVersion, Packet, ProtocolError};
use crate::types::FixedString;
use crate::vector::{IVec2, IVec3, UVec3};
use crate::{Direction, EntityId, EntityKind, Notoriety};

verus! {

broadcast use crate::lemma_entity_id_view_injective;

/// A step in a direction, walking or running.
#[derive(Debug, Clone, Default)]
pub struct Move {
    pub direction: Direction,
    pub run: bool,
    pub sequence: u8,
    pub fast_walk: u32,
}

impl Packet for Move {
    open spec fn spec_packet_kind() -> u8 {
        0x02
    }

    open spec fn spec_fixed_length(client_version: ClientVersion) -> Option<usize> {
        Some(7)
    }

    open spec fn wire(&self, client_version: ClientVersion, to_client: bool) -> Seq<u8> {
        seq![(self.direction.spec_repr() + if self.run { 0x80u8 } else { 0u8 }) as u8] + seq![self.sequence] + u32_be(self.fast_walk)
    }

    open spec fn can_encode(&self, client_version: ClientVersion, to_client: bool) -> bool {
        true
    }

    open spec fn decode_error(client_version: ClientVersion, from_client: bool, s: Seq<u8>) -> Option<ProtocolError> {
        if s.len() < 1 {
            Some(ProtocolError::UnexpectedEof)
        } else if Direction::spec_from_repr((s[0] % 0x80) as u8) is None {
            Some(ProtocolError::InvalidValue)
        } else if s.len() < 6 {
            Some(ProtocolError::UnexpectedEof)
        } else {
            None
        }
    }

    open spec fn decodes_to(client_version: ClientVersion, from_client: bool, s: Seq<u8>, p: Self) -> bool {
        &&& p.run == (s[0] >= 0x80)
        &&& Some(p.direction) == Direction::spec_from_repr((s[0] % 0x80) as u8)
        &&& p.sequence == s[1]
        &&& p.fast_walk == be_u32(s, 2)
    }

    open spec fn roundtrips(&self, client_version: ClientVersion, to_client: bool) -> bool {
        true
    }

    fn packet_kind() -> (r: u8) {
        0x02
    }

    fn fixed_length(client_version: ClientVersion) -> (r: Option<usize>) {
        Some(7)
    }

    fn decode(client_version: ClientVersion, from_client: bool, payload: &[u8]) -> (r: Result<Self, ProtocolError>) {
        let ghost s = payload@;
        let mut payload = payload;
        let direction_and_run = payload.read_u8()?;
        let run = direction_and_run >= 0x80;
        let direction = match Direction::from_repr(direction_and_run % 0x80) {
            Some(d) => d,
            None => return Err(ProtocolError::InvalidValue),
        };
        assert(payload@ =~= s.skip(1));
        let sequence = payload.read_u8()?;
        assert(payload@ =~= s.skip(2));
        let fast_walk = payload.read_u32()?;
        assert(payload@ =~= s.skip(6));
        Ok(Move { direction, run, sequence, fast_walk })
    }

    fn encode(&self, client_version: ClientVersion, to_client: bool, writer: &mut Vec<u8>) -> (r: Result<(), ProtocolError>) {
        writer.write_u8(self.direction.repr() + if self.run { 0x80 } else { 0 });
        writer.write_u8(self.sequence);
        writer.write_u32(self.fast_walk);
        assert(writer@ =~= old(writer)@ + self.wire(client_version, to_client));
        Ok(())
    }

    proof fn lemma_roundtrip(&self, client_version: ClientVersion, to_client: bool) {
        let w = self.wire(client_version, to_client);
        assert(w.subrange(0, 1) =~= seq![(self.direction.spec_repr() + if self.run { 0x80u8 } else { 0u8 }) as u8]);
        assert(w.subrange(1, 2) =~= seq![self.sequence]);
        assert(w.subrange(2, 6) =~= u32_be(self.fast_walk));
        lemma_be_u32_roundtrip(self.fast_walk, w, 2);
    }
}

/// The server accepts a step.
#[derive(Debug, Clone, Default)]
pub struct MoveConfirm {
    pub sequence: u8,
    pub notoriety: Notoriety,
}

impl Packet for MoveConfirm {
    open spec fn spec_packet_kind() -> u8 {
        0x22
    }

    open spec fn spec_fixed_length(client_version: ClientVersion) -> Option<usize> {
        Some(3)
    }

    open spec fn wire(&self, client_version: ClientVersion, to_client: bool) -> Seq<u8> {
        seq![self.sequence] + seq![self.notoriety.spec_repr()]
    }

    open spec fn can_encode(&self, client_version: ClientVersion, to_client: bool) -> bool {
        true
    }

    open spec fn decode_error(client_version: ClientVersion, from_client: bool, s: Seq<u8>) -> Option<ProtocolError> {
        if s.len() < 2 {
            Some(ProtocolError::UnexpectedEof)
        } else if Notoriety::spec_from_repr(s[1]) is None {
            Some(ProtocolError::InvalidValue)
        } else if s.len() < 2 {
            Some(ProtocolError::UnexpectedEof)
        } else {
            None
        }
    }

    open spec fn decodes_to(client_version: ClientVersion, from_client: bool, s: Seq<u8>, p: Self) -> bool {
        &&& p.sequence == s[0]
        &&& Some(p.notoriety) == Notoriety::spec_from_repr(s[1])
    }

    open spec fn roundtrips(&self, client_version: ClientVersion, to_client: bool) -> bool {
        true
    }

    fn packet_kind() -> (r: u8) {
        0x22
    }

    fn fixed_length(client_version: ClientVersion) -> (r: Option<usize>) {
        Some(3)
    }

    fn decode(client_version: ClientVersion, from_client: bool, payload: &[u8]) -> (r: Result<Self, ProtocolError>) {
        let ghost s = payload@;
        let mut payload = payload;
        let sequence = payload.read_u8()?;
        assert(payload@ =~= s.skip(1));
        let notoriety = match Notoriety::from_repr(payload.read_u8()?) {
            Some(v) => v,
            None => return Err(ProtocolError::InvalidValue),
        };
        assert(payload@ =~= s.skip(2));
        Ok(MoveConfirm { sequence, notoriety })
    }

    fn encode(&self, client_version: ClientVersion, to_client: bool, writer: &mut Vec<u8>) -> (r: Result<(), ProtocolError>) {
        writer.write_u8(self.sequence);
        writer.write_u8(self.notoriety.repr());
        assert(writer@ =~= old(writer)@ + self.wire(client_version, to_client));
        Ok(())
    }

    proof fn lemma_roundtrip(&self, client_version: ClientVersion, to_client: bool) {
        let w = self.wire(client_version, to_client);
        assert(w.subrange(0, 1) =~= seq![self.sequence]);
        assert(w.subrange(1, 2) =~= seq![self.notoriety.spec_repr()]);
    }
}

/// The server rejects a step and resets the player's position.
#[derive(Debug, Clone, Default)]
pub struct MoveReject {
    pub sequence: u8,
    pub position: IVec3,
    pub direction: Direction,
}

impl Packet for MoveReject {
    open spec fn spec_packet_kind() -> u8 {
        0x21
    }

    open spec fn spec_fixed_length(client_version: ClientVersion) -> Option<usize> {
        Some(8)
    }

    open spec fn wire(&self, client_version: ClientVersion, to_client: bool) -> Seq<u8> {
        seq![self.sequence] + u16_be(self.position.x as u16) + u16_be(self.position.y as u16) + seq![self.direction.spec_repr()] + seq![self.position.z as u8]
    }

    open spec fn can_encode(&self, client_version: ClientVersion, to_client: bool) -> bool {
        true
    }

    open spec fn decode_error(client_version: ClientVersion, from_client: bool, s: Seq<u8>) -> Option<ProtocolError> {
        if s.len() < 6 {
            Some(ProtocolError::UnexpectedEof)
        } else if Direction::spec_from_repr(s[5]) is None {
            Some(ProtocolError::InvalidValue)
        } else if s.len() < 7 {
            Some(ProtocolError::UnexpectedEof)
        } else {
            None
        }
    }

    open spec fn decodes_to(client_version: ClientVersion, from_client: bool, s: Seq<u8>, p: Self) -> bool {
        &&& p.sequence == s[0]
        &&& p.position.x == be_u16(s, 1) as i32
        &&& p.position.y == be_u16(s, 3) as i32
        &&& Some(p.direction) == Direction::spec_from_repr(s[5])
        &&& p.position.z == s[6] as i32
    }

    open spec fn roundtrips(&self, client_version: ClientVersion, to_client: bool) -> bool {
        0 <= self.position.x <= 0xffff && 0 <= self.position.y <= 0xffff && 0 <= self.position.z <= 0xff
    }

    fn packet_kind() -> (r: u8) {
        0x21
    }

    fn fixed_length(client_version: ClientVersion) -> (r: Option<usize>) {
        Some(8)
    }

    fn decode(client_version: ClientVersion, from_client: bool, payload: &[u8]) -> (r: Result<Self, ProtocolError>) {
        let ghost s = payload@;
        let mut payload = payload;
        let sequence = payload.read_u8()?;
        assert(payload@ =~= s.skip(1));
        let x = payload.read_u16()? as i32;
        assert(payload@ =~= s.skip(3));
        let y = payload.read_u16()? as i32;
        assert(payload@ =~= s.skip(5));
        let direction = payload.read_direction()?;
        assert(payload@ =~= s.skip(6));
        let z = payload.read_u8()? as i32;
        assert(payload@ =~= s.skip(7));
        Ok(MoveReject { sequence, position: IVec3::new(x, y, z), direction })
    }

    fn encode(&self, client_version: ClientVersion, to_client: bool, writer: &mut Vec<u8>) -> (r: Result<(), ProtocolError>) {
        writer.write_u8(self.sequence);
        writer.write_u16(self.position.x as u16);
        writer.write_u16(self.position.y as u16);
        writer.write_direction(self.direction);
        writer.write_u8(self.position.z as u8);
        assert(writer@ =~= old(writer)@ + self.wire(client_version, to_client));
        Ok(())
    }

    proof fn lemma_roundtrip(&self, client_version: ClientVersion, to_client: bool) {
        let w = self.wire(client_version, to_client);
        assert(w.subrange(0, 1) =~= seq![self.sequence]);
        assert(w.subrange(1, 3) =~= u16_be(self.position.x as u16));
        lemma_be_u16_roundtrip(self.position.x as u16, w, 1);
        assert(w.subrange(3, 5) =~= u16_be(self.position.y as u16));
        lemma_be_u16_roundtrip(self.position.y as u16, w, 3);
        assert(w.subrange(5, 6) =~= seq![self.direction.spec_repr()]);
        assert(w.subrange(6, 7) =~= seq![self.position.z as u8]);
    }
}

/// A single click on an entity.
#[derive(Debug, Clone)]
pub struct SingleClick {
    pub target_id: EntityId,
}

impl Packet for SingleClick {
    open spec fn spec_packet_kind() -> u8 {
        0x9
    }

    open spec fn spec_fixed_length(client_version: ClientVersion) -> Option<usize> {
        Some(5)
    }

    open spec fn wire(&self, client_version: ClientVersion, to_client: bool) -> Seq<u8> {
        u32_be(self.target_id@)
    }

    open spec fn can_encode(&self, client_version: ClientVersion, to_client: bool) -> bool {
        true
    }

    open spec fn decode_error(client_version: ClientVersion, from_client: bool, s: Seq<u8>) -> Option<ProtocolError> {
        if s.len() < 4 {
            Some(ProtocolError::UnexpectedEof)
        } else {
            None
        }
    }

    open spec fn decodes_to(client_version: ClientVersion, from_client: bool, s: Seq<u8>, p: Self) -> bool {
        &&& p.target_id@ == be_u32(s, 0)
    }

    open spec fn roundtrips(&self, client_version: ClientVersion, to_client: bool) -> bool {
        true
    }

    fn packet_kind() -> (r: u8) {
        0x9
    }

    fn fixed_length(client_version: ClientVersion) -> (r: Option<usize>) {
        Some(5)
    }

    fn decode(client_version: ClientVersion, from_client: bool, payload: &[u8]) -> (r: Result<Self, ProtocolError>) {
        let ghost s = payload@;
        let mut payload = payload;
        let target_id = payload.read_entity_id()?;
        assert(payload@ =~= s.skip(4));
        Ok(SingleClick { target_id })
    }

    fn encode(&self, client_version: ClientVersion, to_client: bool, writer: &mut Vec<u8>) -> (r: Result<(), ProtocolError>) {
        writer.write_entity_id(self.target_id);
        assert(writer@ =~= old(writer)@ + self.wire(client_version, to_client));
        Ok(())
    }

    proof fn lemma_roundtrip(&self, client_version: ClientVersion, to_client: bool) {
        let w = self.wire(client_version, to_client);
        assert(w.subrange(0, 4) =~= u32_be(self.target_id@));
        lemma_be_u32_roundtrip(self.target_id@, w, 0);
    }
}

/// A double click on an entity; the top bit asks for its paper doll.
#[derive(Debug, Clone)]
pub struct DoubleClick {
    pub target_id: EntityId,
    pub paperdoll: bool,
}

impl Packet for DoubleClick {
    open spec fn spec_packet_kind() -> u8 {
        0x6
    }

    open spec fn spec_fixed_length(client_version: ClientVersion) -> Option<usize> {
        Some(5)
    }

    open spec fn wire(&self, client_version: ClientVersion, to_client: bool) -> Seq<u8> {
        u32_be(self.target_id@ | if self.paperdoll { 0x80000000u32 } else { 0u32 })
    }

    open spec fn can_encode(&self, client_version: ClientVersion, to_client: bool) -> bool {
        true
    }

    open spec fn decode_error(client_version: ClientVersion, from_client: bool, s: Seq<u8>) -> Option<ProtocolError> {
        if s.len() < 4 {
            Some(ProtocolError::UnexpectedEof)
        } else {
            None
        }
    }

    open spec fn decodes_to(client_version: ClientVersion, from_client: bool, s: Seq<u8>, p: Self) -> bool {
        &&& p.target_id@ == be_u32(s, 0) % 0x80000000
        &&& p.paperdoll == (be_u32(s, 0) >= 0x80000000)
    }

    open spec fn roundtrips(&self, client_version: ClientVersion, to_client: bool) -> bool {
        self.target_id@ < 0x80000000
    }

    fn packet_kind() -> (r: u8) {
        0x6
    }

    fn fixed_length(client_version: ClientVersion) -> (r: Option<usize>) {
        Some(5)
    }

    fn decode(client_version: ClientVersion, from_client: bool, payload: &[u8]) -> (r: Result<Self, ProtocolError>) {
        let ghost s = payload@;
        let mut payload = payload;
        let raw_target_id = payload.read_u32()?;
        let target_id = EntityId::from_u32(raw_target_id % 0x80000000);
        let paperdoll = raw_target_id >= 0x80000000;
        assert(payload@ =~= s.skip(4));
        Ok(DoubleClick { target_id, paperdoll })
    }

    fn encode(&self, client_version: ClientVersion, to_client: bool, writer: &mut Vec<u8>) -> (r: Result<(), ProtocolError>) {
        writer.write_u32(self.target_id.as_u32() | if self.paperdoll { 0x80000000 } else { 0 });
        assert(writer@ =~= old(writer)@ + self.wire(client_version, to_client));
        Ok(())
    }

    proof fn lemma_roundtrip(&self, client_version: ClientVersion, to_client: bool) {
        let w = self.wire(client_version, to_client);
        assert(w.subrange(0, 4) =~= u32_be(self.target_id@ | if self.paperdoll { 0x80000000u32 } else { 0u32 }));
        lemma_be_u32_roundtrip(self.target_id@ | if self.paperdoll { 0x80000000u32 } else { 0u32 }, w, 0);
        lemma_top_bit(self.target_id@, self.paperdoll);
    }
}

/// Lifts an item.
#[derive(Debug, Clone)]
pub struct PickUpEntity {
    pub target_id: EntityId,
    pub quantity: u16,
}

impl Packet for PickUpEntity {
    open spec fn spec_packet_kind() -> u8 {
        0x7
    }

    open spec fn spec_fixed_length(client_version: ClientVersion) -> Option<usize> {
        Some(7)
    }

    open spec fn wire(&self, client_version: ClientVersion, to_client: bool) -> Seq<u8> {
        u32_be(self.target_id@) + u16_be(self.quantity)
    }

    open spec fn can_encode(&self, client_version: ClientVersion, to_client: bool) -> bool {
        true
    }

    open spec fn decode_error(client_version: ClientVersion, from_client: bool, s: Seq<u8>) -> Option<ProtocolError> {
        if s.len() < 6 {
            Some(ProtocolError::UnexpectedEof)
        } else {
            None
        }
    }

    open spec fn decodes_to(client_version: ClientVersion, from_client: bool, s: Seq<u8>, p: Self) -> bool {
        &&& p.target_id@ == be_u32(s, 0)
        &&& p.quantity == be_u16(s, 4)
    }

    open spec fn roundtrips(&self, client_version: ClientVersion, to_client: bool) -> bool {
        true
    }

    fn packet_kind() -> (r: u8) {
        0x7
    }

    fn fixed_length(client_version: ClientVersion) -> (r: Option<usize>) {
        Some(7)
    }

    fn decode(client_version: ClientVersion, from_client: bool, payload: &[u8]) -> (r: Result<Self, ProtocolError>) {
        let ghost s = payload@;
        let mut payload = payload;
        let target_id = payload.read_entity_id()?;
        assert(payload@ =~= s.skip(4));
        let quantity = payload.read_u16()?;
        assert(payload@ =~= s.skip(6));
        Ok(PickUpEntity { target_id, quantity })
    }

    fn encode(&self, client_version: ClientVersion, to_client: bool, writer: &mut Vec<u8>) -> (r: Result<(), ProtocolError>) {
        writer.write_entity_id(self.target_id);
        writer.write_u16(self.quantity);
        assert(writer@ =~= old(writer)@ + self.wire(client_version, to_client));
        Ok(())
    }

    proof fn lemma_roundtrip(&self, client_version: ClientVersion, to_client: bool) {
        let w = self.wire(client_version, to_client);
        assert(w.subrange(0, 4) =~= u32_be(self.target_id@));
        lemma_be_u32_roundtrip(self.target_id@, w, 0);
        assert(w.subrange(4, 6) =~= u16_be(self.quantity));
        lemma_be_u16_roundtrip(self.quantity, w, 4);
    }
}

/// Drops the held item on the ground or into a container.
#[derive(Debug, Clone)]
pub struct DropEntity {
    pub target_id: EntityId,
    pub position: IVec3,
    pub grid_index: u8,
    pub container_id: Option<EntityId>,
}

impl Packet for DropEntity {
    open spec fn spec_packet_kind() -> u8 {
        0x8
    }

    open spec fn spec_fixed_length(client_version: ClientVersion) -> Option<usize> {
        if client_version.spec_at_least(spec_version_grid_inventory()) {
            Some(15)
        } else {
            Some(14)
        }
    }

    open spec fn wire(&self, client_version: ClientVersion, to_client: bool) -> Seq<u8> {
        if client_version.spec_at_least(spec_version_grid_inventory()) {
            u32_be(self.target_id@) + u16_be(self.position.x as u16) + u16_be(self.position.x as u16) + seq![self.position.z as u8] + seq![self.grid_index] + u32_be(optional_id_field(self.container_id))
        } else {
            u32_be(self.target_id@) + u16_be(self.position.x as u16) + u16_be(self.position.x as u16) + seq![self.position.z as u8] + u32_be(optional_id_field(self.container_id))
        }
    }

    open spec fn can_encode(&self, client_version: ClientVersion, to_client: bool) -> bool {
        true
    }

    open spec fn decode_error(client_version: ClientVersion, from_client: bool, s: Seq<u8>) -> Option<ProtocolError> {
        if client_version.spec_at_least(spec_version_grid_inventory()) {
            if s.len() < 14 {
                Some(ProtocolError::UnexpectedEof)
            } else {
                None
            }
        } else {
            if s.len() < 13 {
                Some(ProtocolError::UnexpectedEof)
            } else {
                None
            }
        }
    }

    open spec fn decodes_to(client_version: ClientVersion, from_client: bool, s: Seq<u8>, p: Self) -> bool {
        if client_version.spec_at_least(spec_version_grid_inventory()) {
            &&& p.target_id@ == be_u32(s, 0)
            &&& p.position.x == be_u16(s, 4) as i32
            &&& p.position.y == be_u16(s, 6) as i32
            &&& p.position.z == s[8] as i32
            &&& p.grid_index == s[9]
            &&& p.container_id == optional_id_of(be_u32(s, 10))
        } else {
            &&& p.target_id@ == be_u32(s, 0)
            &&& p.position.x == be_u16(s, 4) as i32
            &&& p.position.y == be_u16(s, 6) as i32
            &&& p.position.z == s[8] as i32
            &&& p.container_id == optional_id_of(be_u32(s, 9))
        }
    }

    open spec fn roundtrips(&self, client_version: ClientVersion, to_client: bool) -> bool {
        0 <= self.position.x <= 0xffff && self.position.y == self.position.x && 0 <= self.position.z <= 0xff && self.container_id != Some(EntityId::spec_from_u32(0xffffffff))
    }

    fn packet_kind() -> (r: u8) {
        0x8
    }

    fn fixed_length(client_version: ClientVersion) -> (r: Option<usize>) {
        if client_version.at_least(version_grid_inventory()) {
            Some(15)
        } else {
            Some(14)
        }
    }

    fn decode(client_version: ClientVersion, from_client: bool, payload: &[u8]) -> (r: Result<Self, ProtocolError>) {
        let ghost s = payload@;
        let mut payload = payload;
        if client_version.at_least(version_grid_inventory()) {
            let target_id = payload.read_entity_id()?;
            assert(payload@ =~= s.skip(4));
            let x = payload.read_u16()? as i32;
            assert(payload@ =~= s.skip(6));
            let y = payload.read_u16()? as i32;
            assert(payload@ =~= s.skip(8));
            let z = payload.read_u8()? as i32;
            assert(payload@ =~= s.skip(9));
            let grid_index = payload.read_u8()?;
            assert(payload@ =~= s.skip(10));
            let raw_container_id = payload.read_u32()?;
            let container_id = if raw_container_id == 0xffffffff {
                None
            } else {
                Some(EntityId::from_u32(raw_container_id))
            };
            assert(payload@ =~= s.skip(14));
            Ok(DropEntity { target_id, position: IVec3::new(x, y, z), grid_index, container_id })
        } else {
            let target_id = payload.read_entity_id()?;
            assert(payload@ =~= s.skip(4));
            let x = payload.read_u16()? as i32;
            assert(payload@ =~= s.skip(6));
            let y = payload.read_u16()? as i32;
            assert(payload@ =~= s.skip(8));
            let z = payload.read_u8()? as i32;
            assert(payload@ =~= s.skip(9));
            let raw_container_id = payload.read_u32()?;
            let container_id = if raw_container_id == 0xffffffff {
                None
            } else {
                Some(EntityId::from_u32(raw_container_id))
            };
            assert(payload@ =~= s.skip(13));
            Ok(DropEntity { target_id, position: IVec3::new(x, y, z), grid_index: 0, container_id })
        }
    }

    fn encode(&self, client_version: ClientVersion, to_client: bool, writer: &mut Vec<u8>) -> (r: Result<(), ProtocolError>) {
        if client_version.at_least(version_grid_inventory()) {
            writer.write_entity_id(self.target_id);
            writer.write_u16(self.position.x as u16);
            writer.write_u16(self.position.x as u16);
            writer.write_u8(self.position.z as u8);
            writer.write_u8(self.grid_index);
            write_optional_id(writer, self.container_id);
        } else {
            writer.write_entity_id(self.target_id);
            writer.write_u16(self.position.x as u16);
            writer.write_u16(self.position.x as u16);
            writer.write_u8(self.position.z as u8);
            write_optional_id(writer, self.container_id);
        }
        assert(writer@ =~= old(writer)@ + self.wire(client_version, to_client));
        Ok(())
    }

    proof fn lemma_roundtrip(&self, client_version: ClientVersion, to_client: bool) {
        let w = self.wire(client_version, to_client);
        if client_version.spec_at_least(spec_version_grid_inventory()) {
            assert(w.subrange(0, 4) =~= u32_be(self.target_id@));
            lemma_be_u32_roundtrip(self.target_id@, w, 0);
            assert(w.subrange(4, 6) =~= u16_be(self.position.x as u16));
            lemma_be_u16_roundtrip(self.position.x as u16, w, 4);
            assert(w.subrange(6, 8) =~= u16_be(self.position.x as u16));
            lemma_be_u16_roundtrip(self.position.x as u16, w, 6);
            assert(w.subrange(8, 9) =~= seq![self.position.z as u8]);
            assert(w.subrange(9, 10) =~= seq![self.grid_index]);
            assert(w.subrange(10, 14) =~= u32_be(optional_id_field(self.container_id)));
            lemma_be_u32_roundtrip(optional_id_field(self.container_id), w, 10);
            EntityId::lemma_spec_from_u32(0xffffffff);
            if let Some(c) = self.container_id { EntityId::lemma_spec_from_u32(c@); }
        } else {
            assert(w.subrange(0, 4) =~= u32_be(self.target_id@));
            lemma_be_u32_roundtrip(self.target_id@, w, 0);
            assert(w.subrange(4, 6) =~= u16_be(self.position.x as u16));
            lemma_be_u16_roundtrip(self.position.x as u16, w, 4);
            assert(w.subrange(6, 8) =~= u16_be(self.position.x as u16));
            lemma_be_u16_roundtrip(self.position.x as u16, w, 6);
            assert(w.subrange(8, 9) =~= seq![self.position.z as u8]);
            assert(w.subrange(9, 13) =~= u32_be(optional_id_field(self.container_id)));
            lemma_be_u32_roundtrip(optional_id_field(self.container_id), w, 9);
            EntityId::lemma_spec_from_u32(0xffffffff);
            if let Some(c) = self.container_id { EntityId::lemma_spec_from_u32(c@); }
        }
    }
}

/// Why the server refused to move an item.
#[derive(Debug, Clone, Copy, PartialEq, Eq, Structural)]
pub enum MoveEntityReject {
    CannotLift,
    OutOfRange,
    OutOfSight,
    BelongsToAnother,
    AlreadyHolding,
}

impl MoveEntityReject {
    pub open spec fn spec_from_repr(v: u8) -> Option<MoveEntityReject> {
        if v == 0 {
            Some(MoveEntityReject::CannotLift)
        } else if v == 1 {
            Some(MoveEntityReject::OutOfRange)
        } else if v == 2 {
            Some(MoveEntityReject::OutOfSight)
        } else if v == 3 {
            Some(MoveEntityReject::BelongsToAnother)
        } else if v == 4 {
            Some(MoveEntityReject::AlreadyHolding)
        } else {
            None
        }
    }

    pub open spec fn spec_repr(&self) -> u8 {
        match self {
            MoveEntityReject::CannotLift => 0,
            MoveEntityReject::OutOfRange => 1,
            MoveEntityReject::OutOfSight => 2,
            MoveEntityReject::BelongsToAnother => 3,
            MoveEntityReject::AlreadyHolding => 4,
        }
    }

    pub fn from_repr(v: u8) -> (r: Option<MoveEntityReject>)
        ensures
            r == MoveEntityReject::spec_from_repr(v),
    {
        match v {
            0 => Some(MoveEntityReject::CannotLift),
            1 => Some(MoveEntityReject::OutOfRange),
            2 => Some(MoveEntityReject::OutOfSight),
            3 => Some(MoveEntityReject::BelongsToAnother),
            4 => Some(MoveEntityReject::AlreadyHolding),
            _ => None,
        }
    }

    pub fn repr(&self) -> (r: u8)
        ensures
            r == self.spec_repr(),
            MoveEntityReject::spec_from_repr(r) == Some(*self),
    {
        match self {
            MoveEntityReject::CannotLift => 0,
            MoveEntityReject::OutOfRange => 1,
            MoveEntityReject::OutOfSight => 2,
            MoveEntityReject::BelongsToAnother => 3,
            MoveEntityReject::AlreadyHolding => 4,
        }
    }
}

impl Packet for MoveEntityReject {
    open spec fn spec_packet_kind() -> u8 {
        0x27
    }

    open spec fn spec_fixed_length(client_version: ClientVersion) -> Option<usize> {
        Some(2)
    }

    open spec fn wire(&self, client_version: ClientVersion, to_client: bool) -> Seq<u8> {
        seq![self.spec_repr()]
    }

    open spec fn can_encode(&self, client_version: ClientVersion, to_client: bool) -> bool {
        true
    }

    open spec fn decode_error(client_version: ClientVersion, from_client: bool, s: Seq<u8>) -> Option<ProtocolError> {
        if s.len() < 1 {
            Some(ProtocolError::UnexpectedEof)
        } else if MoveEntityReject::spec_from_repr(s[0]) is None {
            Some(ProtocolError::InvalidValue)
        } else if s.len() < 1 {
            Some(ProtocolError::UnexpectedEof)
        } else {
            None
        }
    }

    open spec fn decodes_to(client_version: ClientVersion, from_client: bool, s: Seq<u8>, p: Self) -> bool {
        &&& Some(p) == MoveEntityReject::spec_from_repr(s[0])
    }

    open spec fn roundtrips(&self, client_version: ClientVersion, to_client: bool) -> bool {
        true
    }

    fn packet_kind() -> (r: u8) {
        0x27
    }

    fn fixed_length(client_version: ClientVersion) -> (r: Option<usize>) {
        Some(2)
    }

    fn decode(client_version: ClientVersion, from_client: bool, payload: &[u8]) -> (r: Result<Self, ProtocolError>) {
        let ghost s = payload@;
        let mut payload = payload;
        let reason = match MoveEntityReject::from_repr(payload.read_u8()?) {
            Some(v) => v,
            None => return Err(ProtocolError::InvalidValue),
        };
        assert(payload@ =~= s.skip(1));
        Ok(reason)
    }

    fn encode(&self, client_version: ClientVersion, to_client: bool, writer: &mut Vec<u8>) -> (r: Result<(), ProtocolError>) {
        writer.write_u8(self.repr());
        assert(writer@ =~= old(writer)@ + self.wire(client_version, to_client));
        Ok(())
    }

    proof fn lemma_roundtrip(&self, client_version: ClientVersion, to_client: bool) {
        let w = self.wire(client_version, to_client);
        assert(w.subrange(0, 1) =~= seq![self.spec_repr()]);
    }
}

/// The kind of action a target is picked for.
#[derive(Debug, Clone, Copy, PartialEq, Eq, Structural)]
pub enum TargetType {
    Neutral,
    Harmful,
    Helpful,
    Cancel,
}

impl TargetType {
    pub open spec fn spec_from_repr(v: u8) -> Option<TargetType> {
        if v == 0 {
            Some(TargetType::Neutral)
        } else if v == 1 {
            Some(TargetType::Harmful)
        } else if v == 2 {
            Some(TargetType::Helpful)
        } else if v == 3 {
            Some(TargetType::Cancel)
        } else {
            None
        }
    }

    pub open spec fn spec_repr(&self) -> u8 {
        match self {
            TargetType::Neutral => 0,
            TargetType::Harmful => 1,
            TargetType::Helpful => 2,
            TargetType::Cancel => 3,
        }
    }

    pub fn from_repr(v: u8) -> (r: Option<TargetType>)
        ensures
            r == TargetType::spec_from_repr(v),
    {
        match v {
            0 => Some(TargetType::Neutral),
            1 => Some(TargetType::Harmful),
            2 => Some(TargetType::Helpful),
            3 => Some(TargetType::Cancel),
            _ => None,
        }
    }

    pub fn repr(&self) -> (r: u8)
        ensures
            r == self.spec_repr(),
            TargetType::spec_from_repr(r) == Some(*self),
    {
        match self {
            TargetType::Neutral => 0,
            TargetType::Harmful => 1,
            TargetType::Helpful => 2,
            TargetType::Cancel => 3,
        }
    }
}

/// Picks a target: an entity or a place on the ground.
#[derive(Debug, Clone)]
pub struct PickTarget {
    pub target_ground: bool,
    pub target_type: TargetType,
    pub id: u32,
    pub target_id: Option<EntityId>,
    pub position: IVec3,
    pub graphic_id: u16,
}

/// The target field: zero for no entity.
pub open spec fn target_field(id: Option<EntityId>) -> u32 {
    match id {
        Some(t) => t@,
        None => 0,
    }
}

fn write_target(writer: &mut Vec<u8>, id: Option<EntityId>)
    ensures
        final(writer)@ == old(writer)@ + u32_be(target_field(id)),
{
    match id {
        Some(t) => writer.write_entity_id(t),
        None => writer.write_u32(0),
    }
}

impl Packet for PickTarget {
    open spec fn spec_packet_kind() -> u8 {
        0x6c
    }

    open spec fn spec_fixed_length(client_version: ClientVersion) -> Option<usize> {
        Some(19)
    }

    open spec fn wire(&self, client_version: ClientVersion, to_client: bool) -> Seq<u8> {
        seq![if self.target_ground { 1u8 } else { 0u8 }] + u32_be(self.id) + seq![self.target_type.spec_repr()] + u32_be(target_field(self.target_id)) + u16_be(self.position.x as u16) + u16_be(self.position.y as u16) + u16_be(self.position.z as u16) + u16_be(self.graphic_id)
    }

    open spec fn can_encode(&self, client_version: ClientVersion, to_client: bool) -> bool {
        true
    }

    open spec fn decode_error(client_version: ClientVersion, from_client: bool, s: Seq<u8>) -> Option<ProtocolError> {
        if s.len() < 6 {
            Some(ProtocolError::UnexpectedEof)
        } else if TargetType::spec_from_repr(s[5]) is None {
            Some(ProtocolError::InvalidValue)
        } else if s.len() < 18 {
            Some(ProtocolError::UnexpectedEof)
        } else {
            None
        }
    }

    open spec fn decodes_to(client_version: ClientVersion, from_client: bool, s: Seq<u8>, p: Self) -> bool {
        &&& p.target_ground == (s[0] != 0)
        &&& p.id == be_u32(s, 1)
        &&& Some(p.target_type) == TargetType::spec_from_repr(s[5])
        &&& p.target_id matches Some(t) && t@ == be_u32(s, 6)
        &&& p.position.x == be_u16(s, 10) as i32
        &&& p.position.y == be_u16(s, 12) as i32
        &&& p.position.z == be_u16(s, 14) as i32
        &&& p.graphic_id == be_u16(s, 16)
    }

    open spec fn roundtrips(&self, client_version: ClientVersion, to_client: bool) -> bool {
        self.target_id is Some && 0 <= self.position.x <= 0xffff && 0 <= self.position.y <= 0xffff && 0 <= self.position.z <= 0xffff
    }

    fn packet_kind() -> (r: u8) {
        0x6c
    }

    fn fixed_length(client_version: ClientVersion) -> (r: Option<usize>) {
        Some(19)
    }

    fn decode(client_version: ClientVersion, from_client: bool, payload: &[u8]) -> (r: Result<Self, ProtocolError>) {
        let ghost s = payload@;
        let mut payload = payload;
        let target_ground = payload.read_u8()? != 0;
        assert(payload@ =~= s.skip(1));
        let id = payload.read_u32()?;
        assert(payload@ =~= s.skip(5));
        let target_type = match TargetType::from_repr(payload.read_u8()?) {
            Some(v) => v,
            None => return Err(ProtocolError::InvalidValue),
        };
        assert(payload@ =~= s.skip(6));
        let target_id = Some(payload.read_entity_id()?);
        assert(payload@ =~= s.skip(10));
        let x = payload.read_u16()? as i32;
        assert(payload@ =~= s.skip(12));
        let y = payload.read_u16()? as i32;
        assert(payload@ =~= s.skip(14));
        let z = payload.read_u16()? as i32;
        assert(payload@ =~= s.skip(16));
        let graphic_id = payload.read_u16()?;
        assert(payload@ =~= s.skip(18));
        Ok(PickTarget { target_ground, target_type, id, target_id, position: IVec3::new(x, y, z), graphic_id })
    }

    fn encode(&self, client_version: ClientVersion, to_client: bool, writer: &mut Vec<u8>) -> (r: Result<(), ProtocolError>) {
        writer.write_u8(if self.target_ground { 1 } else { 0 });
        writer.write_u32(self.id);
        writer.write_u8(self.target_type.repr());
        write_target(writer, self.target_id);
        writer.write_u16(self.position.x as u16);
        writer.write_u16(self.position.y as u16);
        writer.write_u16(self.position.z as u16);
        writer.write_u16(self.graphic_id);
        assert(writer@ =~= old(writer)@ + self.wire(client_version, to_client));
        Ok(())
    }

    proof fn lemma_roundtrip(&self, client_version: ClientVersion, to_client: bool) {
        let w = self.wire(client_version, to_client);
        assert(w.subrange(0, 1) =~= seq![if self.target_ground { 1u8 } else { 0u8 }]);
        assert(w.subrange(1, 5) =~= u32_be(self.id));
        lemma_be_u32_roundtrip(self.id, w, 1);
        assert(w.subrange(5, 6) =~= seq![self.target_type.spec_repr()]);
        assert(w.subrange(6, 10) =~= u32_be(target_field(self.target_id)));
        lemma_be_u32_roundtrip(target_field(self.target_id), w, 6);
        assert(w.subrange(10, 12) =~= u16_be(self.position.x as u16));
        lemma_be_u16_roundtrip(self.position.x as u16, w, 10);
        assert(w.subrange(12, 14) =~= u16_be(self.position.y as u16));
        lemma_be_u16_roundtrip(self.position.y as u16, w, 12);
        assert(w.subrange(14, 16) =~= u16_be(self.position.z as u16));
        lemma_be_u16_roundtrip(self.position.z as u16, w, 14);
        assert(w.subrange(16, 18) =~= u16_be(self.graphic_id));
        lemma_be_u16_roundtrip(self.graphic_id, w, 16);
    }
}

/// Setting or clearing the top bit of an id below it.
proof fn lemma_top_bit(id: u32, set: bool)
    requires
        id < 0x80000000,
    ensures
        (id | if set { 0x80000000u32 } else { 0u32 }) % 0x80000000 == id,
        ((id | if set { 0x80000000u32 } else { 0u32 }) >= 0x80000000) == set,
{
    if set {
        assert((id | 0x80000000u32) % 0x80000000 == id && (id | 0x80000000u32) >= 0x80000000) by (bit_vector)
            requires
                id < 0x80000000u32,
        ;
    } else {
        assert((id | 0u32) == id) by (bit_vector);
    }
}

/// A step travels as six bytes: first the direction, with the top bit set
/// for a run, then the sequence number, then the fast-walk key, most
/// significant byte first.
pub proof fn lemma_move_layout(m: Move, client_version: ClientVersion, to_client: bool)
    ensures
        ({
            let w = m.wire(client_version, to_client);
            &&& w.len() == 6
            &&& w[0] & 0x7f == m.direction.spec_repr()
            &&& (w[0] & 0x80 == 0x80) == m.run
            &&& w[1] == m.sequence
            &&& w[2] as int * 0x1000000 + w[3] as int * 0x10000 + w[4] as int * 0x100 + w[5] as int
                == m.fast_walk as int
        }),
{
    let w = m.wire(client_version, to_client);
    let d = m.direction.spec_repr();
    let b = w[0];
    assert(d < 8);
    if m.run {
        assert(b == d + 0x80);
        assert(b & 0x7f == d && b & 0x80 == 0x80) by (bit_vector)
            requires
                d < 8,
                b == d + 0x80,
        ;
    } else {
        assert(b == d);
        assert(b & 0x7f == d && b & 0x80 != 0x80) by (bit_vector)
            requires
                d < 8,
                b == d,
        ;
    }
    assert(w.subrange(2, 6) =~= u32_be(m.fast_walk));
    lemma_be_u32_roundtrip(m.fast_walk, w, 2);
    assert(w[2] as int * 0x1000000 + w[3] as int * 0x10000 + w[4] as int * 0x100 + (w[5] as int) < 0x1_0000_0000);
}

/// A step is read from six bytes or more whose first byte, without its top
/// bit, names one of the eight directions.
pub proof fn lemma_move_decode_accepts(client_version: ClientVersion, from_client: bool, s: Seq<u8>)
    ensures
        Move::decode_error(client_version, from_client, s) is None <==> (s.len() >= 6 && s[0] & 0x7f < 8),
{
    if s.len() >= 1 {
        let b = s[0];
        assert(b & 0x7f == b % 0x80) by (bit_vector);
    }
}

/// Reading a step takes the direction and the run flag from the first byte,
/// the sequence number from the second and the fast-walk key from the four
/// after, most significant byte first.
pub proof fn lemma_move_decode_layout(client_version: ClientVersion, from_client: bool, s: Seq<u8>, p: Move)
    requires
        Move::decode_error(client_version, from_client, s) is None,
        Move::decodes_to(client_version, from_client, s, p),
    ensures
        s.len() >= 6,
        p.direction.spec_repr() == s[0] & 0x7f,
        p.run == (s[0] & 0x80 == 0x80),
        p.sequence == s[1],
        p.fast_walk as int == s[2] as int * 0x1000000 + s[3] as int * 0x10000 + s[4] as int * 0x100
            + s[5] as int,
{
    let b = s[0];
    assert(b & 0x7f == b % 0x80 && ((b & 0x80 == 0x80) == (b >= 0x80))) by (bit_vector);
    assert(s[2] as int * 0x1000000 + s[3] as int * 0x10000 + s[4] as int * 0x100 + (s[5] as int) < 0x1_0000_0000);
}

/// The server's step acceptance is two bytes: the sequence number, then the
/// notoriety.
pub proof fn lemma_move_confirm_layout(p: MoveConfirm, client_version: ClientVersion, to_client: bool)
    ensures
        ({
            let w = p.wire(client_version, to_client);
            &&& w.len() == 2
            &&& w[0] == p.sequence
            &&& w[1] == p.notoriety.spec_repr()
        }),
{
}

/// A step rejection is seven bytes: the sequence number, the x and y
/// coordinates as 16-bit numbers most significant byte first, the direction,
/// and the z coordinate's low byte.
pub proof fn lemma_move_reject_layout(p: MoveReject, client_version: ClientVersion, to_client: bool)
    ensures
        ({
            let w = p.wire(client_version, to_client);
            &&& w.len() == 7
            &&& w[0] == p.sequence
            &&& be_u16(w, 1) == p.position.x as u16
            &&& be_u16(w, 3) == p.position.y as u16
            &&& w[5] == p.direction.spec_repr()
            &&& w[6] == p.position.z as u8
        }),
{
    let w = p.wire(client_version, to_client);
    assert(w.subrange(1, 3) =~= u16_be(p.position.x as u16));
    lemma_be_u16_roundtrip(p.position.x as u16, w, 1);
    assert(w.subrange(3, 5) =~= u16_be(p.position.y as u16));
    lemma_be_u16_roundtrip(p.position.y as u16, w, 3);
}

/// A single click is the clicked entity's id, most significant byte first.
pub proof fn lemma_single_click_layout(p: SingleClick, client_version: ClientVersion, to_client: bool)
    ensures
        p.wire(client_version, to_client).len() == 4,
        be_u32(p.wire(client_version, to_client), 0) == p.target_id@,
{
    let w = p.wire(client_version, to_client);
    assert(w.subrange(0, 4) =~= u32_be(p.target_id@));
    lemma_be_u32_roundtrip(p.target_id@, w, 0);
}

/// A double click is the entity's id, most significant byte first, with the
/// top bit set to ask for the paperdoll.
pub proof fn lemma_double_click_layout(p: DoubleClick, client_version: ClientVersion, to_client: bool)
    ensures
        p.wire(client_version, to_client).len() == 4,
        be_u32(p.wire(client_version, to_client), 0) == p.target_id@ | if p.paperdoll {
            0x80000000u32
        } else {
            0u32
        },
{
    let w = p.wire(client_version, to_client);
    let v = p.target_id@ | if p.paperdoll { 0x80000000u32 } else { 0u32 };
    assert(w.subrange(0, 4) =~= u32_be(v));
    lemma_be_u32_roundtrip(v, w, 0);
}

/// Picking up an entity is six bytes: its id, then the quantity, each most
/// significant byte first.
pub proof fn lemma_pick_up_entity_layout(p: PickUpEntity, client_version: ClientVersion, to_client: bool)
    ensures
        ({
            let w = p.wire(client_version, to_client);
            &&& w.len() == 6
            &&& be_u32(w, 0) == p.target_id@
            &&& be_u16(w, 4) == p.quantity
        }),
{
    let w = p.wire(client_version, to_client);
    assert(w.subrange(0, 4) =~= u32_be(p.target_id@));
    lemma_be_u32_roundtrip(p.target_id@, w, 0);
    assert(w.subrange(4, 6) =~= u16_be(p.quantity));
    lemma_be_u16_roundtrip(p.quantity, w, 4);
}

/// Dropping an entity gives its id, the x coordinate twice over, the z
/// coordinate's low byte, the grid slot for clients that have one, and the
/// container's id, all numbers most significant byte first; no container
/// is written as all ones.
pub proof fn lemma_drop_entity_layout(p: DropEntity, client_version: ClientVersion, to_client: bool)
    ensures
        ({
            let w = p.wire(client_version, to_client);
            let grid = client_version.spec_at_least(spec_version_grid_inventory());
            let c = if grid { 10int } else { 9int };
            &&& w.len() == c + 4
            &&& be_u32(w, 0) == p.target_id@
            &&& be_u16(w, 4) == p.position.x as u16
            &&& be_u16(w, 6) == p.position.x as u16
            &&& w[8] == p.position.z as u8
            &&& grid ==> w[9] == p.grid_index
            &&& be_u32(w, c) == match p.container_id {
                Some(id) => id@,
                None => 0xffffffffu32,
            }
        }),
{
    let w = p.wire(client_version, to_client);
    let grid = client_version.spec_at_least(spec_version_grid_inventory());
    let c = if grid { 10int } else { 9int };
    assert(w.subrange(0, 4) =~= u32_be(p.target_id@));
    lemma_be_u32_roundtrip(p.target_id@, w, 0);
    assert(w.subrange(4, 6) =~= u16_be(p.position.x as u16));
    lemma_be_u16_roundtrip(p.position.x as u16, w, 4);
    assert(w.subrange(6, 8) =~= u16_be(p.position.x as u16));
    lemma_be_u16_roundtrip(p.position.x as u16, w, 6);
    assert(w.subrange(c, c + 4) =~= u32_be(optional_id_field(p.container_id)));
    lemma_be_u32_roundtrip(optional_id_field(p.container_id), w, c);
}

/// A targeting request is eighteen bytes: whether the ground is targeted,
/// the request id, the target type, the target entity (zero for none), the
/// x, y and z coordinates and the graphic, numbers most significant byte
/// first.
pub proof fn lemma_pick_target_layout(p: PickTarget, client_version: ClientVersion, to_client: bool)
    ensures
        ({
            let w = p.wire(client_version, to_client);
            &&& w.len() == 18
            &&& w[0] == if p.target_ground { 1u8 } else { 0u8 }
            &&& be_u32(w, 1) == p.id
            &&& w[5] == p.target_type.spec_repr()
            &&& be_u32(w, 6) == match p.target_id {
                Some(id) => id@,
                None => 0u32,
            }
            &&& be_u16(w, 10) == p.position.x as u16
            &&& be_u16(w, 12) == p.position.y as u16
            &&& be_u16(w, 14) == p.position.z as u16
            &&& be_u16(w, 16) == p.graphic_id
        }),
{
    let w = p.wire(client_version, to_client);
    assert(w.subrange(1, 5) =~= u32_be(p.id));
    lemma_be_u32_roundtrip(p.id, w, 1);
    assert(w.subrange(6, 10) =~= u32_be(target_field(p.target_id)));
    lemma_be_u32_roundtrip(target_field(p.target_id), w, 6);
    assert(w.subrange(10, 12) =~= u16_be(p.position.x as u16));
    lemma_be_u16_roundtrip(p.position.x as u16, w, 10);
    assert(w.subrange(12, 14) =~= u16_be(p.position.y as u16));
    lemma_be_u16_roundtrip(p.position.y as u16, w, 12);
    assert(w.subrange(14, 16) =~= u16_be(p.position.z as u16));
    lemma_be_u16_roundtrip(p.position.z as u16, w, 14);
    assert(w.subrange(16, 18) =~= u16_be(p.graphic_id));
    lemma_be_u16_roundtrip(p.graphic_id, w, 16);
}

} // verus!
