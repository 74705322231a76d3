//! Entities of the world: items, characters, their equipment, status and tooltips.

use vstd::prelude::*;
use vstd::utf8::*;

use crate::protocol::format::{
    lemma_first_zero_bounds,
    str_from_utf8,
    be_u16, be_u32, concat_map, first_error, first_zero, fits_str_block, lemma_concat_map_fixed,
    lemma_first_error_none, lemma_str_block_len, lemma_valid_utf8_zeros, is_first_zero, lemma_first_zero, str_nul_error, str_nul_text, str_nul_len, no_nul_chars, lemma_str_nul_roundtrip, read_str_fixed, write_str_fixed, fixed_text_valid, lemma_fixed_roundtrip,
    nul2_index, utf16_decode_lossy, be_units, le_units, units_be, units_le, utf16_encode, utf16_pascal_bytes, fits_utf16_pascal,
    lemma_utf16_pascal_roundtrip, lemma_be_u16_roundtrip, lemma_be_u32_roundtrip,
    lemma_i32_u32_cast, lemma_str_block_roundtrip, str_block_bytes, str_block_text, u16_be, u32_be,
    zeros, PacketReadExt, PacketWriteExt, be_u16_at, be_u32_at, optional_id_field, optional_id_of, write_optional_id,
};
use crate::protocol::client_version::{spec_version_grid_inventory, spec_version_high_seas, version_grid_inventory, version_high_seas};
use crate::protocol::{ClientFlags, ClientVersion, Packet, ProtocolError};
use crate::types::FixedString;
use crate::vector::{IVec2, IVec3, UVec3};
use crate::{Direction, EntityId, EntityKind, Notoriety};

verus! {

broadcast use crate::lemma_entity_id_view_injective;

/// Asks for information about an entity.
#[derive(Debug, Clone)]
pub struct EntityRequest {
    pub kind: u8,
    pub target: EntityId,
}

impl Packet for EntityRequest {
    open spec fn spec_packet_kind() -> u8 {
        0x34
    }

    open spec fn spec_fixed_length(client_version: ClientVersion) -> Option<usize> {
        Some(10)
    }

    open spec fn wire(&self, client_version: ClientVersion, to_client: bool) -> Seq<u8> {
        u32_be(0xedededed) + seq![self.kind] + u32_be(self.target@)
    }

    open spec fn can_encode(&self, client_version: ClientVersion, to_client: bool) -> bool {
        true
    }

    open spec fn decode_error(client_version: ClientVersion, from_client: bool, s: Seq<u8>) -> Option<ProtocolError> {
        if s.len() < 9 {
            Some(ProtocolError::UnexpectedEof)
        } else {
            None
        }
    }

    open spec fn decodes_to(client_version: ClientVersion, from_client: bool, s: Seq<u8>, p: Self) -> bool {
        &&& p.kind == s[4]
        &&& p.target@ == be_u32(s, 5)
    }

    open spec fn roundtrips(&self, client_version: ClientVersion, to_client: bool) -> bool {
        true
    }

    fn packet_kind() -> (r: u8) {
        0x34
    }

    fn fixed_length(client_version: ClientVersion) -> (r: Option<usize>) {
        Some(10)
    }

    fn decode(client_version: ClientVersion, from_client: bool, payload: &[u8]) -> (r: Result<Self, ProtocolError>) {
        let ghost s = payload@;
        let mut payload = payload;
        payload.skip(4)?;
        assert(payload@ =~= s.skip(4));
        let kind = payload.read_u8()?;
        assert(payload@ =~= s.skip(5));
        let target = payload.read_entity_id()?;
        assert(payload@ =~= s.skip(9));
        Ok(EntityRequest { kind, target })
    }

    fn encode(&self, client_version: ClientVersion, to_client: bool, writer: &mut Vec<u8>) -> (r: Result<(), ProtocolError>) {
        writer.write_u32(0xedededed);
        writer.write_u8(self.kind);
        writer.write_entity_id(self.target);
        assert(writer@ =~= old(writer)@ + self.wire(client_version, to_client));
        Ok(())
    }

    proof fn lemma_roundtrip(&self, client_version: ClientVersion, to_client: bool) {
        let w = self.wire(client_version, to_client);
        assert(w.subrange(4, 5) =~= seq![self.kind]);
        assert(w.subrange(5, 9) =~= u32_be(self.target@));
        lemma_be_u32_roundtrip(self.target@, w, 5);
    }
}

/// The state flags of an entity.
#[derive(Debug, Clone, Copy, Default, PartialEq, Eq, Structural)]
pub struct EntityFlags {
    bits: u8,
}

impl View for EntityFlags {
    type V = u8;

    closed spec fn view(&self) -> u8 {
        self.bits
    }
}

impl EntityFlags {
    pub const FEMALE: u8 = 0x2;
    pub const POISONED: u8 = 0x4;
    pub const YELLOW_HITS: u8 = 0x8;
    pub const FACTION_SHIP: u8 = 0x10;
    pub const MOVABLE: u8 = 0x20;
    pub const WAR_MODE: u8 = 0x40;
    pub const HIDDEN: u8 = 0x80;

    /// The union of all defined flags.
    pub open spec fn spec_all() -> u8 {
        0xfe
    }

    /// The flags among `bits` that are defined; the others are dropped.
    pub fn from_bits_truncate(bits: u8) -> (r: EntityFlags)
        ensures
            r@ == bits & EntityFlags::spec_all(),
    {
        EntityFlags { bits: bits & 0xfe }
    }

    pub fn bits(&self) -> (r: u8)
        ensures
            r == self@,
    {
        self.bits
    }

    pub fn empty() -> (r: EntityFlags)
        ensures
            r@ == 0,
    {
        EntityFlags { bits: 0 }
    }

    pub fn is_empty(&self) -> (r: bool)
        ensures
            r == (self@ == 0),
    {
        self.bits == 0
    }

    pub fn contains(&self, flag: u8) -> (r: bool)
        ensures
            r == (self@ & flag == flag),
    {
        self.bits & flag == flag
    }

    /// The value holds only defined flags.
    pub open spec fn spec_is_truncated(&self) -> bool {
        self@ & EntityFlags::spec_all() == self@
    }
}

/// Two flag sets with the same bits are the same.
pub broadcast proof fn lemma_entityflags_view_injective(a: EntityFlags, b: EntityFlags)
    ensures
        #![trigger a@, b@]
        a@ == b@ ==> a == b,
{
}

/// A world entity in the oldest layout, where flag bits in the id and the
/// coordinates announce the optional fields.
#[derive(Debug, Clone, Default)]
pub struct UpsertEntityLegacy {
    pub id: EntityId,
    pub graphic_id: u32,
    pub quantity: u16,
    pub position: IVec3,
    pub direction: Direction,
    pub dye: u16,
    pub flags: EntityFlags,
}

impl UpsertEntityLegacy {
    /// The length of the quantity field: present when the id's top bit is set.
    pub open spec fn quantity_len(s: Seq<u8>) -> int {
        if be_u32(s, 0) & 0x80000000 != 0 {
            2
        } else {
            0
        }
    }

    /// Where the graphic increment would stand.
    pub open spec fn inc_at(s: Seq<u8>) -> int {
        6 + UpsertEntityLegacy::quantity_len(s)
    }

    /// The length of the graphic increment: present when the graphic's top bit is set.
    pub open spec fn inc_len(s: Seq<u8>) -> int {
        if be_u16(s, 4) & 0x8000 != 0 {
            1
        } else {
            0
        }
    }

    /// Where the x coordinate stands.
    pub open spec fn x_at(s: Seq<u8>) -> int {
        UpsertEntityLegacy::inc_at(s) + UpsertEntityLegacy::inc_len(s)
    }

    pub open spec fn raw_x(s: Seq<u8>) -> u16 {
        be_u16(s, UpsertEntityLegacy::x_at(s))
    }

    pub open spec fn raw_y(s: Seq<u8>) -> u16 {
        be_u16(s, UpsertEntityLegacy::x_at(s) + 2)
    }

    /// The length of the direction: present when the top bit of x is set.
    pub open spec fn dir_len(s: Seq<u8>) -> int {
        if UpsertEntityLegacy::raw_x(s) & 0x8000 != 0 {
            1
        } else {
            0
        }
    }

    /// Where the z coordinate stands.
    pub open spec fn z_at(s: Seq<u8>) -> int {
        UpsertEntityLegacy::x_at(s) + 4 + UpsertEntityLegacy::dir_len(s)
    }

    /// The length of the dye: present when the top bit of y is set.
    pub open spec fn dye_len(s: Seq<u8>) -> int {
        if UpsertEntityLegacy::raw_y(s) & 0x8000 != 0 {
            2
        } else {
            0
        }
    }

    /// Where the flags would stand.
    pub open spec fn flags_at(s: Seq<u8>) -> int {
        UpsertEntityLegacy::z_at(s) + 1 + UpsertEntityLegacy::dye_len(s)
    }

    /// The length of the flags: present when the second bit of y is set.
    pub open spec fn flags_len(s: Seq<u8>) -> int {
        if UpsertEntityLegacy::raw_y(s) & 0x4000 != 0 {
            1
        } else {
            0
        }
    }

    /// The id word: the id, with the top bit set when a quantity follows.
    pub open spec fn id_word(&self) -> u32 {
        self.id@ | if self.quantity > 1 {
            0x80000000u32
        } else {
            0u32
        }
    }

    /// The x word: x, with the top bit set when a direction follows.
    pub open spec fn x_word(&self) -> u16 {
        (self.position.x as u16) | if self.direction != Direction::North {
            0x8000u16
        } else {
            0u16
        }
    }

    /// The y word: y, with the top bit set when a dye follows and the next
    /// when flags follow.
    pub open spec fn y_word(&self) -> u16 {
        ((self.position.y as u16) | if self.dye != 0 {
            0x8000u16
        } else {
            0u16
        }) | if self.flags@ != 0 {
            0x4000u16
        } else {
            0u16
        }
    }
}

impl Packet for UpsertEntityLegacy {
    open spec fn spec_packet_kind() -> u8 {
        0x1a
    }

    open spec fn spec_fixed_length(client_version: ClientVersion) -> Option<usize> {
        None
    }

    open spec fn wire(&self, client_version: ClientVersion, to_client: bool) -> Seq<u8> {
        u32_be(self.id_word()) + u16_be((self.graphic_id & 0x7fff) as u16) + (if self.quantity > 1 {
            u16_be(self.quantity)
        } else {
            Seq::empty()
        }) + u16_be(self.x_word()) + u16_be(self.y_word()) + (if self.direction != Direction::North {
            seq![self.direction.spec_repr()]
        } else {
            Seq::empty()
        }) + seq![self.position.z as u8] + (if self.dye != 0 {
            u16_be(self.dye)
        } else {
            Seq::empty()
        }) + (if self.flags@ != 0 {
            seq![self.flags@]
        } else {
            Seq::empty()
        })
    }

    open spec fn can_encode(&self, client_version: ClientVersion, to_client: bool) -> bool {
        true
    }

    open spec fn decode_error(client_version: ClientVersion, from_client: bool, s: Seq<u8>) -> Option<ProtocolError> {
        if s.len() < 6 || s.len() < UpsertEntityLegacy::x_at(s) + 4 {
            Some(ProtocolError::UnexpectedEof)
        } else if UpsertEntityLegacy::dir_len(s) == 1 && s.len() < UpsertEntityLegacy::x_at(s) + 5 {
            Some(ProtocolError::UnexpectedEof)
        } else if UpsertEntityLegacy::dir_len(s) == 1 && Direction::spec_from_repr(
            s[UpsertEntityLegacy::x_at(s) + 4],
        ) is None {
            Some(ProtocolError::InvalidValue)
        } else if s.len() < UpsertEntityLegacy::flags_at(s) + UpsertEntityLegacy::flags_len(s) {
            Some(ProtocolError::UnexpectedEof)
        } else {
            None
        }
    }

    open spec fn decodes_to(client_version: ClientVersion, from_client: bool, s: Seq<u8>, p: Self) -> bool {
        &&& p.id@ == be_u32(s, 0) & 0x7fffffff
        &&& p.quantity == if UpsertEntityLegacy::quantity_len(s) == 2 {
            be_u16(s, 6)
        } else {
            0u16
        }
        &&& p.graphic_id as int == be_u16(s, 4) as int + if UpsertEntityLegacy::inc_len(s) == 1 {
            s[UpsertEntityLegacy::inc_at(s)] as int
        } else {
            0int
        }
        &&& p.position.x == (UpsertEntityLegacy::raw_x(s) & 0x3fff) as i32
        &&& p.position.y == (UpsertEntityLegacy::raw_y(s) & 0x3fff) as i32
        &&& p.position.z == s[UpsertEntityLegacy::z_at(s)] as i32
        &&& Some(p.direction) == if UpsertEntityLegacy::dir_len(s) == 1 {
            Direction::spec_from_repr(s[UpsertEntityLegacy::x_at(s) + 4])
        } else {
            Some(Direction::North)
        }
        &&& p.dye == if UpsertEntityLegacy::dye_len(s) == 2 {
            be_u16(s, UpsertEntityLegacy::z_at(s) + 1)
        } else {
            0u16
        }
        &&& p.flags@ == if UpsertEntityLegacy::flags_len(s) == 1 {
            s[UpsertEntityLegacy::flags_at(s)] & EntityFlags::spec_all()
        } else {
            0u8
        }
    }

    /// Packets whose fields fit their masked places: an id below the flag
    /// bit, a quantity that is written (not one), a graphic of fifteen bits,
    /// coordinates of fourteen bits and z of eight, and defined flags.
    open spec fn roundtrips(&self, client_version: ClientVersion, to_client: bool) -> bool {
        &&& self.id@ < 0x80000000
        &&& self.quantity != 1
        &&& self.graphic_id <= 0x7fff
        &&& 0 <= self.position.x <= 0x3fff
        &&& 0 <= self.position.y <= 0x3fff
        &&& 0 <= self.position.z <= 0xff
        &&& self.flags.spec_is_truncated()
    }

    fn packet_kind() -> (r: u8) {
        0x1a
    }

    fn fixed_length(client_version: ClientVersion) -> (r: Option<usize>) {
        None
    }

    #[verifier::rlimit(60)]
    fn decode(client_version: ClientVersion, from_client: bool, payload: &[u8]) -> (r: Result<Self, ProtocolError>) {
        let ghost s = payload@;
        let mut payload = payload;
        let id = payload.read_entity_id()?.as_u32();
        let mut graphic_id = payload.read_u16()? as u32;
        proof {
            assert(payload@ =~= s.skip(6));
        }
        let quantity = if id & 0x80000000 != 0 {
            let q = payload.read_u16()?;
            proof {
                assert(payload@ =~= s.skip(8));
            }
            q
        } else {
            0
        };
        if graphic_id & 0x8000 != 0 {
            let ghost at = s.len() - payload@.len();
            let inc = payload.read_u8()?;
            proof {
                assert(inc == s[at]);
                assert(payload@ =~= s.skip(at + 1));
            }
            graphic_id += inc as u32;
        }
        let ghost xa = s.len() - payload@.len();
        proof {
            assert(xa == UpsertEntityLegacy::x_at(s));
        }
        let x = payload.read_u16()?;
        let y = payload.read_u16()?;
        proof {
            assert(payload@ =~= s.skip(xa + 4));
            assert(x == UpsertEntityLegacy::raw_x(s));
            assert(y == UpsertEntityLegacy::raw_y(s));
        }
        let direction = if x & 0x8000 != 0 {
            let d = payload.read_direction()?;
            proof {
                assert(payload@ =~= s.skip(xa + 5));
            }
            d
        } else {
            Direction::North
        };
        let ghost za = s.len() - payload@.len();
        let z = payload.read_u8()? as i32;
        proof {
            assert(za == UpsertEntityLegacy::z_at(s));
            assert(payload@ =~= s.skip(za + 1));
        }
        let dye = if y & 0x8000 != 0 {
            let d = payload.read_u16()?;
            proof {
                assert(payload@ =~= s.skip(za + 3));
            }
            d
        } else {
            0
        };
        proof {
            assert(s.len() - payload@.len() == UpsertEntityLegacy::flags_at(s));
        }
        let flags = if y & 0x4000 != 0 {
            EntityFlags::from_bits_truncate(payload.read_u8()?)
        } else {
            EntityFlags::empty()
        };
        Ok(UpsertEntityLegacy {
            id: EntityId::from_u32(id & 0x7fffffff),
            graphic_id,
            quantity,
            position: IVec3::new((x & 0x3fff) as i32, (y & 0x3fff) as i32, z),
            direction,
            dye,
            flags,
        })
    }

    #[verifier::rlimit(40)]
    fn encode(&self, client_version: ClientVersion, to_client: bool, writer: &mut Vec<u8>) -> (r: Result<(), ProtocolError>) {
        writer.write_u32(
            self.id.as_u32() | if self.quantity > 1 {
                0x80000000
            } else {
                0
            },
        );
        writer.write_u16((self.graphic_id & 0x7fff) as u16);
        if self.quantity > 1 {
            writer.write_u16(self.quantity);
        }
        let mut x = self.position.x as u16;
        if self.direction != Direction::North {
            x = x | 0x8000;
        }
        let mut y = self.position.y as u16;
        if self.dye != 0 {
            y = y | 0x8000;
        }
        if !self.flags.is_empty() {
            y = y | 0x4000;
        }
        proof {
            let x0 = self.position.x as u16;
            let y0 = self.position.y as u16;
            assert(x0 | 0u16 == x0) by (bit_vector);
            assert(y0 | 0u16 == y0) by (bit_vector);
            let y1 = y0 | 0x8000u16;
            assert(y1 | 0u16 == y1) by (bit_vector);
        }
        writer.write_u16(x);
        writer.write_u16(y);
        if self.direction != Direction::North {
            writer.write_direction(self.direction);
        }
        writer.write_u8(self.position.z as u8);
        if self.dye != 0 {
            writer.write_u16(self.dye);
        }
        if !self.flags.is_empty() {
            writer.write_u8(self.flags.bits());
        }
        assert(writer@ =~= old(writer)@ + self.wire(client_version, to_client));
        Ok(())
    }

    #[verifier::rlimit(50)]
    proof fn lemma_roundtrip(&self, client_version: ClientVersion, to_client: bool) {
        let w = self.wire(client_version, to_client);
        let q = self.quantity > 1;
        let idw = self.id_word();
        let id = self.id@;
        assert(w.subrange(0, 4) =~= u32_be(idw));
        lemma_be_u32_roundtrip(idw, w, 0);
        assert((id | 0x80000000u32) & 0x80000000u32 != 0 && (id | 0x80000000u32) & 0x7fffffffu32 == id)
            by (bit_vector)
            requires
                id < 0x80000000u32,
        ;
        assert((id | 0u32) & 0x80000000u32 == 0 && (id | 0u32) & 0x7fffffffu32 == id) by (bit_vector)
            requires
                id < 0x80000000u32,
        ;
        let g = self.graphic_id;
        let gw = (g & 0x7fff) as u16;
        assert(gw & 0x8000u16 == 0 && gw as u32 == g) by (bit_vector)
            requires
                g <= 0x7fffu32,
                gw == (g & 0x7fffu32) as u16,
        ;
        assert(w.subrange(4, 6) =~= u16_be(gw));
        lemma_be_u16_roundtrip(gw, w, 4);
        assert(UpsertEntityLegacy::quantity_len(w) == if q { 2int } else { 0int });
        assert(UpsertEntityLegacy::inc_len(w) == 0);
        let xa: int = if q { 8 } else { 6 };
        assert(UpsertEntityLegacy::x_at(w) == xa);
        if q {
            assert(w.subrange(6, 8) =~= u16_be(self.quantity));
            lemma_be_u16_roundtrip(self.quantity, w, 6);
        }
        let xw = self.x_word();
        let yw = self.y_word();
        let x0 = self.position.x as u16;
        let y0 = self.position.y as u16;
        assert(x0 as i32 == self.position.x && y0 as i32 == self.position.y);
        assert(w.subrange(xa, xa + 2) =~= u16_be(xw));
        lemma_be_u16_roundtrip(xw, w, xa);
        assert(w.subrange(xa + 2, xa + 4) =~= u16_be(yw));
        lemma_be_u16_roundtrip(yw, w, xa + 2);
        assert((x0 | 0x8000u16) & 0x8000u16 != 0 && (x0 | 0x8000u16) & 0x3fffu16 == x0) by (bit_vector)
            requires
                x0 <= 0x3fffu16,
        ;
        assert((x0 | 0u16) & 0x8000u16 == 0 && (x0 | 0u16) & 0x3fffu16 == x0) by (bit_vector)
            requires
                x0 <= 0x3fffu16,
        ;
        let dflag: u16 = if self.dye != 0 { 0x8000u16 } else { 0u16 };
        let fflag: u16 = if self.flags@ != 0 { 0x4000u16 } else { 0u16 };
        assert(((y0 | dflag) | fflag) & 0x3fffu16 == y0 && ((((y0 | dflag) | fflag) & 0x8000u16 != 0) == (dflag
            != 0)) && ((((y0 | dflag) | fflag) & 0x4000u16 != 0) == (fflag != 0))) by (bit_vector)
            requires
                y0 <= 0x3fffu16,
                dflag == 0x8000u16 || dflag == 0u16,
                fflag == 0x4000u16 || fflag == 0u16,
        ;
        let dl: int = if self.direction != Direction::North { 1 } else { 0 };
        assert(UpsertEntityLegacy::dir_len(w) == dl);
        let za = xa + 4 + dl;
        assert(UpsertEntityLegacy::z_at(w) == za);
        assert(w[za] == self.position.z as u8);
        let yl: int = if self.dye != 0 { 2 } else { 0 };
        assert(UpsertEntityLegacy::dye_len(w) == yl);
        if self.dye != 0 {
            assert(w.subrange(za + 1, za + 3) =~= u16_be(self.dye));
            lemma_be_u16_roundtrip(self.dye, w, za + 1);
        }
        if self.direction != Direction::North {
            assert(w[xa + 4] == self.direction.spec_repr());
        }
        let fa = za + 1 + yl;
        assert(UpsertEntityLegacy::flags_at(w) == fa);
        if self.flags@ != 0 {
            assert(w[fa] == self.flags@);
        }
        assert(w.len() == fa + if self.flags@ != 0 { 1int } else { 0int });
    }
}

/// An item, character or multi placed in the world.
#[derive(Debug, Clone, Default)]
pub struct UpsertEntityWorld {
    pub id: EntityId,
    pub kind: EntityKind,
    pub graphic_id: u16,
    pub graphic_inc: u8,
    pub direction: Direction,
    pub quantity: u16,
    pub position: IVec3,
    pub hue: u16,
    pub flags: EntityFlags,
}

impl Packet for UpsertEntityWorld {
    open spec fn spec_packet_kind() -> u8 {
        0xf3
    }

    open spec fn spec_fixed_length(client_version: ClientVersion) -> Option<usize> {
        if client_version.spec_at_least(spec_version_high_seas()) {
            Some(28)
        } else {
            Some(24)
        }
    }

    open spec fn wire(&self, client_version: ClientVersion, to_client: bool) -> Seq<u8> {
        if client_version.spec_at_least(spec_version_high_seas()) {
            u16_be(1) + seq![self.kind.spec_repr()] + u32_be(self.id@) + u16_be(self.graphic_id) + seq![self.graphic_inc] + u16_be(self.quantity) + u16_be(self.quantity) + u16_be(self.position.x as u16) + u16_be(self.position.y as u16) + seq![self.position.z as u8] + seq![self.direction.spec_repr()] + u16_be(self.hue) + seq![self.flags@] + u16_be(0)
        } else {
            u16_be(1) + seq![self.kind.spec_repr()] + u32_be(self.id@) + u16_be(self.graphic_id) + seq![self.graphic_inc] + u16_be(self.quantity) + u16_be(self.quantity) + u16_be(self.position.x as u16) + u16_be(self.position.y as u16) + seq![self.position.z as u8] + seq![self.direction.spec_repr()] + u16_be(self.hue) + seq![self.flags@]
        }
    }

    open spec fn can_encode(&self, client_version: ClientVersion, to_client: bool) -> bool {
        true
    }

    open spec fn decode_error(client_version: ClientVersion, from_client: bool, s: Seq<u8>) -> Option<ProtocolError> {
        if client_version.spec_at_least(spec_version_high_seas()) {
            if s.len() < 3 {
                Some(ProtocolError::UnexpectedEof)
            } else if EntityKind::spec_from_repr(s[2]) is None {
                Some(ProtocolError::InvalidValue)
            } else if s.len() < 20 {
                Some(ProtocolError::UnexpectedEof)
            } else if Direction::spec_from_repr(s[19]) is None {
                Some(ProtocolError::InvalidValue)
            } else if s.len() < 25 {
                Some(ProtocolError::UnexpectedEof)
            } else {
                None
            }
        } else {
            if s.len() < 3 {
                Some(ProtocolError::UnexpectedEof)
            } else if EntityKind::spec_from_repr(s[2]) is None {
                Some(ProtocolError::InvalidValue)
            } else if s.len() < 20 {
                Some(ProtocolError::UnexpectedEof)
            } else if Direction::spec_from_repr(s[19]) is None {
                Some(ProtocolError::InvalidValue)
            } else if s.len() < 23 {
                Some(ProtocolError::UnexpectedEof)
            } else {
                None
            }
        }
    }

    open spec fn decodes_to(client_version: ClientVersion, from_client: bool, s: Seq<u8>, p: Self) -> bool {
        if client_version.spec_at_least(spec_version_high_seas()) {
            &&& Some(p.kind) == EntityKind::spec_from_repr(s[2])
            &&& p.id@ == be_u32(s, 3)
            &&& p.graphic_id == be_u16(s, 7)
            &&& p.graphic_inc == s[9]
            &&& p.quantity == be_u16(s, 10)
            &&& p.position.x == be_u16(s, 14) as i32
            &&& p.position.y == be_u16(s, 16) as i32
            &&& p.position.z == s[18] as i32
            &&& Some(p.direction) == Direction::spec_from_repr(s[19])
            &&& p.hue == be_u16(s, 20)
            &&& p.flags@ == (s[22] & EntityFlags::spec_all())
        } else {
            &&& Some(p.kind) == EntityKind::spec_from_repr(s[2])
            &&& p.id@ == be_u32(s, 3)
            &&& p.graphic_id == be_u16(s, 7)
            &&& p.graphic_inc == s[9]
            &&& p.quantity == be_u16(s, 10)
            &&& p.position.x == be_u16(s, 14) as i32
            &&& p.position.y == be_u16(s, 16) as i32
            &&& p.position.z == s[18] as i32
            &&& Some(p.direction) == Direction::spec_from_repr(s[19])
            &&& p.hue == be_u16(s, 20)
            &&& p.flags@ == (s[22] & EntityFlags::spec_all())
        }
    }

    open spec fn roundtrips(&self, client_version: ClientVersion, to_client: bool) -> bool {
        0 <= self.position.x <= 0xffff && 0 <= self.position.y <= 0xffff && 0 <= self.position.z <= 0xff && self.flags.spec_is_truncated()
    }

    fn packet_kind() -> (r: u8) {
        0xf3
    }

    fn fixed_length(client_version: ClientVersion) -> (r: Option<usize>) {
        if client_version.at_least(version_high_seas()) {
            Some(28)
        } else {
            Some(24)
        }
    }

    #[verifier::rlimit(40)]
    fn decode(client_version: ClientVersion, from_client: bool, payload: &[u8]) -> (r: Result<Self, ProtocolError>) {
        let ghost s = payload@;
        let mut payload = payload;
        if client_version.at_least(version_high_seas()) {
            payload.skip(2)?;
            assert(payload@ =~= s.skip(2));
            let kind = match EntityKind::from_repr(payload.read_u8()?) {
                Some(v) => v,
                None => return Err(ProtocolError::InvalidValue),
            };
            assert(payload@ =~= s.skip(3));
            let id = payload.read_entity_id()?;
            assert(payload@ =~= s.skip(7));
            let graphic_id = payload.read_u16()?;
            assert(payload@ =~= s.skip(9));
            let graphic_inc = payload.read_u8()?;
            assert(payload@ =~= s.skip(10));
            let quantity = payload.read_u16()?;
            assert(payload@ =~= s.skip(12));
            payload.skip(2)?;
            assert(payload@ =~= s.skip(14));
            let x = payload.read_u16()? as i32;
            assert(payload@ =~= s.skip(16));
            let y = payload.read_u16()? as i32;
            assert(payload@ =~= s.skip(18));
            let z = payload.read_u8()? as i32;
            assert(payload@ =~= s.skip(19));
            let direction = payload.read_direction()?;
            assert(payload@ =~= s.skip(20));
            let hue = payload.read_u16()?;
            assert(payload@ =~= s.skip(22));
            let flags = EntityFlags::from_bits_truncate(payload.read_u8()?);
            assert(payload@ =~= s.skip(23));
            payload.skip(2)?;
            assert(payload@ =~= s.skip(25));
            Ok(UpsertEntityWorld { id, kind, graphic_id, graphic_inc, direction, quantity, position: IVec3::new(x, y, z), hue, flags })
        } else {
            payload.skip(2)?;
            assert(payload@ =~= s.skip(2));
            let kind = match EntityKind::from_repr(payload.read_u8()?) {
                Some(v) => v,
                None => return Err(ProtocolError::InvalidValue),
            };
            assert(payload@ =~= s.skip(3));
            let id = payload.read_entity_id()?;
            assert(payload@ =~= s.skip(7));
            let graphic_id = payload.read_u16()?;
            assert(payload@ =~= s.skip(9));
            let graphic_inc = payload.read_u8()?;
            assert(payload@ =~= s.skip(10));
            let quantity = payload.read_u16()?;
            assert(payload@ =~= s.skip(12));
            payload.skip(2)?;
            assert(payload@ =~= s.skip(14));
            let x = payload.read_u16()? as i32;
            assert(payload@ =~= s.skip(16));
            let y = payload.read_u16()? as i32;
            assert(payload@ =~= s.skip(18));
            let z = payload.read_u8()? as i32;
            assert(payload@ =~= s.skip(19));
            let direction = payload.read_direction()?;
            assert(payload@ =~= s.skip(20));
            let hue = payload.read_u16()?;
            assert(payload@ =~= s.skip(22));
            let flags = EntityFlags::from_bits_truncate(payload.read_u8()?);
            assert(payload@ =~= s.skip(23));
            Ok(UpsertEntityWorld { id, kind, graphic_id, graphic_inc, direction, quantity, position: IVec3::new(x, y, z), hue, flags })
        }
    }

    #[verifier::rlimit(40)]
    fn encode(&self, client_version: ClientVersion, to_client: bool, writer: &mut Vec<u8>) -> (r: Result<(), ProtocolError>) {
        if client_version.at_least(version_high_seas()) {
            writer.write_u16(1);
            writer.write_u8(self.kind.repr());
            writer.write_entity_id(self.id);
            writer.write_u16(self.graphic_id);
            writer.write_u8(self.graphic_inc);
            writer.write_u16(self.quantity);
            writer.write_u16(self.quantity);
            writer.write_u16(self.position.x as u16);
            writer.write_u16(self.position.y as u16);
            writer.write_u8(self.position.z as u8);
            writer.write_direction(self.direction);
            writer.write_u16(self.hue);
            writer.write_u8(self.flags.bits());
            writer.write_u16(0);
        } else {
            writer.write_u16(1);
            writer.write_u8(self.kind.repr());
            writer.write_entity_id(self.id);
            writer.write_u16(self.graphic_id);
            writer.write_u8(self.graphic_inc);
            writer.write_u16(self.quantity);
            writer.write_u16(self.quantity);
            writer.write_u16(self.position.x as u16);
            writer.write_u16(self.position.y as u16);
            writer.write_u8(self.position.z as u8);
            writer.write_direction(self.direction);
            writer.write_u16(self.hue);
            writer.write_u8(self.flags.bits());
        }
        assert(writer@ =~= old(writer)@ + self.wire(client_version, to_client));
        Ok(())
    }

    #[verifier::rlimit(60)]
    proof fn lemma_roundtrip(&self, client_version: ClientVersion, to_client: bool) {
        let w = self.wire(client_version, to_client);
        if client_version.spec_at_least(spec_version_high_seas()) {
            assert(w.subrange(2, 3) =~= seq![self.kind.spec_repr()]);
            assert(w.subrange(3, 7) =~= u32_be(self.id@));
            lemma_be_u32_roundtrip(self.id@, w, 3);
            assert(w.subrange(7, 9) =~= u16_be(self.graphic_id));
            lemma_be_u16_roundtrip(self.graphic_id, w, 7);
            assert(w.subrange(9, 10) =~= seq![self.graphic_inc]);
            assert(w.subrange(10, 12) =~= u16_be(self.quantity));
            lemma_be_u16_roundtrip(self.quantity, w, 10);
            assert(w.subrange(14, 16) =~= u16_be(self.position.x as u16));
            lemma_be_u16_roundtrip(self.position.x as u16, w, 14);
            assert(w.subrange(16, 18) =~= u16_be(self.position.y as u16));
            lemma_be_u16_roundtrip(self.position.y as u16, w, 16);
            assert(w.subrange(18, 19) =~= seq![self.position.z as u8]);
            assert(w.subrange(19, 20) =~= seq![self.direction.spec_repr()]);
            assert(w.subrange(20, 22) =~= u16_be(self.hue));
            lemma_be_u16_roundtrip(self.hue, w, 20);
            assert(w.subrange(22, 23) =~= seq![self.flags@]);
        } else {
            assert(w.subrange(2, 3) =~= seq![self.kind.spec_repr()]);
            assert(w.subrange(3, 7) =~= u32_be(self.id@));
            lemma_be_u32_roundtrip(self.id@, w, 3);
            assert(w.subrange(7, 9) =~= u16_be(self.graphic_id));
            lemma_be_u16_roundtrip(self.graphic_id, w, 7);
            assert(w.subrange(9, 10) =~= seq![self.graphic_inc]);
            assert(w.subrange(10, 12) =~= u16_be(self.quantity));
            lemma_be_u16_roundtrip(self.quantity, w, 10);
            assert(w.subrange(14, 16) =~= u16_be(self.position.x as u16));
            lemma_be_u16_roundtrip(self.position.x as u16, w, 14);
            assert(w.subrange(16, 18) =~= u16_be(self.position.y as u16));
            lemma_be_u16_roundtrip(self.position.y as u16, w, 16);
            assert(w.subrange(18, 19) =~= seq![self.position.z as u8]);
            assert(w.subrange(19, 20) =~= seq![self.direction.spec_repr()]);
            assert(w.subrange(20, 22) =~= u16_be(self.hue));
            lemma_be_u16_roundtrip(self.hue, w, 20);
            assert(w.subrange(22, 23) =~= seq![self.flags@]);
        }
    }
}

/// Removes an entity.
#[derive(Debug, Clone, Default)]
pub struct DeleteEntity {
    pub id: EntityId,
}

impl Packet for DeleteEntity {
    open spec fn spec_packet_kind() -> u8 {
        0x1d
    }

    open spec fn spec_fixed_length(client_version: ClientVersion) -> Option<usize> {
        Some(5)
    }

    open spec fn wire(&self, client_version: ClientVersion, to_client: bool) -> Seq<u8> {
        u32_be(self.id@)
    }

    open spec fn can_encode(&self, client_version: ClientVersion, to_client: bool) -> bool {
        true
    }

    open spec fn decode_error(client_version: ClientVersion, from_client: bool, s: Seq<u8>) -> Option<ProtocolError> {
        if s.len() < 4 {
            Some(ProtocolError::UnexpectedEof)
        } else {
            None
        }
    }

    open spec fn decodes_to(client_version: ClientVersion, from_client: bool, s: Seq<u8>, p: Self) -> bool {
        &&& p.id@ == be_u32(s, 0)
    }

    open spec fn roundtrips(&self, client_version: ClientVersion, to_client: bool) -> bool {
        true
    }

    fn packet_kind() -> (r: u8) {
        0x1d
    }

    fn fixed_length(client_version: ClientVersion) -> (r: Option<usize>) {
        Some(5)
    }

    fn decode(client_version: ClientVersion, from_client: bool, payload: &[u8]) -> (r: Result<Self, ProtocolError>) {
        let ghost s = payload@;
        let mut payload = payload;
        let id = payload.read_entity_id()?;
        assert(payload@ =~= s.skip(4));
        Ok(DeleteEntity { id })
    }

    fn encode(&self, client_version: ClientVersion, to_client: bool, writer: &mut Vec<u8>) -> (r: Result<(), ProtocolError>) {
        writer.write_entity_id(self.id);
        assert(writer@ =~= old(writer)@ + self.wire(client_version, to_client));
        Ok(())
    }

    proof fn lemma_roundtrip(&self, client_version: ClientVersion, to_client: bool) {
        let w = self.wire(client_version, to_client);
        assert(w.subrange(0, 4) =~= u32_be(self.id@));
        lemma_be_u32_roundtrip(self.id@, w, 0);
    }
}

/// The player's own character.
#[derive(Debug, Clone, Default)]
pub struct UpsertLocalPlayer {
    pub id: EntityId,
    pub body_type: u16,
    pub hue: u16,
    pub server_id: u16,
    pub flags: EntityFlags,
    pub position: IVec3,
    pub direction: Direction,
}

impl Packet for UpsertLocalPlayer {
    open spec fn spec_packet_kind() -> u8 {
        0x20
    }

    open spec fn spec_fixed_length(client_version: ClientVersion) -> Option<usize> {
        Some(19)
    }

    open spec fn wire(&self, client_version: ClientVersion, to_client: bool) -> Seq<u8> {
        u32_be(self.id@) + u16_be(self.body_type) + zeros(1) + u16_be(self.hue) + seq![self.flags@] + u16_be(self.position.x as u16) + u16_be(self.position.y as u16) + u16_be(self.server_id) + seq![self.direction.spec_repr()] + seq![self.position.z as u8]
    }

    open spec fn can_encode(&self, client_version: ClientVersion, to_client: bool) -> bool {
        true
    }

    open spec fn decode_error(client_version: ClientVersion, from_client: bool, s: Seq<u8>) -> Option<ProtocolError> {
        if s.len() < 17 {
            Some(ProtocolError::UnexpectedEof)
        } else if Direction::spec_from_repr(s[16]) is None {
            Some(ProtocolError::InvalidValue)
        } else if s.len() < 18 {
            Some(ProtocolError::UnexpectedEof)
        } else {
            None
        }
    }

    open spec fn decodes_to(client_version: ClientVersion, from_client: bool, s: Seq<u8>, p: Self) -> bool {
        &&& p.id@ == be_u32(s, 0)
        &&& p.body_type == be_u16(s, 4)
        &&& p.hue == be_u16(s, 7)
        &&& p.flags@ == (s[9] & EntityFlags::spec_all())
        &&& p.position.x == be_u16(s, 10) as i32
        &&& p.position.y == be_u16(s, 12) as i32
        &&& p.server_id == be_u16(s, 14)
        &&& Some(p.direction) == Direction::spec_from_repr(s[16])
        &&& p.position.z == s[17] as i32
    }

    open spec fn roundtrips(&self, client_version: ClientVersion, to_client: bool) -> bool {
        self.flags.spec_is_truncated() && 0 <= self.position.x <= 0xffff && 0 <= self.position.y <= 0xffff && 0 <= self.position.z <= 0xff
    }

    fn packet_kind() -> (r: u8) {
        0x20
    }

    fn fixed_length(client_version: ClientVersion) -> (r: Option<usize>) {
        Some(19)
    }

    fn decode(client_version: ClientVersion, from_client: bool, payload: &[u8]) -> (r: Result<Self, ProtocolError>) {
        let ghost s = payload@;
        let mut payload = payload;
        let id = payload.read_entity_id()?;
        assert(payload@ =~= s.skip(4));
        let body_type = payload.read_u16()?;
        assert(payload@ =~= s.skip(6));
        payload.skip(1)?;
        assert(payload@ =~= s.skip(7));
        let hue = payload.read_u16()?;
        assert(payload@ =~= s.skip(9));
        let flags = EntityFlags::from_bits_truncate(payload.read_u8()?);
        assert(payload@ =~= s.skip(10));
        let x = payload.read_u16()? as i32;
        assert(payload@ =~= s.skip(12));
        let y = payload.read_u16()? as i32;
        assert(payload@ =~= s.skip(14));
        let server_id = payload.read_u16()?;
        assert(payload@ =~= s.skip(16));
        let direction = payload.read_direction()?;
        assert(payload@ =~= s.skip(17));
        let z = payload.read_u8()? as i32;
        assert(payload@ =~= s.skip(18));
        Ok(UpsertLocalPlayer { id, body_type, hue, server_id, flags, position: IVec3::new(x, y, z), direction })
    }

    fn encode(&self, client_version: ClientVersion, to_client: bool, writer: &mut Vec<u8>) -> (r: Result<(), ProtocolError>) {
        writer.write_entity_id(self.id);
        writer.write_u16(self.body_type);
        writer.write_zeros(1);
        writer.write_u16(self.hue);
        writer.write_u8(self.flags.bits());
        writer.write_u16(self.position.x as u16);
        writer.write_u16(self.position.y as u16);
        writer.write_u16(self.server_id);
        writer.write_direction(self.direction);
        writer.write_u8(self.position.z as u8);
        assert(writer@ =~= old(writer)@ + self.wire(client_version, to_client));
        Ok(())
    }

    proof fn lemma_roundtrip(&self, client_version: ClientVersion, to_client: bool) {
        let w = self.wire(client_version, to_client);
        assert(w.subrange(0, 4) =~= u32_be(self.id@));
        lemma_be_u32_roundtrip(self.id@, w, 0);
        assert(w.subrange(4, 6) =~= u16_be(self.body_type));
        lemma_be_u16_roundtrip(self.body_type, w, 4);
        assert(w.subrange(7, 9) =~= u16_be(self.hue));
        lemma_be_u16_roundtrip(self.hue, w, 7);
        assert(w.subrange(9, 10) =~= seq![self.flags@]);
        assert(w.subrange(10, 12) =~= u16_be(self.position.x as u16));
        lemma_be_u16_roundtrip(self.position.x as u16, w, 10);
        assert(w.subrange(12, 14) =~= u16_be(self.position.y as u16));
        lemma_be_u16_roundtrip(self.position.y as u16, w, 12);
        assert(w.subrange(14, 16) =~= u16_be(self.server_id));
        lemma_be_u16_roundtrip(self.server_id, w, 14);
        assert(w.subrange(16, 17) =~= seq![self.direction.spec_repr()]);
        assert(w.subrange(17, 18) =~= seq![self.position.z as u8]);
    }
}

/// Where an item is worn.
#[derive(Debug, Clone, Copy, PartialEq, Eq, Structural, PartialOrd, Ord, Default)]
pub enum EquipmentSlot {
    #[default]
    Invalid,
    MainHand,
    BothHands,
    Shoes,
    Bottom,
    Top,
    Head,
    Hands,
    Ring,
    Talisman,
    Neck,
    Hair,
    Waist,
    InnerTorso,
    Bracelet,
    FacialHair,
    MiddleTorso,
    Earrings,
    Arms,
    Cloak,
    Backpack,
    OuterTorso,
    OuterLegs,
    InnerLegs,
    Mount,
    ShopBuy,
    ShopBuyback,
    ShopSell,
    Bank,
}

impl EquipmentSlot {
    pub open spec fn spec_from_repr(v: u8) -> Option<EquipmentSlot> {
        if v == 0 {
            Some(EquipmentSlot::Invalid)
        } else if v == 1 {
            Some(EquipmentSlot::MainHand)
        } else if v == 2 {
            Some(EquipmentSlot::BothHands)
        } else if v == 3 {
            Some(EquipmentSlot::Shoes)
        } else if v == 4 {
            Some(EquipmentSlot::Bottom)
        } else if v == 5 {
            Some(EquipmentSlot::Top)
        } else if v == 6 {
            Some(EquipmentSlot::Head)
        } else if v == 7 {
            Some(EquipmentSlot::Hands)
        } else if v == 8 {
            Some(EquipmentSlot::Ring)
        } else if v == 9 {
            Some(EquipmentSlot::Talisman)
        } else if v == 10 {
            Some(EquipmentSlot::Neck)
        } else if v == 11 {
            Some(EquipmentSlot::Hair)
        } else if v == 12 {
            Some(EquipmentSlot::Waist)
        } else if v == 13 {
            Some(EquipmentSlot::InnerTorso)
        } else if v == 14 {
            Some(EquipmentSlot::Bracelet)
        } else if v == 16 {
            Some(EquipmentSlot::FacialHair)
        } else if v == 17 {
            Some(EquipmentSlot::MiddleTorso)
        } else if v == 18 {
            Some(EquipmentSlot::Earrings)
        } else if v == 19 {
            Some(EquipmentSlot::Arms)
        } else if v == 20 {
            Some(EquipmentSlot::Cloak)
        } else if v == 21 {
            Some(EquipmentSlot::Backpack)
        } else if v == 22 {
            Some(EquipmentSlot::OuterTorso)
        } else if v == 23 {
            Some(EquipmentSlot::OuterLegs)
        } else if v == 24 {
            Some(EquipmentSlot::InnerLegs)
        } else if v == 25 {
            Some(EquipmentSlot::Mount)
        } else if v == 26 {
            Some(EquipmentSlot::ShopBuy)
        } else if v == 27 {
            Some(EquipmentSlot::ShopBuyback)
        } else if v == 28 {
            Some(EquipmentSlot::ShopSell)
        } else if v == 29 {
            Some(EquipmentSlot::Bank)
        } else {
            None
        }
    }

    pub open spec fn spec_repr(&self) -> u8 {
        match self {
            EquipmentSlot::Invalid => 0,
            EquipmentSlot::MainHand => 1,
            EquipmentSlot::BothHands => 2,
            EquipmentSlot::Shoes => 3,
            EquipmentSlot::Bottom => 4,
            EquipmentSlot::Top => 5,
            EquipmentSlot::Head => 6,
            EquipmentSlot::Hands => 7,
            EquipmentSlot::Ring => 8,
            EquipmentSlot::Talisman => 9,
            EquipmentSlot::Neck => 10,
            EquipmentSlot::Hair => 11,
            EquipmentSlot::Waist => 12,
            EquipmentSlot::InnerTorso => 13,
            EquipmentSlot::Bracelet => 14,
            EquipmentSlot::FacialHair => 16,
            EquipmentSlot::MiddleTorso => 17,
            EquipmentSlot::Earrings => 18,
            EquipmentSlot::Arms => 19,
            EquipmentSlot::Cloak => 20,
            EquipmentSlot::Backpack => 21,
            EquipmentSlot::OuterTorso => 22,
            EquipmentSlot::OuterLegs => 23,
            EquipmentSlot::InnerLegs => 24,
            EquipmentSlot::Mount => 25,
            EquipmentSlot::ShopBuy => 26,
            EquipmentSlot::ShopBuyback => 27,
            EquipmentSlot::ShopSell => 28,
            EquipmentSlot::Bank => 29,
        }
    }

    /// The value with the given wire representation, if there is one.
    pub fn from_repr(v: u8) -> (r: Option<EquipmentSlot>)
        ensures
            r == EquipmentSlot::spec_from_repr(v),
    {
        match v {
            0 => Some(EquipmentSlot::Invalid),
            1 => Some(EquipmentSlot::MainHand),
            2 => Some(EquipmentSlot::BothHands),
            3 => Some(EquipmentSlot::Shoes),
            4 => Some(EquipmentSlot::Bottom),
            5 => Some(EquipmentSlot::Top),
            6 => Some(EquipmentSlot::Head),
            7 => Some(EquipmentSlot::Hands),
            8 => Some(EquipmentSlot::Ring),
            9 => Some(EquipmentSlot::Talisman),
            10 => Some(EquipmentSlot::Neck),
            11 => Some(EquipmentSlot::Hair),
            12 => Some(EquipmentSlot::Waist),
            13 => Some(EquipmentSlot::InnerTorso),
            14 => Some(EquipmentSlot::Bracelet),
            16 => Some(EquipmentSlot::FacialHair),
            17 => Some(EquipmentSlot::MiddleTorso),
            18 => Some(EquipmentSlot::Earrings),
            19 => Some(EquipmentSlot::Arms),
            20 => Some(EquipmentSlot::Cloak),
            21 => Some(EquipmentSlot::Backpack),
            22 => Some(EquipmentSlot::OuterTorso),
            23 => Some(EquipmentSlot::OuterLegs),
            24 => Some(EquipmentSlot::InnerLegs),
            25 => Some(EquipmentSlot::Mount),
            26 => Some(EquipmentSlot::ShopBuy),
            27 => Some(EquipmentSlot::ShopBuyback),
            28 => Some(EquipmentSlot::ShopSell),
            29 => Some(EquipmentSlot::Bank),
            _ => None,
        }
    }

    /// The wire representation of this value.
    pub fn repr(&self) -> (r: u8)
        ensures
            r == self.spec_repr(),
            EquipmentSlot::spec_from_repr(r) == Some(*self),
    {
        match self {
            EquipmentSlot::Invalid => 0,
            EquipmentSlot::MainHand => 1,
            EquipmentSlot::BothHands => 2,
            EquipmentSlot::Shoes => 3,
            EquipmentSlot::Bottom => 4,
            EquipmentSlot::Top => 5,
            EquipmentSlot::Head => 6,
            EquipmentSlot::Hands => 7,
            EquipmentSlot::Ring => 8,
            EquipmentSlot::Talisman => 9,
            EquipmentSlot::Neck => 10,
            EquipmentSlot::Hair => 11,
            EquipmentSlot::Waist => 12,
            EquipmentSlot::InnerTorso => 13,
            EquipmentSlot::Bracelet => 14,
            EquipmentSlot::FacialHair => 16,
            EquipmentSlot::MiddleTorso => 17,
            EquipmentSlot::Earrings => 18,
            EquipmentSlot::Arms => 19,
            EquipmentSlot::Cloak => 20,
            EquipmentSlot::Backpack => 21,
            EquipmentSlot::OuterTorso => 22,
            EquipmentSlot::OuterLegs => 23,
            EquipmentSlot::InnerLegs => 24,
            EquipmentSlot::Mount => 25,
            EquipmentSlot::ShopBuy => 26,
            EquipmentSlot::ShopBuyback => 27,
            EquipmentSlot::ShopSell => 28,
            EquipmentSlot::Bank => 29,
        }
    }
}

/// The slot a slot byte names; bytes that name none give `Invalid`.
pub open spec fn slot_or_invalid(v: u8) -> EquipmentSlot {
    match EquipmentSlot::spec_from_repr(v) {
        Some(slot) => slot,
        None => EquipmentSlot::Invalid,
    }
}

/// An item worn by a character.
#[derive(Debug, Clone)]
pub struct UpsertEntityEquipped {
    pub id: EntityId,
    pub parent_id: EntityId,
    pub slot: EquipmentSlot,
    pub graphic_id: u16,
    pub hue: u16,
}

impl Packet for UpsertEntityEquipped {
    open spec fn spec_packet_kind() -> u8 {
        0x2e
    }

    open spec fn spec_fixed_length(client_version: ClientVersion) -> Option<usize> {
        Some(15)
    }

    open spec fn wire(&self, client_version: ClientVersion, to_client: bool) -> Seq<u8> {
        u32_be(self.id@) + u16_be(self.graphic_id) + zeros(1) + seq![self.slot.spec_repr()] + u32_be(self.parent_id@) + u16_be(self.hue)
    }

    open spec fn can_encode(&self, client_version: ClientVersion, to_client: bool) -> bool {
        true
    }

    open spec fn decode_error(client_version: ClientVersion, from_client: bool, s: Seq<u8>) -> Option<ProtocolError> {
        if s.len() < 14 {
            Some(ProtocolError::UnexpectedEof)
        } else {
            None
        }
    }

    open spec fn decodes_to(client_version: ClientVersion, from_client: bool, s: Seq<u8>, p: Self) -> bool {
        &&& p.id@ == be_u32(s, 0)
        &&& p.graphic_id == be_u16(s, 4)
        &&& p.slot == slot_or_invalid(s[7])
        &&& p.parent_id@ == be_u32(s, 8)
        &&& p.hue == be_u16(s, 12)
    }

    open spec fn roundtrips(&self, client_version: ClientVersion, to_client: bool) -> bool {
        true
    }

    fn packet_kind() -> (r: u8) {
        0x2e
    }

    fn fixed_length(client_version: ClientVersion) -> (r: Option<usize>) {
        Some(15)
    }

    fn decode(client_version: ClientVersion, from_client: bool, payload: &[u8]) -> (r: Result<Self, ProtocolError>) {
        let ghost s = payload@;
        let mut payload = payload;
        let id = payload.read_entity_id()?;
        assert(payload@ =~= s.skip(4));
        let graphic_id = payload.read_u16()?;
        assert(payload@ =~= s.skip(6));
        payload.skip(1)?;
        assert(payload@ =~= s.skip(7));
        let slot = match EquipmentSlot::from_repr(payload.read_u8()?) {
            Some(v) => v,
            None => EquipmentSlot::Invalid,
        };
        assert(payload@ =~= s.skip(8));
        let parent_id = payload.read_entity_id()?;
        assert(payload@ =~= s.skip(12));
        let hue = payload.read_u16()?;
        assert(payload@ =~= s.skip(14));
        Ok(UpsertEntityEquipped { id, parent_id, slot, graphic_id, hue })
    }

    fn encode(&self, client_version: ClientVersion, to_client: bool, writer: &mut Vec<u8>) -> (r: Result<(), ProtocolError>) {
        writer.write_entity_id(self.id);
        writer.write_u16(self.graphic_id);
        writer.write_zeros(1);
        writer.write_u8(self.slot.repr());
        writer.write_entity_id(self.parent_id);
        writer.write_u16(self.hue);
        assert(writer@ =~= old(writer)@ + self.wire(client_version, to_client));
        Ok(())
    }

    proof fn lemma_roundtrip(&self, client_version: ClientVersion, to_client: bool) {
        let w = self.wire(client_version, to_client);
        assert(w.subrange(0, 4) =~= u32_be(self.id@));
        lemma_be_u32_roundtrip(self.id@, w, 0);
        assert(w.subrange(4, 6) =~= u16_be(self.graphic_id));
        lemma_be_u16_roundtrip(self.graphic_id, w, 4);
        assert(w.subrange(7, 8) =~= seq![self.slot.spec_repr()]);
        assert(w.subrange(8, 12) =~= u32_be(self.parent_id@));
        lemma_be_u32_roundtrip(self.parent_id@, w, 8);
        assert(w.subrange(12, 14) =~= u16_be(self.hue));
        lemma_be_u16_roundtrip(self.hue, w, 12);
    }
}

/// The revision of an entity's tooltip.
#[derive(Debug, Clone)]
pub struct EntityTooltipVersion {
    pub id: EntityId,
    pub revision: u32,
}

impl Packet for EntityTooltipVersion {
    open spec fn spec_packet_kind() -> u8 {
        0xdc
    }

    open spec fn spec_fixed_length(client_version: ClientVersion) -> Option<usize> {
        Some(9)
    }

    open spec fn wire(&self, client_version: ClientVersion, to_client: bool) -> Seq<u8> {
        u32_be(self.id@) + u32_be(self.revision)
    }

    open spec fn can_encode(&self, client_version: ClientVersion, to_client: bool) -> bool {
        true
    }

    open spec fn decode_error(client_version: ClientVersion, from_client: bool, s: Seq<u8>) -> Option<ProtocolError> {
        if s.len() < 8 {
            Some(ProtocolError::UnexpectedEof)
        } else {
            None
        }
    }

    open spec fn decodes_to(client_version: ClientVersion, from_client: bool, s: Seq<u8>, p: Self) -> bool {
        &&& p.id@ == be_u32(s, 0)
        &&& p.revision == be_u32(s, 4)
    }

    open spec fn roundtrips(&self, client_version: ClientVersion, to_client: bool) -> bool {
        true
    }

    fn packet_kind() -> (r: u8) {
        0xdc
    }

    fn fixed_length(client_version: ClientVersion) -> (r: Option<usize>) {
        Some(9)
    }

    fn decode(client_version: ClientVersion, from_client: bool, payload: &[u8]) -> (r: Result<Self, ProtocolError>) {
        let ghost s = payload@;
        let mut payload = payload;
        let id = payload.read_entity_id()?;
        assert(payload@ =~= s.skip(4));
        let revision = payload.read_u32()?;
        assert(payload@ =~= s.skip(8));
        Ok(EntityTooltipVersion { id, revision })
    }

    fn encode(&self, client_version: ClientVersion, to_client: bool, writer: &mut Vec<u8>) -> (r: Result<(), ProtocolError>) {
        writer.write_entity_id(self.id);
        writer.write_u32(self.revision);
        assert(writer@ =~= old(writer)@ + self.wire(client_version, to_client));
        Ok(())
    }

    proof fn lemma_roundtrip(&self, client_version: ClientVersion, to_client: bool) {
        let w = self.wire(client_version, to_client);
        assert(w.subrange(0, 4) =~= u32_be(self.id@));
        lemma_be_u32_roundtrip(self.id@, w, 0);
        assert(w.subrange(4, 8) =~= u32_be(self.revision));
        lemma_be_u32_roundtrip(self.revision, w, 4);
    }
}

/// An item inside a container.
#[derive(Debug, Clone, Default)]
pub struct UpsertEntityContained {
    pub id: EntityId,
    pub graphic_id: u16,
    pub graphic_inc: u8,
    pub quantity: u16,
    pub position: IVec2,
    pub grid_index: u8,
    pub parent_id: EntityId,
    pub hue: u16,
}

impl Packet for UpsertEntityContained {
    open spec fn spec_packet_kind() -> u8 {
        0x25
    }

    open spec fn spec_fixed_length(client_version: ClientVersion) -> Option<usize> {
        if client_version.spec_at_least(spec_version_grid_inventory()) {
            Some(21)
        } else {
            Some(20)
        }
    }

    open spec fn wire(&self, client_version: ClientVersion, to_client: bool) -> Seq<u8> {
        if client_version.spec_at_least(spec_version_grid_inventory()) {
            u32_be(self.id@) + u16_be(self.graphic_id) + seq![self.graphic_inc] + u16_be(self.quantity) + u16_be(self.position.x as u16) + u16_be(self.position.y as u16) + seq![self.grid_index] + u32_be(self.parent_id@) + u16_be(self.hue)
        } else {
            u32_be(self.id@) + u16_be(self.graphic_id) + seq![self.graphic_inc] + u16_be(self.quantity) + u16_be(self.position.x as u16) + u16_be(self.position.y as u16) + Seq::<u8>::empty() + u32_be(self.parent_id@) + u16_be(self.hue)
        }
    }

    open spec fn can_encode(&self, client_version: ClientVersion, to_client: bool) -> bool {
        true
    }

    open spec fn decode_error(client_version: ClientVersion, from_client: bool, s: Seq<u8>) -> Option<ProtocolError> {
        if client_version.spec_at_least(spec_version_grid_inventory()) {
            if s.len() < 20 {
                Some(ProtocolError::UnexpectedEof)
            } else {
                None
            }
        } else {
            if s.len() < 19 {
                Some(ProtocolError::UnexpectedEof)
            } else {
                None
            }
        }
    }

    open spec fn decodes_to(client_version: ClientVersion, from_client: bool, s: Seq<u8>, p: Self) -> bool {
        if client_version.spec_at_least(spec_version_grid_inventory()) {
            &&& p.id@ == be_u32(s, 0)
            &&& p.graphic_id == be_u16(s, 4)
            &&& p.graphic_inc == s[6]
            &&& p.quantity == be_u16(s, 7)
            &&& p.position.x == be_u16(s, 9) as i32
            &&& p.position.y == be_u16(s, 11) as i32
            &&& p.grid_index == s[13]
            &&& p.parent_id@ == be_u32(s, 14)
            &&& p.hue == be_u16(s, 18)
        } else {
            &&& p.id@ == be_u32(s, 0)
            &&& p.graphic_id == be_u16(s, 4)
            &&& p.graphic_inc == s[6]
            &&& p.quantity == be_u16(s, 7)
            &&& p.position.x == be_u16(s, 9) as i32
            &&& p.position.y == be_u16(s, 11) as i32
            &&& p.grid_index == 0
            &&& p.parent_id@ == be_u32(s, 13)
            &&& p.hue == be_u16(s, 17)
        }
    }

    open spec fn roundtrips(&self, client_version: ClientVersion, to_client: bool) -> bool {
        if client_version.spec_at_least(spec_version_grid_inventory()) {
            0 <= self.position.x <= 0xffff && 0 <= self.position.y <= 0xffff
        } else {
            0 <= self.position.x <= 0xffff && 0 <= self.position.y <= 0xffff && self.grid_index == 0
        }
    }

    fn packet_kind() -> (r: u8) {
        0x25
    }

    fn fixed_length(client_version: ClientVersion) -> (r: Option<usize>) {
        if client_version.at_least(version_grid_inventory()) {
            Some(21)
        } else {
            Some(20)
        }
    }

    fn decode(client_version: ClientVersion, from_client: bool, payload: &[u8]) -> (r: Result<Self, ProtocolError>) {
        let ghost s = payload@;
        let mut payload = payload;
        if client_version.at_least(version_grid_inventory()) {
            let id = payload.read_entity_id()?;
            assert(payload@ =~= s.skip(4));
            let graphic_id = payload.read_u16()?;
            assert(payload@ =~= s.skip(6));
            let graphic_inc = payload.read_u8()?;
            assert(payload@ =~= s.skip(7));
            let quantity = payload.read_u16()?;
            assert(payload@ =~= s.skip(9));
            let x = payload.read_u16()? as i32;
            assert(payload@ =~= s.skip(11));
            let y = payload.read_u16()? as i32;
            assert(payload@ =~= s.skip(13));
            let grid_index = payload.read_u8()?;
            assert(payload@ =~= s.skip(14));
            let parent_id = payload.read_entity_id()?;
            assert(payload@ =~= s.skip(18));
            let hue = payload.read_u16()?;
            assert(payload@ =~= s.skip(20));
            Ok(UpsertEntityContained { id, graphic_id, graphic_inc, quantity, position: IVec2::new(x, y), grid_index, parent_id, hue })
        } else {
            let id = payload.read_entity_id()?;
            assert(payload@ =~= s.skip(4));
            let graphic_id = payload.read_u16()?;
            assert(payload@ =~= s.skip(6));
            let graphic_inc = payload.read_u8()?;
            assert(payload@ =~= s.skip(7));
            let quantity = payload.read_u16()?;
            assert(payload@ =~= s.skip(9));
            let x = payload.read_u16()? as i32;
            assert(payload@ =~= s.skip(11));
            let y = payload.read_u16()? as i32;
            assert(payload@ =~= s.skip(13));
            let grid_index = 0u8;
            assert(payload@ =~= s.skip(13));
            let parent_id = payload.read_entity_id()?;
            assert(payload@ =~= s.skip(17));
            let hue = payload.read_u16()?;
            assert(payload@ =~= s.skip(19));
            Ok(UpsertEntityContained { id, graphic_id, graphic_inc, quantity, position: IVec2::new(x, y), grid_index, parent_id, hue })
        }
    }

    fn encode(&self, client_version: ClientVersion, to_client: bool, writer: &mut Vec<u8>) -> (r: Result<(), ProtocolError>) {
        if client_version.at_least(version_grid_inventory()) {
            writer.write_entity_id(self.id);
            writer.write_u16(self.graphic_id);
            writer.write_u8(self.graphic_inc);
            writer.write_u16(self.quantity);
            writer.write_u16(self.position.x as u16);
            writer.write_u16(self.position.y as u16);
            writer.write_u8(self.grid_index);
            writer.write_entity_id(self.parent_id);
            writer.write_u16(self.hue);
        } else {
            writer.write_entity_id(self.id);
            writer.write_u16(self.graphic_id);
            writer.write_u8(self.graphic_inc);
            writer.write_u16(self.quantity);
            writer.write_u16(self.position.x as u16);
            writer.write_u16(self.position.y as u16);

            writer.write_entity_id(self.parent_id);
            writer.write_u16(self.hue);
        }
        assert(writer@ =~= old(writer)@ + self.wire(client_version, to_client));
        Ok(())
    }

    proof fn lemma_roundtrip(&self, client_version: ClientVersion, to_client: bool) {
        let w = self.wire(client_version, to_client);
        if client_version.spec_at_least(spec_version_grid_inventory()) {
            assert(w.subrange(0, 4) =~= u32_be(self.id@));
            lemma_be_u32_roundtrip(self.id@, w, 0);
            assert(w.subrange(4, 6) =~= u16_be(self.graphic_id));
            lemma_be_u16_roundtrip(self.graphic_id, w, 4);
            assert(w.subrange(6, 7) =~= seq![self.graphic_inc]);
            assert(w.subrange(7, 9) =~= u16_be(self.quantity));
            lemma_be_u16_roundtrip(self.quantity, w, 7);
            assert(w.subrange(9, 11) =~= u16_be(self.position.x as u16));
            lemma_be_u16_roundtrip(self.position.x as u16, w, 9);
            assert(w.subrange(11, 13) =~= u16_be(self.position.y as u16));
            lemma_be_u16_roundtrip(self.position.y as u16, w, 11);
            assert(w.subrange(13, 14) =~= seq![self.grid_index]);
            assert(w.subrange(14, 18) =~= u32_be(self.parent_id@));
            lemma_be_u32_roundtrip(self.parent_id@, w, 14);
            assert(w.subrange(18, 20) =~= u16_be(self.hue));
            lemma_be_u16_roundtrip(self.hue, w, 18);
        } else {
            assert(w.subrange(0, 4) =~= u32_be(self.id@));
            lemma_be_u32_roundtrip(self.id@, w, 0);
            assert(w.subrange(4, 6) =~= u16_be(self.graphic_id));
            lemma_be_u16_roundtrip(self.graphic_id, w, 4);
            assert(w.subrange(6, 7) =~= seq![self.graphic_inc]);
            assert(w.subrange(7, 9) =~= u16_be(self.quantity));
            lemma_be_u16_roundtrip(self.quantity, w, 7);
            assert(w.subrange(9, 11) =~= u16_be(self.position.x as u16));
            lemma_be_u16_roundtrip(self.position.x as u16, w, 9);
            assert(w.subrange(11, 13) =~= u16_be(self.position.y as u16));
            lemma_be_u16_roundtrip(self.position.y as u16, w, 11);
            assert(w.subrange(13, 13) =~= Seq::<u8>::empty());
            assert(w.subrange(13, 17) =~= u32_be(self.parent_id@));
            lemma_be_u32_roundtrip(self.parent_id@, w, 13);
            assert(w.subrange(17, 19) =~= u16_be(self.hue));
            lemma_be_u16_roundtrip(self.hue, w, 17);
        }
    }
}

/// An item worn by a character, as listed with the character.
#[derive(Debug, Clone, Default)]
pub struct CharacterEquipment {
    pub id: EntityId,
    pub graphic_id: u16,
    pub slot: EquipmentSlot,
    pub hue: u16,
}

/// A character with what it wears.
#[derive(Debug, Clone, Default)]
pub struct UpsertEntityCharacter {
    pub id: EntityId,
    pub body_type: u16,
    pub position: IVec3,
    pub direction: Direction,
    pub hue: u16,
    pub flags: EntityFlags,
    pub notoriety: Notoriety,
    pub equipment: Vec<CharacterEquipment>,
}

/// The first client version that receives a hue with every worn item.
pub open spec fn spec_min_version_hue() -> ClientVersion {
    ClientVersion { major: 7, minor: 0, patch: 33, build: 1 }
}

pub fn min_version_hue() -> (r: ClientVersion)
    ensures
        r == spec_min_version_hue(),
{
    ClientVersion::new(7, 0, 33, 1)
}

/// The bytes of one worn item. Before the hue version, a hue is written only
/// when it is not zero, announced by the top bit of the graphic.
pub open spec fn equipment_entry_wire(new_hue: bool, e: CharacterEquipment) -> Seq<u8> {
    u32_be(e.id@) + u16_be(
        if new_hue || e.hue == 0 {
            e.graphic_id
        } else {
            e.graphic_id | 0x8000
        },
    ) + seq![e.slot.spec_repr()] + if new_hue || e.hue != 0 {
        u16_be(e.hue)
    } else {
        Seq::empty()
    }
}

/// The bytes of a list of worn items, without the terminating zero id.
pub open spec fn equipment_wire(new_hue: bool, items: Seq<CharacterEquipment>) -> Seq<u8>
    decreases items.len(),
{
    if items.len() == 0 {
        Seq::empty()
    } else {
        equipment_entry_wire(new_hue, items[0]) + equipment_wire(new_hue, items.skip(1))
    }
}

/// Reads worn items from position `pos` up to a zero id: the items, or the
/// error reading stops with.
pub open spec fn decode_equipment(new_hue: bool, s: Seq<u8>, pos: int) -> Result<Seq<CharacterEquipment>, ProtocolError>
    decreases s.len() - pos,
{
    if pos < 0 || s.len() < pos + 4 {
        Err(ProtocolError::UnexpectedEof)
    } else if be_u32(s, pos) == 0 {
        Ok(Seq::empty())
    } else if s.len() < pos + 7 {
        Err(ProtocolError::UnexpectedEof)
    } else {
        let g = be_u16(s, pos + 4);
        let has_hue = new_hue || g & 0x8000 != 0;
        if has_hue && s.len() < pos + 9 {
            Err(ProtocolError::UnexpectedEof)
        } else {
            let e = CharacterEquipment {
                id: EntityId::spec_from_u32(be_u32(s, pos)),
                graphic_id: g & 0x7fff,
                slot: slot_or_invalid(s[pos + 6]),
                hue: if has_hue {
                    be_u16(s, pos + 7)
                } else {
                    0
                },
            };
            let next = pos + if has_hue {
                9int
            } else {
                7int
            };
            match decode_equipment(new_hue, s, next) {
                Ok(rest) => Ok(seq![e] + rest),
                Err(err) => Err(err),
            }
        }
    }
}

/// Worn items that survive the list encoding: a non-zero id and a graphic of
/// fifteen bits.
pub open spec fn equipment_roundtrips(e: CharacterEquipment) -> bool {
    e.id@ != 0 && e.graphic_id <= 0x7fff
}

proof fn lemma_equipment_entry_len(new_hue: bool, e: CharacterEquipment)
    ensures
        equipment_entry_wire(new_hue, e).len() == if new_hue || e.hue != 0 {
            9int
        } else {
            7int
        },
{
}

#[verifier::rlimit(50)]
proof fn lemma_equipment_roundtrip(new_hue: bool, s: Seq<u8>, pos: int, items: Seq<CharacterEquipment>)
    requires
        0 <= pos,
        forall|i: int| 0 <= i < items.len() ==> equipment_roundtrips(#[trigger] items[i]),
        pos + equipment_wire(new_hue, items).len() + 4 <= s.len(),
        s.subrange(pos, pos + equipment_wire(new_hue, items).len() + 4) == equipment_wire(new_hue, items)
            + u32_be(0),
    ensures
        decode_equipment(new_hue, s, pos) == Ok::<Seq<CharacterEquipment>, ProtocolError>(items),
    decreases items.len(),
{
    let ws = equipment_wire(new_hue, items);
    let sub = s.subrange(pos, pos + ws.len() + 4);
    if items.len() == 0 {
        assert(ws =~= Seq::<u8>::empty());
        assert(s.subrange(pos, pos + 4) =~= u32_be(0));
        lemma_be_u32_roundtrip(0, s, pos);
        assert(items =~= Seq::<CharacterEquipment>::empty());
    } else {
        let e = items[0];
        let ew = equipment_entry_wire(new_hue, e);
        let tail = items.skip(1);
        let wt = equipment_wire(new_hue, tail);
        lemma_equipment_entry_len(new_hue, e);
        assert(ws == ew + wt);
        assert forall|k: int| 0 <= k < ew.len() implies #[trigger] s[pos + k] == ew[k] by {
            assert(sub[k] == s[pos + k]);
            assert(sub[k] == (ew + wt + u32_be(0))[k]);
        }
        let n = ew.len() as int;
        assert(s.subrange(pos + n, pos + n + wt.len() + 4) =~= wt + u32_be(0)) by {
            assert forall|k: int| 0 <= k < wt.len() + 4 implies #[trigger] s.subrange(
                pos + n,
                pos + n + wt.len() + 4,
            )[k] == (wt + u32_be(0))[k] by {
                assert(sub[n + k] == s[pos + n + k]);
                assert(sub[n + k] == (ew + wt + u32_be(0))[n + k]);
            }
        }
        assert forall|i: int| 0 <= i < tail.len() implies equipment_roundtrips(#[trigger] tail[i]) by {
            assert(tail[i] == items[i + 1]);
        }
        lemma_equipment_roundtrip(new_hue, s, pos + n, tail);
        assert(ew.subrange(0, 4) =~= u32_be(e.id@));
        assert(s.subrange(pos, pos + 4) =~= u32_be(e.id@)) by {
            assert forall|k: int| 0 <= k < 4 implies #[trigger] s.subrange(pos, pos + 4)[k] == u32_be(
                e.id@,
            )[k] by {
                assert(s[pos + k] == ew[k]);
            }
        }
        assert(s[pos + 6] == ew[6]);
        lemma_be_u32_roundtrip(e.id@, s, pos);
        let gid = e.graphic_id;
        let gw: u16 = if new_hue || e.hue == 0 {
            gid
        } else {
            gid | 0x8000
        };
        assert(ew.subrange(4, 6) =~= u16_be(gw));
        assert(s.subrange(pos + 4, pos + 6) =~= u16_be(gw)) by {
            assert forall|k: int| 0 <= k < 2 implies #[trigger] s.subrange(pos + 4, pos + 6)[k] == u16_be(
                gw,
            )[k] by {
                assert(s[pos + (4 + k)] == ew[4 + k]);
            }
        }
        lemma_be_u16_roundtrip(gw, s, pos + 4);
        assert(gid & 0x8000u16 == 0 && gid & 0x7fffu16 == gid && (gid | 0x8000u16) & 0x8000u16 != 0 && (gid
            | 0x8000u16) & 0x7fffu16 == gid) by (bit_vector)
            requires
                gid <= 0x7fffu16,
        ;
        assert(s[pos + 6] == e.slot.spec_repr());
        if new_hue || e.hue != 0 {
            assert(ew.subrange(7, 9) =~= u16_be(e.hue));
            assert(s.subrange(pos + 7, pos + 9) =~= u16_be(e.hue)) by {
                assert forall|k: int| 0 <= k < 2 implies #[trigger] s.subrange(pos + 7, pos + 9)[k]
                    == u16_be(e.hue)[k] by {
                    assert(s[pos + (7 + k)] == ew[7 + k]);
                }
            }
            lemma_be_u16_roundtrip(e.hue, s, pos + 7);
        }
        EntityId::lemma_spec_from_u32(e.id@);
        assert(EquipmentSlot::spec_from_repr(e.slot.spec_repr()) == Some(e.slot)) by {
            match e.slot {
                EquipmentSlot::Invalid => {},
                _ => {},
            }
        }
        let has_hue = new_hue || be_u16(s, pos + 4) & 0x8000 != 0;
        assert(has_hue == (new_hue || e.hue != 0));
        let decoded = CharacterEquipment {
            id: EntityId::spec_from_u32(be_u32(s, pos)),
            graphic_id: be_u16(s, pos + 4) & 0x7fff,
            slot: slot_or_invalid(s[pos + 6]),
            hue: if has_hue {
                be_u16(s, pos + 7)
            } else {
                0
            },
        };
        assert(decoded == e);
        let next = pos + if has_hue {
            9int
        } else {
            7int
        };
        assert(next == pos + n);
        assert(be_u32(s, pos) != 0);
        assert(s.len() >= pos + 9 || !has_hue);
        assert(decode_equipment(new_hue, s, next) == Ok::<Seq<CharacterEquipment>, ProtocolError>(tail));
        assert(decode_equipment(new_hue, s, pos) == Ok::<Seq<CharacterEquipment>, ProtocolError>(seq![decoded] + tail));
        assert(seq![e] + tail =~= items);
    }
}

impl UpsertEntityCharacter {
    fn decode_equipment_list(new_hue: bool, payload: &mut &[u8]) -> (r: Result<Vec<CharacterEquipment>, ProtocolError>)
        ensures
            match decode_equipment(new_hue, old(payload)@, 0) {
                Ok(items) => r matches Ok(v) && v@ == items,
                Err(e) => r == Err::<Vec<CharacterEquipment>, ProtocolError>(e),
            },
    {
        let ghost s = payload@;
        let ghost target = decode_equipment(new_hue, s, 0);
        let mut equipment: Vec<CharacterEquipment> = Vec::new();
        proof {
            assert(payload@ =~= s.skip(0));
            match target {
                Ok(rest) => {
                    assert(equipment@ + rest =~= rest);
                },
                Err(_) => {},
            }
        }
        loop
            invariant
                s == old(payload)@,
                target == decode_equipment(new_hue, s, 0),
                payload@.len() <= s.len(),
                payload@ == s.skip(s.len() - payload@.len()),
                target == match decode_equipment(new_hue, s, s.len() - payload@.len()) {
                    Ok(rest) => Ok(equipment@ + rest),
                    Err(e) => Err(e),
                },
            decreases payload@.len(),
        {
            let ghost pos = s.len() - payload@.len();
            let child_id = match payload.read_entity_id() {
                Ok(v) => v,
                Err(e) => {
                    return Err(e);
                },
            };
            if !child_id.is_valid() {
                proof {
                    assert(equipment@ + Seq::<CharacterEquipment>::empty() =~= equipment@);
                }
                return Ok(equipment);
            }
            let mut graphic_id = match payload.read_u16() {
                Ok(v) => v,
                Err(e) => {
                    return Err(e);
                },
            };
            let slot = match payload.read_u8() {
                Ok(b) => match EquipmentSlot::from_repr(b) {
                    Some(v) => v,
                    None => EquipmentSlot::Invalid,
                },
                Err(e) => {
                    return Err(e);
                },
            };
            proof {
                assert(payload@ =~= s.skip(pos + 7));
            }
            let hue = if new_hue {
                match payload.read_u16() {
                    Ok(v) => v,
                    Err(e) => {
                        return Err(e);
                    },
                }
            } else if graphic_id & 0x8000 != 0 {
                graphic_id = graphic_id & 0x7fff;
                match payload.read_u16() {
                    Ok(v) => v,
                    Err(e) => {
                        return Err(e);
                    },
                }
            } else {
                0
            };
            let ghost eq0 = equipment@;
            let item = CharacterEquipment { id: child_id, graphic_id: graphic_id & 0x7fff, slot, hue };
            proof {
                let g = be_u16(s, pos + 4);
                assert((g & 0x7fffu16) & 0x7fffu16 == g & 0x7fffu16) by (bit_vector);
                assert(s.len() - payload@.len() > pos);
            }
            equipment.push(item);
            proof {
                match decode_equipment(new_hue, s, s.len() - payload@.len()) {
                    Ok(rest) => {
                        assert(eq0 + (seq![item] + rest) =~= equipment@ + rest);
                    },
                    Err(_) => {},
                }
            }
        }
    }
}

impl Packet for UpsertEntityCharacter {
    open spec fn spec_packet_kind() -> u8 {
        0x78
    }

    open spec fn spec_fixed_length(client_version: ClientVersion) -> Option<usize> {
        None
    }

    open spec fn wire(&self, client_version: ClientVersion, to_client: bool) -> Seq<u8> {
        let new_hue = client_version.spec_at_least(spec_min_version_hue());
        u32_be(self.id@) + u16_be(self.body_type) + u16_be(self.position.x as u16) + u16_be(self.position.y as u16)
            + seq![self.position.z as u8] + seq![self.direction.spec_repr()] + u16_be(self.hue) + seq![self.flags@]
            + seq![self.notoriety.spec_repr()] + equipment_wire(new_hue, self.equipment@) + u32_be(0)
    }

    open spec fn can_encode(&self, client_version: ClientVersion, to_client: bool) -> bool {
        true
    }

    open spec fn decode_error(client_version: ClientVersion, from_client: bool, s: Seq<u8>) -> Option<ProtocolError> {
        if s.len() < 12 {
            Some(ProtocolError::UnexpectedEof)
        } else if Direction::spec_from_repr(s[11]) is None {
            Some(ProtocolError::InvalidValue)
        } else if s.len() < 16 {
            Some(ProtocolError::UnexpectedEof)
        } else if Notoriety::spec_from_repr(s[15]) is None {
            Some(ProtocolError::InvalidValue)
        } else {
            match decode_equipment(client_version.spec_at_least(spec_min_version_hue()), s.skip(16), 0) {
                Ok(_) => None,
                Err(e) => Some(e),
            }
        }
    }

    open spec fn decodes_to(client_version: ClientVersion, from_client: bool, s: Seq<u8>, p: Self) -> bool {
        &&& p.id@ == be_u32(s, 0)
        &&& p.body_type == be_u16(s, 4)
        &&& p.position.x == be_u16(s, 6) as i32
        &&& p.position.y == be_u16(s, 8) as i32
        &&& p.position.z == s[10] as i32
        &&& Some(p.direction) == Direction::spec_from_repr(s[11])
        &&& p.hue == be_u16(s, 12)
        &&& p.flags@ == (s[14] & EntityFlags::spec_all())
        &&& Some(p.notoriety) == Notoriety::spec_from_repr(s[15])
        &&& decode_equipment(client_version.spec_at_least(spec_min_version_hue()), s.skip(16), 0)
            == Ok::<Seq<CharacterEquipment>, ProtocolError>(p.equipment@)
    }

    /// Coordinates that fit their fields, defined flags, and worn items that
    /// survive the list encoding.
    open spec fn roundtrips(&self, client_version: ClientVersion, to_client: bool) -> bool {
        &&& 0 <= self.position.x <= 0xffff
        &&& 0 <= self.position.y <= 0xffff
        &&& 0 <= self.position.z <= 0xff
        &&& self.flags.spec_is_truncated()
        &&& forall|i: int| 0 <= i < self.equipment@.len() ==> equipment_roundtrips(#[trigger] self.equipment@[i])
    }

    fn packet_kind() -> (r: u8) {
        0x78
    }

    fn fixed_length(client_version: ClientVersion) -> (r: Option<usize>) {
        None
    }

    fn decode(client_version: ClientVersion, from_client: bool, payload: &[u8]) -> (r: Result<Self, ProtocolError>) {
        let ghost s = payload@;
        let mut payload = payload;
        let id = payload.read_entity_id()?;
        let body_type = payload.read_u16()?;
        let x = payload.read_u16()? as i32;
        let y = payload.read_u16()? as i32;
        let z = payload.read_u8()? as i32;
        proof {
            assert(payload@ =~= s.skip(11));
        }
        let direction = payload.read_direction()?;
        let hue = payload.read_u16()?;
        let flags = EntityFlags::from_bits_truncate(payload.read_u8()?);
        proof {
            assert(payload@ =~= s.skip(15));
        }
        let notoriety = match Notoriety::from_repr(payload.read_u8()?) {
            Some(v) => v,
            None => return Err(ProtocolError::InvalidValue),
        };
        proof {
            assert(payload@ =~= s.skip(16));
        }
        let new_hue = client_version.at_least(min_version_hue());
        let equipment = Self::decode_equipment_list(new_hue, &mut payload)?;
        Ok(UpsertEntityCharacter {
            id,
            body_type,
            position: IVec3::new(x, y, z),
            direction,
            hue,
            flags,
            notoriety,
            equipment,
        })
    }

    fn encode(&self, client_version: ClientVersion, to_client: bool, writer: &mut Vec<u8>) -> (r: Result<(), ProtocolError>) {
        let new_hue = client_version.at_least(min_version_hue());
        writer.write_entity_id(self.id);
        writer.write_u16(self.body_type);
        writer.write_u16(self.position.x as u16);
        writer.write_u16(self.position.y as u16);
        writer.write_u8(self.position.z as u8);
        writer.write_direction(self.direction);
        writer.write_u16(self.hue);
        writer.write_u8(self.flags.bits());
        writer.write_u8(self.notoriety.repr());
        let ghost head = writer@;
        let mut i: usize = 0;
        proof {
            assert(self.equipment@.skip(0) =~= self.equipment@);
            assert(head + equipment_wire(new_hue, self.equipment@) =~= writer@ + equipment_wire(
                new_hue,
                self.equipment@.skip(0),
            ));
        }
        while i < self.equipment.len()
            invariant
                i <= self.equipment@.len(),
                head + equipment_wire(new_hue, self.equipment@) == writer@ + equipment_wire(
                    new_hue,
                    self.equipment@.skip(i as int),
                ),
            decreases self.equipment@.len() - i,
        {
            let item = &self.equipment[i];
            let ghost rest = self.equipment@.skip(i as int);
            let ghost before = writer@;
            proof {
                assert(rest[0] == *item);
                assert(rest.skip(1) =~= self.equipment@.skip(i + 1));
            }
            writer.write_entity_id(item.id);
            if new_hue || item.hue == 0 {
                writer.write_u16(item.graphic_id);
            } else {
                writer.write_u16(item.graphic_id | 0x8000);
            }
            writer.write_u8(item.slot.repr());
            if new_hue || item.hue != 0 {
                writer.write_u16(item.hue);
            }
            proof {
                assert(writer@ =~= before + equipment_entry_wire(new_hue, *item));
                assert(before + equipment_wire(new_hue, rest) =~= writer@ + equipment_wire(
                    new_hue,
                    self.equipment@.skip(i + 1),
                ));
            }
            i += 1;
        }
        writer.write_entity_id(EntityId::zero());
        proof {
            assert(self.equipment@.skip(i as int) =~= Seq::<CharacterEquipment>::empty());
        }
        assert(writer@ =~= old(writer)@ + self.wire(client_version, to_client));
        Ok(())
    }

    #[verifier::rlimit(50)]
    proof fn lemma_roundtrip(&self, client_version: ClientVersion, to_client: bool) {
        let w = self.wire(client_version, to_client);
        let new_hue = client_version.spec_at_least(spec_min_version_hue());
        assert(w.subrange(0, 4) =~= u32_be(self.id@));
        lemma_be_u32_roundtrip(self.id@, w, 0);
        assert(w.subrange(4, 6) =~= u16_be(self.body_type));
        lemma_be_u16_roundtrip(self.body_type, w, 4);
        assert(w.subrange(6, 8) =~= u16_be(self.position.x as u16));
        lemma_be_u16_roundtrip(self.position.x as u16, w, 6);
        assert(w.subrange(8, 10) =~= u16_be(self.position.y as u16));
        lemma_be_u16_roundtrip(self.position.y as u16, w, 8);
        assert(w.subrange(12, 14) =~= u16_be(self.hue));
        lemma_be_u16_roundtrip(self.hue, w, 12);
        let ew = equipment_wire(new_hue, self.equipment@);
        assert(w.skip(16) =~= ew + u32_be(0));
        assert(w.skip(16).subrange(0, ew.len() + 4int) =~= ew + u32_be(0));
        lemma_equipment_roundtrip(new_hue, w.skip(16), 0, self.equipment@);
    }
}

/// An entity's tooltip: the client asks for those of some entities; the
/// server answers for one, with numbered texts and their parameters.
#[derive(Debug, Clone)]
pub enum EntityTooltip {
    Request(Vec<EntityId>),
    Response { id: EntityId, entries: Vec<(u32, String)> },
}

/// The bytes of a list of ids.
pub open spec fn ids_wire(ids: Seq<EntityId>) -> Seq<u8>
    decreases ids.len(),
{
    if ids.len() == 0 {
        Seq::empty()
    } else {
        ids_wire(ids.drop_last()) + u32_be(ids.last()@)
    }
}

/// The ids a request lists.
pub open spec fn ids_of(s: Seq<u8>) -> Seq<EntityId> {
    Seq::new(s.len() / 4, |i: int| EntityId::spec_from_u32(be_u32(s, 4 * i)))
}

/// The bytes of the tooltip entries: each text number and its parameters.
pub open spec fn tooltip_entries_wire(entries: Seq<(u32, Seq<char>)>) -> Seq<u8>
    decreases entries.len(),
{
    if entries.len() == 0 {
        Seq::empty()
    } else {
        u32_be(entries[0].0) + utf16_pascal_bytes(entries[0].1) + tooltip_entries_wire(entries.skip(1))
    }
}

/// Reads tooltip entries from `pos` up to a zero text number.
pub open spec fn decode_tooltip_entries(s: Seq<u8>, pos: int) -> Result<Seq<(u32, Seq<char>)>, ProtocolError>
    decreases s.len() - pos,
{
    if pos < 0 || s.len() < pos + 4 {
        Err(ProtocolError::UnexpectedEof)
    } else if be_u32(s, pos) == 0 {
        Ok(Seq::empty())
    } else if s.len() < pos + 6 || s.len() < pos + 6 + 2 * be_u16(s, pos + 4) {
        Err(ProtocolError::UnexpectedEof)
    } else {
        let n = be_u16(s, pos + 4) as int;
        let e = (be_u32(s, pos), utf16_decode_lossy(be_units(s.subrange(pos + 6, pos + 6 + 2 * n))));
        match decode_tooltip_entries(s, pos + 6 + 2 * n) {
            Ok(rest) => Ok(seq![e] + rest),
            Err(err) => Err(err),
        }
    }
}

/// An entry that survives the encoding: a non-zero number, and parameters
/// whose length fits its field.
pub open spec fn tooltip_entry_roundtrips(e: (u32, Seq<char>)) -> bool {
    e.0 != 0 && fits_utf16_pascal(e.1)
}

/// The entries as numbers and texts.
pub open spec fn tooltip_entries_view(entries: Seq<(u32, String)>) -> Seq<(u32, Seq<char>)> {
    entries.map_values(|e: (u32, String)| (e.0, e.1@))
}

proof fn lemma_ids_wire_len(ids: Seq<EntityId>)
    ensures
        ids_wire(ids).len() == 4 * ids.len(),
    decreases ids.len(),
{
    if ids.len() > 0 {
        lemma_ids_wire_len(ids.drop_last());
    }
}

proof fn lemma_ids_roundtrip(ids: Seq<EntityId>)
    ensures
        ids_wire(ids).len() == 4 * ids.len(),
        ids_of(ids_wire(ids)) == ids,
    decreases ids.len(),
{
    lemma_ids_wire_len(ids);
    if ids.len() > 0 {
        let init = ids.drop_last();
        lemma_ids_roundtrip(init);
        let w = ids_wire(ids);
        let wi = ids_wire(init);
        assert(w == wi + u32_be(ids.last()@));
        assert forall|i: int| 0 <= i < ids.len() implies #[trigger] ids_of(w)[i] == ids[i] by {
            if i < init.len() {
                assert(w.subrange(4 * i, 4 * i + 4) =~= wi.subrange(4 * i, 4 * i + 4));
                assert(wi.subrange(4 * i, 4 * i + 4) =~= u32_be(init[i]@)) by {
                    assert(ids_of(wi)[i] == init[i]);
                    lemma_ids_slot(init, i);
                }
                lemma_be_u32_roundtrip(init[i]@, w, 4 * i);
            } else {
                assert(w.subrange(4 * i, 4 * i + 4) =~= u32_be(ids.last()@));
                lemma_be_u32_roundtrip(ids.last()@, w, 4 * i);
            }
            EntityId::lemma_spec_from_u32(ids[i]@);
        }
        assert(ids_of(w) =~= ids);
    }
}

proof fn lemma_ids_slot(ids: Seq<EntityId>, i: int)
    requires
        0 <= i < ids.len(),
    ensures
        ids_wire(ids).subrange(4 * i, 4 * i + 4) == u32_be(ids[i]@),
    decreases ids.len(),
{
    lemma_ids_wire_len(ids);
    let init = ids.drop_last();
    lemma_ids_wire_len(init);
    if i < init.len() {
        lemma_ids_slot(init, i);
        assert(ids_wire(ids).subrange(4 * i, 4 * i + 4) =~= ids_wire(init).subrange(4 * i, 4 * i + 4));
    } else {
        assert(ids_wire(ids).subrange(4 * i, 4 * i + 4) =~= u32_be(ids.last()@));
    }
}

#[verifier::rlimit(50)]
proof fn lemma_tooltip_entries_roundtrip(s: Seq<u8>, pos: int, entries: Seq<(u32, Seq<char>)>)
    requires
        0 <= pos,
        forall|i: int| 0 <= i < entries.len() ==> tooltip_entry_roundtrips(#[trigger] entries[i]),
        pos + tooltip_entries_wire(entries).len() + 4 <= s.len(),
        s.subrange(pos, pos + tooltip_entries_wire(entries).len() + 4) == tooltip_entries_wire(entries) + u32_be(0),
    ensures
        decode_tooltip_entries(s, pos) == Ok::<Seq<(u32, Seq<char>)>, ProtocolError>(entries),
    decreases entries.len(),
{
    let ws = tooltip_entries_wire(entries);
    let sub = s.subrange(pos, pos + ws.len() + 4);
    if entries.len() == 0 {
        assert(ws =~= Seq::<u8>::empty());
        assert(s.subrange(pos, pos + 4) =~= u32_be(0));
        lemma_be_u32_roundtrip(0, s, pos);
        assert(entries =~= Seq::<(u32, Seq<char>)>::empty());
    } else {
        let e = entries[0];
        assert(tooltip_entry_roundtrips(entries[0]));
        let tail = entries.skip(1);
        let head = u32_be(e.0) + utf16_pascal_bytes(e.1);
        let wt = tooltip_entries_wire(tail);
        assert(ws == head + wt);
        lemma_utf16_pascal_roundtrip(e.1, wt + u32_be(0));
        let pb = utf16_pascal_bytes(e.1) + (wt + u32_be(0));
        let n = be_u16(pb, 0) as int;
        assert(head.len() == 6 + 2 * n);
        assert forall|k: int| 0 <= k < ws.len() + 4 implies #[trigger] s[pos + k] == (u32_be(e.0) + pb)[k] by {
            assert(sub[k] == s[pos + k]);
            assert(sub[k] == (head + wt + u32_be(0))[k]);
            assert(head + wt + u32_be(0) =~= u32_be(e.0) + pb);
        }
        assert(s.subrange(pos, pos + 4) =~= u32_be(e.0)) by {
            assert forall|k: int| 0 <= k < 4 implies #[trigger] s.subrange(pos, pos + 4)[k] == u32_be(e.0)[k] by {
                assert(s[pos + k] == (u32_be(e.0) + pb)[k]);
            }
        }
        lemma_be_u32_roundtrip(e.0, s, pos);
        assert(be_u16(s, pos + 4) == n) by {
            assert(s[pos + (4 + 0)] == (u32_be(e.0) + pb)[4]);
            assert(s[pos + (4 + 1)] == (u32_be(e.0) + pb)[5]);
        }
        assert(s.subrange(pos + 6, pos + 6 + 2 * n) =~= pb.subrange(2, 2 + 2 * n)) by {
            assert forall|k: int| 0 <= k < 2 * n implies #[trigger] s.subrange(pos + 6, pos + 6 + 2 * n)[k]
                == pb.subrange(2, 2 + 2 * n)[k] by {
                assert(s[pos + (6 + k)] == (u32_be(e.0) + pb)[6 + k]);
            }
        }
        let m = head.len() as int;
        assert(s.subrange(pos + m, pos + m + wt.len() + 4) =~= wt + u32_be(0)) by {
            assert forall|k: int| 0 <= k < wt.len() + 4 implies #[trigger] s.subrange(
                pos + m,
                pos + m + wt.len() + 4,
            )[k] == (wt + u32_be(0))[k] by {
                assert(s[pos + (m + k)] == (u32_be(e.0) + pb)[m + k]);
                assert((u32_be(e.0) + pb)[m + k] == pb.skip(2 + 2 * n)[k]);
            }
        }
        assert forall|i: int| 0 <= i < tail.len() implies tooltip_entry_roundtrips(#[trigger] tail[i]) by {
            assert(tail[i] == entries[i + 1]);
        }
        lemma_tooltip_entries_roundtrip(s, pos + m, tail);
        assert(e == (e.0, e.1));
        assert(seq![e] + tail =~= entries);
    }
}

impl EntityTooltip {
    fn decode_entries(payload: &mut &[u8]) -> (r: Result<Vec<(u32, String)>, ProtocolError>)
        ensures
            match decode_tooltip_entries(old(payload)@, 0) {
                Ok(entries) => r matches Ok(v) && tooltip_entries_view(v@) == entries,
                Err(e) => r == Err::<Vec<(u32, String)>, ProtocolError>(e),
            },
    {
        let ghost s = payload@;
        let ghost target = decode_tooltip_entries(s, 0);
        let mut entries: Vec<(u32, String)> = Vec::new();
        proof {
            assert(payload@ =~= s.skip(0));
            match target {
                Ok(rest) => {
                    assert(tooltip_entries_view(entries@) + rest =~= rest);
                },
                Err(_) => {},
            }
        }
        loop
            invariant
                s == old(payload)@,
                target == decode_tooltip_entries(s, 0),
                payload@.len() <= s.len(),
                payload@ == s.skip(s.len() - payload@.len()),
                target == match decode_tooltip_entries(s, s.len() - payload@.len()) {
                    Ok(rest) => Ok(tooltip_entries_view(entries@) + rest),
                    Err(e) => Err(e),
                },
            decreases payload@.len(),
        {
            let ghost pos = s.len() - payload@.len();
            let text_id = match payload.read_u32() {
                Ok(v) => v,
                Err(e) => {
                    return Err(e);
                },
            };
            if text_id == 0 {
                proof {
                    assert(tooltip_entries_view(entries@) + Seq::<(u32, Seq<char>)>::empty() =~= tooltip_entries_view(entries@));
                }
                return Ok(entries);
            }
            proof {
                assert(payload@ =~= s.skip(pos + 4));
            }
            let params = match payload.read_utf16_pascal() {
                Ok(v) => v,
                Err(e) => {
                    return Err(e);
                },
            };
            proof {
                let n = be_u16(s, pos + 4) as int;
                assert(s.skip(pos + 4).subrange(2, 2 + 2 * n) =~= s.subrange(pos + 6, pos + 6 + 2 * n));
                assert(payload@ =~= s.skip(pos + 6 + 2 * n));
            }
            let ghost before = entries@;
            entries.push((text_id, params));
            proof {
                assert(tooltip_entries_view(entries@) =~= tooltip_entries_view(before).push((text_id, params@)));
                match decode_tooltip_entries(s, s.len() - payload@.len()) {
                    Ok(rest) => {
                        assert(tooltip_entries_view(before) + (seq![(text_id, params@)] + rest) =~= tooltip_entries_view(
                            entries@,
                        ) + rest);
                    },
                    Err(_) => {},
                }
            }
        }
    }
}

impl Packet for EntityTooltip {
    open spec fn spec_packet_kind() -> u8 {
        0xd6
    }

    /// As given, though tooltips are not of a fixed length.
    open spec fn spec_fixed_length(client_version: ClientVersion) -> Option<usize> {
        Some(15)
    }

    open spec fn wire(&self, client_version: ClientVersion, to_client: bool) -> Seq<u8> {
        match self {
            EntityTooltip::Request(ids) => ids_wire(ids@),
            EntityTooltip::Response { id, entries } => u16_be(1) + u32_be(id@) + u16_be(0) + u32_be(id@)
                + tooltip_entries_wire(tooltip_entries_view(entries@)) + u32_be(0),
        }
    }

    /// A request goes to the server, a response to the client.
    open spec fn can_encode(&self, client_version: ClientVersion, to_client: bool) -> bool {
        match self {
            EntityTooltip::Request(_) => !to_client,
            EntityTooltip::Response { .. } => to_client,
        }
    }

    open spec fn decode_error(client_version: ClientVersion, from_client: bool, s: Seq<u8>) -> Option<ProtocolError> {
        if from_client {
            if s.len() % 4 != 0 {
                Some(ProtocolError::UnexpectedEof)
            } else {
                None
            }
        } else if s.len() < 12 {
            Some(ProtocolError::UnexpectedEof)
        } else {
            match decode_tooltip_entries(s.skip(12), 0) {
                Ok(_) => None,
                Err(e) => Some(e),
            }
        }
    }

    open spec fn decodes_to(client_version: ClientVersion, from_client: bool, s: Seq<u8>, p: Self) -> bool {
        if from_client {
            p matches EntityTooltip::Request(ids) && ids@ == ids_of(s)
        } else {
            &&& p matches EntityTooltip::Response { id, entries }
            &&& id@ == be_u32(s, 2)
            &&& decode_tooltip_entries(s.skip(12), 0) == Ok::<Seq<(u32, Seq<char>)>, ProtocolError>(
                tooltip_entries_view(entries@),
            )
        }
    }

    /// Entries with a non-zero number and parameters whose length fits its field.
    open spec fn roundtrips(&self, client_version: ClientVersion, to_client: bool) -> bool {
        match self {
            EntityTooltip::Request(_) => true,
            EntityTooltip::Response { entries, .. } => forall|i: int|
                0 <= i < entries@.len() ==> tooltip_entry_roundtrips((#[trigger] entries@[i].0, entries@[i].1@)),
        }
    }

    fn packet_kind() -> (r: u8) {
        0xd6
    }

    fn fixed_length(client_version: ClientVersion) -> (r: Option<usize>) {
        Some(15)
    }

    fn decode(client_version: ClientVersion, from_client: bool, payload: &[u8]) -> (r: Result<Self, ProtocolError>) {
        let ghost s = payload@;
        if from_client {
            let mut data = payload;
            let mut ids: Vec<EntityId> = Vec::new();
            while data.len() > 0
                invariant
                    from_client,
                    s == payload@,
                    s.len() >= data@.len(),
                    (s.len() - data@.len()) % 4 == 0,
                    data@ == s.skip(s.len() - data@.len()),
                    ids@ == ids_of(s.take(s.len() - data@.len())),
                    ids@.len() == (s.len() - data@.len()) / 4,
                decreases data@.len(),
            {
                let ghost pos = s.len() - data@.len();
                let id = match data.read_entity_id() {
                    Ok(v) => v,
                    Err(e) => {
                        assert(s.len() % 4 != 0);
                        return Err(e);
                    },
                };
                let ghost before = ids@;
                ids.push(id);
                proof {
                    assert(data@ =~= s.skip(pos + 4));
                    assert forall|i: int| 0 <= i < ids@.len() implies #[trigger] ids@[i] == ids_of(s.take(pos + 4))[i] by {
                        if i < before.len() {
                            assert(ids_of(s.take(pos))[i] == before[i]);
                            assert(be_u32(s.take(pos), 4 * i) == be_u32(s.take(pos + 4), 4 * i));
                        } else {
                            assert(be_u32(s.take(pos + 4), 4 * i) == be_u32(s, pos));
                        }
                    }
                    assert(ids@ =~= ids_of(s.take(pos + 4)));
                }
            }
            proof {
                assert(s.take(s.len() as int) =~= s);
            }
            Ok(EntityTooltip::Request(ids))
        } else {
            let mut payload = payload;
            payload.skip(2)?;
            let id = payload.read_entity_id()?;
            payload.skip(6)?;
            proof {
                assert(payload@ =~= s.skip(12));
            }
            let entries = Self::decode_entries(&mut payload)?;
            Ok(EntityTooltip::Response { id, entries })
        }
    }

    fn encode(&self, client_version: ClientVersion, to_client: bool, writer: &mut Vec<u8>) -> (r: Result<(), ProtocolError>) {
        match self {
            EntityTooltip::Request(ids) => {
                if to_client {
                    return Err(ProtocolError::Unsupported);
                }
                let mut i: usize = 0;
                let ghost start = writer@;
                while i < ids.len()
                    invariant
                        i <= ids@.len(),
                        writer@ == start + ids_wire(ids@.take(i as int)),
                    decreases ids@.len() - i,
                {
                    writer.write_entity_id(ids[i]);
                    proof {
                        assert(ids@.take(i + 1).drop_last() =~= ids@.take(i as int));
                    }
                    i += 1;
                }
                proof {
                    assert(ids@.take(i as int) =~= ids@);
                }
            },
            EntityTooltip::Response { id, entries } => {
                if !to_client {
                    return Err(ProtocolError::Unsupported);
                }
                writer.write_u16(1);
                writer.write_entity_id(*id);
                writer.write_u16(0);
                writer.write_entity_id(*id);
                let ghost head = writer@;
                let ghost all = tooltip_entries_view(entries@);
                let mut i: usize = 0;
                proof {
                    assert(all.skip(0) =~= all);
                }
                while i < entries.len()
                    invariant
                        i <= entries@.len(),
                        all == tooltip_entries_view(entries@),
                        head + tooltip_entries_wire(all) == writer@ + tooltip_entries_wire(all.skip(i as int)),
                    decreases entries@.len() - i,
                {
                    let ghost before = writer@;
                    let ghost rest = all.skip(i as int);
                    proof {
                        assert(rest[0] == (entries@[i as int].0, entries@[i as int].1@));
                        assert(rest.skip(1) =~= all.skip(i + 1));
                    }
                    writer.write_u32(entries[i].0);
                    writer.write_utf16_pascal(entries[i].1.as_str());
                    proof {
                        assert(before + tooltip_entries_wire(rest) =~= writer@ + tooltip_entries_wire(all.skip(i + 1)));
                    }
                    i += 1;
                }
                writer.write_u32(0);
                proof {
                    assert(all.skip(i as int) =~= Seq::<(u32, Seq<char>)>::empty());
                }
            },
        }
        assert(writer@ =~= old(writer)@ + self.wire(client_version, to_client));
        Ok(())
    }

    #[verifier::rlimit(40)]
    proof fn lemma_roundtrip(&self, client_version: ClientVersion, to_client: bool) {
        let w = self.wire(client_version, to_client);
        match self {
            EntityTooltip::Request(ids) => {
                lemma_ids_roundtrip(ids@);
            },
            EntityTooltip::Response { id, entries } => {
                assert(w.subrange(2, 6) =~= u32_be(id@));
                lemma_be_u32_roundtrip(id@, w, 2);
                let all = tooltip_entries_view(entries@);
                let ew = tooltip_entries_wire(all);
                assert(w.skip(12) =~= ew + u32_be(0));
                assert(w.skip(12).subrange(0, ew.len() + 4int) =~= ew + u32_be(0));
                assert forall|i: int| 0 <= i < all.len() implies tooltip_entry_roundtrips(#[trigger] all[i]) by {
                    assert(all[i] == (entries@[i].0, entries@[i].1@));
                }
                lemma_tooltip_entries_roundtrip(w.skip(12), 0, all);
            },
        }
    }
}

/// The items of a container.
#[derive(Debug, Clone)]
pub struct UpsertContainerContents {
    pub items: Vec<UpsertEntityContained>,
}

impl UpsertContainerContents {
    /// The error of item `k`, read from the 19 bytes at `2 + 19 * k`.
    pub open spec fn item_error(client_version: ClientVersion, from_client: bool, s: Seq<u8>) -> spec_fn(int) -> Option<
        ProtocolError,
    > {
        |k: int|
            if s.len() < 2 + 19 * k + 19 {
                Some(ProtocolError::UnexpectedEof)
            } else {
                UpsertEntityContained::decode_error(
                    client_version,
                    from_client,
                    s.subrange(2 + 19 * k, 2 + 19 * k + 19),
                )
            }
    }
}

impl Packet for UpsertContainerContents {
    open spec fn spec_packet_kind() -> u8 {
        0x3c
    }

    open spec fn spec_fixed_length(client_version: ClientVersion) -> Option<usize> {
        None
    }

    open spec fn wire(&self, client_version: ClientVersion, to_client: bool) -> Seq<u8> {
        u16_be(self.items@.len() as u16) + concat_map(
            self.items@,
            |it: UpsertEntityContained| it.wire(client_version, to_client),
        )
    }

    open spec fn can_encode(&self, client_version: ClientVersion, to_client: bool) -> bool {
        true
    }

    /// Each item is read from the 19 bytes it takes before grid inventories.
    open spec fn decode_error(client_version: ClientVersion, from_client: bool, s: Seq<u8>) -> Option<ProtocolError> {
        if s.len() < 2 {
            Some(ProtocolError::UnexpectedEof)
        } else {
            first_error(be_u16(s, 0) as int, 0, UpsertContainerContents::item_error(client_version, from_client, s))
        }
    }

    open spec fn decodes_to(client_version: ClientVersion, from_client: bool, s: Seq<u8>, p: Self) -> bool {
        &&& p.items@.len() == be_u16(s, 0)
        &&& forall|k: int|
            0 <= k < p.items@.len() ==> UpsertEntityContained::decodes_to(
                client_version,
                from_client,
                s.subrange(2 + 19 * k, 2 + 19 * k + 19),
                #[trigger] p.items@[k],
            )
    }

    /// Items are read in their layout before grid inventories, so only those
    /// clients read back what is written.
    open spec fn roundtrips(&self, client_version: ClientVersion, to_client: bool) -> bool {
        &&& !client_version.spec_at_least(spec_version_grid_inventory())
        &&& self.items@.len() <= 0xffff
        &&& forall|k: int| 0 <= k < self.items@.len() ==> #[trigger] self.items@[k].roundtrips(client_version, to_client)
    }

    fn packet_kind() -> (r: u8) {
        0x3c
    }

    fn fixed_length(client_version: ClientVersion) -> (r: Option<usize>) {
        None
    }

    fn decode(client_version: ClientVersion, from_client: bool, payload: &[u8]) -> (r: Result<Self, ProtocolError>) {
        let ghost s = payload@;
        let mut rest = payload;
        let count = match rest.read_u16() {
            Ok(c) => c as usize,
            Err(e) => return Err(e),
        };
        assert(rest@ =~= s.skip(2));
        let ghost err = UpsertContainerContents::item_error(client_version, from_client, s);
        let mut items: Vec<UpsertEntityContained> = Vec::new();
        let mut k: usize = 0;
        while k < count
            invariant
                count == be_u16(s, 0),
                s.len() >= 2,
                k <= count,
                err == UpsertContainerContents::item_error(client_version, from_client, s),
                s == payload@,
                rest@ == s.skip(2 + 19 * k),
                2 + 19 * k <= s.len(),
                first_error(count as int, 0, err) == first_error(count as int, k as int, err),
                items@.len() == k,
                forall|j: int|
                    0 <= j < k ==> UpsertEntityContained::decodes_to(
                        client_version,
                        from_client,
                        s.subrange(2 + 19 * j, 2 + 19 * j + 19),
                        #[trigger] items@[j],
                    ),
            decreases count - k,
        {
            if rest.len() < 19 {
                assert(err(k as int) == Some(ProtocolError::UnexpectedEof));
                return Err(ProtocolError::UnexpectedEof);
            }
            let chunk = vstd::slice::slice_subrange(rest, 0, 19);
            assert(chunk@ =~= s.subrange(2 + 19 * k, 2 + 19 * k + 19));
            let item = match UpsertEntityContained::decode(client_version, from_client, chunk) {
                Ok(item) => item,
                Err(e) => {
                    assert(err(k as int) == Some(e));
                    assert(first_error(count as int, k as int, err) == Some(e));
                    return Err(e);
                },
            };
            assert(err(k as int) is None);
            items.push(item);
            rest = vstd::slice::slice_subrange(rest, 19, rest.len());
            assert(rest@ =~= s.skip(2 + 19 * (k + 1)));
            k = k + 1;
        }
        Ok(UpsertContainerContents { items })
    }

    fn encode(&self, client_version: ClientVersion, to_client: bool, writer: &mut Vec<u8>) -> (r: Result<(), ProtocolError>) {
        writer.write_u16(self.items.len() as u16);
        let ghost head = writer@;
        let ghost f = |it: UpsertEntityContained| it.wire(client_version, to_client);
        let mut k: usize = 0;
        while k < self.items.len()
            invariant
                k <= self.items@.len(),
                f == (|it: UpsertEntityContained| it.wire(client_version, to_client)),
                writer@ == head + concat_map(self.items@.take(k as int), f),
            decreases self.items@.len() - k,
        {
            match self.items[k].encode(client_version, to_client, writer) {
                Ok(()) => {},
                Err(e) => {
                    return Err(e);
                },
            }
            assert(self.items@.take(k + 1).drop_last() =~= self.items@.take(k as int));
            k = k + 1;
        }
        assert(self.items@.take(k as int) =~= self.items@);
        assert(writer@ =~= old(writer)@ + self.wire(client_version, to_client));
        Ok(())
    }

    proof fn lemma_roundtrip(&self, client_version: ClientVersion, to_client: bool) {
        let w = self.wire(client_version, to_client);
        let items = self.items@;
        let f = |it: UpsertEntityContained| it.wire(client_version, to_client);
        let n = items.len();
        assert forall|i: int| 0 <= i < items.len() implies #[trigger] f(items[i]).len() == 19 by {
        }
        lemma_concat_map_fixed(items, f, 19);
        assert(w.subrange(0, 2) =~= u16_be(n as u16));
        lemma_be_u16_roundtrip(n as u16, w, 0);
        let err = UpsertContainerContents::item_error(client_version, !to_client, w);
        assert forall|k: int| 0 <= k < n implies UpsertEntityContained::decode_error(
            client_version,
            !to_client,
            w.subrange(2 + 19 * k, 2 + 19 * k + 19),
        ) is None && UpsertEntityContained::decodes_to(
            client_version,
            !to_client,
            w.subrange(2 + 19 * k, 2 + 19 * k + 19),
            #[trigger] items[k],
        ) by {
            assert(concat_map(items, f).subrange(19 * k, 19 * k + 19) == f(items[k]));
            assert(w.subrange(2 + 19 * k, 2 + 19 * k + 19) =~= items[k].wire(client_version, to_client));
            items[k].lemma_roundtrip(client_version, to_client);
        }
        assert forall|k: int| 0 <= k < n implies #[trigger] err(k) is None by {
            assert(UpsertEntityContained::decode_error(
                client_version,
                !to_client,
                w.subrange(2 + 19 * k, 2 + 19 * k + 19),
            ) is None);
        }
        lemma_first_error_none(n as int, 0, err);
    }
}

/// A character's status: the short form (name and hit points) when the
/// information level is zero, and every statistic otherwise.
#[derive(Debug, Clone, Default)]
pub struct UpsertEntityStats {
    pub id: EntityId,
    pub max_info_level: u8,
    pub name: String,
    pub allow_name_change: bool,
    pub race_and_gender: u8,
    pub hp: u16,
    pub max_hp: u16,
    pub str: u16,
    pub dex: u16,
    pub int: u16,
    pub stamina: u16,
    pub max_stamina: u16,
    pub mana: u16,
    pub max_mana: u16,
    pub gold: u32,
    pub armor: u16,
    pub weight: u16,
    pub max_weight: u16,
    pub stats_cap: u16,
    pub pet_count: u8,
    pub max_pets: u8,
    pub fire_resist: u16,
    pub cold_resist: u16,
    pub poison_resist: u16,
    pub energy_resist: u16,
    pub luck: u16,
    pub damage_min: u16,
    pub damage_max: u16,
    pub tithing: u32,
    pub hit_chance_bonus: u16,
    pub swing_speed_bonus: u16,
    pub damage_chance_bonus: u16,
    pub reagent_cost_bonus: u16,
    pub hp_regen: u16,
    pub stamina_regen: u16,
    pub mana_regen: u16,
    pub damage_reflect: u16,
    pub potion_bonus: u16,
    pub defence_chance_bonus: u16,
    pub spell_damage_bonus: u16,
    pub cooldown_bonus: u16,
    pub cast_time_bonus: u16,
    pub mana_cost_bonus: u16,
    pub str_bonus: u16,
    pub dex_bonus: u16,
    pub int_bonus: u16,
    pub hp_bonus: u16,
    pub stamina_bonus: u16,
    pub mana_bonus: u16,
    pub max_hp_bonus: u16,
    pub max_stamina_bonus: u16,
    pub max_mana_bonus: u16,
}

impl UpsertEntityStats {
    /// The bytes of the short form.
    pub open spec fn prefix_wire(&self) -> Seq<u8> {
        u32_be(self.id@) + str_block_bytes(encode_utf8(self.name@), 30) + u16_be(self.hp) + u16_be(self.max_hp) + seq![if self.allow_name_change { 1u8 } else { 0u8 }] + seq![self.max_info_level]
    }

    pub open spec fn prefix_error(s: Seq<u8>) -> Option<ProtocolError> {
        if s.len() < 34 {
            Some(ProtocolError::UnexpectedEof)
        } else if str_block_text(s.subrange(4, 34)) is None {
            Some(ProtocolError::InvalidUtf8)
        } else if s.len() < 40 {
            Some(ProtocolError::UnexpectedEof)
        } else {
            None
        }
    }

    pub open spec fn prefix_decodes_to(s: Seq<u8>, p: UpsertEntityStats) -> bool {
        &&& p.id@ == be_u32(s, 0)
        &&& Some(p.name@) == str_block_text(s.subrange(4, 34))
        &&& p.hp == be_u16(s, 34)
        &&& p.max_hp == be_u16(s, 36)
        &&& p.allow_name_change == (s[38] != 0)
        &&& p.max_info_level == s[39]
    }

    /// The bytes that follow in the long form.
    pub open spec fn full_wire(&self) -> Seq<u8> {
        self.full_wire_1() + self.full_wire_2() + self.full_wire_3() + self.full_wire_4()
    }

    pub open spec fn full_decodes_to(s: Seq<u8>, p: UpsertEntityStats) -> bool {
        &&& UpsertEntityStats::full_decodes_to_1(s.subrange(40, 65), p)
        &&& UpsertEntityStats::full_decodes_to_2(s.subrange(65, 88), p)
        &&& UpsertEntityStats::full_decodes_to_3(s.subrange(88, 112), p)
        &&& UpsertEntityStats::full_decodes_to_4(s.subrange(112, 134), p)
    }

    /// Every statistic of the long form is zero.
    pub open spec fn full_is_zero(p: UpsertEntityStats) -> bool {
        &&& p.race_and_gender == 0
        &&& p.str == 0
        &&& p.dex == 0
        &&& p.int == 0
        &&& p.stamina == 0
        &&& p.max_stamina == 0
        &&& p.mana == 0
        &&& p.max_mana == 0
        &&& p.gold == 0
        &&& p.armor == 0
        &&& p.weight == 0
        &&& p.max_weight == 0
        &&& p.stats_cap == 0
        &&& p.pet_count == 0
        &&& p.max_pets == 0
        &&& p.fire_resist == 0
        &&& p.cold_resist == 0
        &&& p.poison_resist == 0
        &&& p.energy_resist == 0
        &&& p.luck == 0
        &&& p.damage_min == 0
        &&& p.damage_max == 0
        &&& p.tithing == 0
        &&& p.hit_chance_bonus == 0
        &&& p.swing_speed_bonus == 0
        &&& p.damage_chance_bonus == 0
        &&& p.reagent_cost_bonus == 0
        &&& p.hp_regen == 0
        &&& p.stamina_regen == 0
        &&& p.mana_regen == 0
        &&& p.damage_reflect == 0
        &&& p.potion_bonus == 0
        &&& p.defence_chance_bonus == 0
        &&& p.spell_damage_bonus == 0
        &&& p.cooldown_bonus == 0
        &&& p.cast_time_bonus == 0
        &&& p.mana_cost_bonus == 0
        &&& p.str_bonus == 0
        &&& p.dex_bonus == 0
        &&& p.int_bonus == 0
        &&& p.hp_bonus == 0
        &&& p.stamina_bonus == 0
        &&& p.mana_bonus == 0
        &&& p.max_hp_bonus == 0
        &&& p.max_stamina_bonus == 0
        &&& p.max_mana_bonus == 0
    }

    /// The bytes of part 1 of the long form.
    pub open spec fn full_wire_1(&self) -> Seq<u8> {
        seq![self.race_and_gender] + u16_be(self.str) + u16_be(self.dex) + u16_be(self.int) + u16_be(self.stamina) + u16_be(self.max_stamina) + u16_be(self.mana) + u16_be(self.max_mana) + u32_be(self.gold) + u16_be(self.armor) + u16_be(self.weight) + u16_be(self.max_weight)
    }

    pub open spec fn full_decodes_to_1(s: Seq<u8>, p: UpsertEntityStats) -> bool {
        &&& p.race_and_gender == s[0]
        &&& p.str == be_u16(s, 1)
        &&& p.dex == be_u16(s, 3)
        &&& p.int == be_u16(s, 5)
        &&& p.stamina == be_u16(s, 7)
        &&& p.max_stamina == be_u16(s, 9)
        &&& p.mana == be_u16(s, 11)
        &&& p.max_mana == be_u16(s, 13)
        &&& p.gold == be_u32(s, 15)
        &&& p.armor == be_u16(s, 19)
        &&& p.weight == be_u16(s, 21)
        &&& p.max_weight == be_u16(s, 23)
    }

    fn write_full_1(&self, writer: &mut Vec<u8>)
        ensures
            final(writer)@ == old(writer)@ + self.full_wire_1(),
    {
        writer.write_u8(self.race_and_gender);
        writer.write_u16(self.str);
        writer.write_u16(self.dex);
        writer.write_u16(self.int);
        writer.write_u16(self.stamina);
        writer.write_u16(self.max_stamina);
        writer.write_u16(self.mana);
        writer.write_u16(self.max_mana);
        writer.write_u32(self.gold);
        writer.write_u16(self.armor);
        writer.write_u16(self.weight);
        writer.write_u16(self.max_weight);
        assert(writer@ =~= old(writer)@ + self.full_wire_1());
    }

    proof fn lemma_full_1(&self)
        ensures
            self.full_wire_1().len() == 25,
            UpsertEntityStats::full_decodes_to_1(self.full_wire_1(), *self),
    {
        let w = self.full_wire_1();
        assert(w.subrange(0, 1) =~= seq![self.race_and_gender]);
        assert(w.subrange(1, 3) =~= u16_be(self.str));
        lemma_be_u16_roundtrip(self.str, w, 1);
        assert(w.subrange(3, 5) =~= u16_be(self.dex));
        lemma_be_u16_roundtrip(self.dex, w, 3);
        assert(w.subrange(5, 7) =~= u16_be(self.int));
        lemma_be_u16_roundtrip(self.int, w, 5);
        assert(w.subrange(7, 9) =~= u16_be(self.stamina));
        lemma_be_u16_roundtrip(self.stamina, w, 7);
        assert(w.subrange(9, 11) =~= u16_be(self.max_stamina));
        lemma_be_u16_roundtrip(self.max_stamina, w, 9);
        assert(w.subrange(11, 13) =~= u16_be(self.mana));
        lemma_be_u16_roundtrip(self.mana, w, 11);
        assert(w.subrange(13, 15) =~= u16_be(self.max_mana));
        lemma_be_u16_roundtrip(self.max_mana, w, 13);
        assert(w.subrange(15, 19) =~= u32_be(self.gold));
        lemma_be_u32_roundtrip(self.gold, w, 15);
        assert(w.subrange(19, 21) =~= u16_be(self.armor));
        lemma_be_u16_roundtrip(self.armor, w, 19);
        assert(w.subrange(21, 23) =~= u16_be(self.weight));
        lemma_be_u16_roundtrip(self.weight, w, 21);
        assert(w.subrange(23, 25) =~= u16_be(self.max_weight));
        lemma_be_u16_roundtrip(self.max_weight, w, 23);
    }

    /// The bytes of part 2 of the long form.
    pub open spec fn full_wire_2(&self) -> Seq<u8> {
        seq![((self.race_and_gender >> 1u8) + 1) as u8] + u16_be(self.stats_cap) + seq![self.pet_count] + seq![self.max_pets] + u16_be(self.fire_resist) + u16_be(self.cold_resist) + u16_be(self.poison_resist) + u16_be(self.energy_resist) + u16_be(self.luck) + u16_be(self.damage_min) + u16_be(self.damage_max) + u32_be(self.tithing)
    }

    pub open spec fn full_decodes_to_2(s: Seq<u8>, p: UpsertEntityStats) -> bool {
        &&& p.stats_cap == be_u16(s, 1)
        &&& p.pet_count == s[3]
        &&& p.max_pets == s[4]
        &&& p.fire_resist == be_u16(s, 5)
        &&& p.cold_resist == be_u16(s, 7)
        &&& p.poison_resist == be_u16(s, 9)
        &&& p.energy_resist == be_u16(s, 11)
        &&& p.luck == be_u16(s, 13)
        &&& p.damage_min == be_u16(s, 15)
        &&& p.damage_max == be_u16(s, 17)
        &&& p.tithing == be_u32(s, 19)
    }

    fn write_full_2(&self, writer: &mut Vec<u8>)
        ensures
            final(writer)@ == old(writer)@ + self.full_wire_2(),
    {
        proof {
            let r = self.race_and_gender;
            assert(r >> 1u8 <= 127) by (bit_vector);
        }
        writer.write_u8((self.race_and_gender >> 1) + 1);
        writer.write_u16(self.stats_cap);
        writer.write_u8(self.pet_count);
        writer.write_u8(self.max_pets);
        writer.write_u16(self.fire_resist);
        writer.write_u16(self.cold_resist);
        writer.write_u16(self.poison_resist);
        writer.write_u16(self.energy_resist);
        writer.write_u16(self.luck);
        writer.write_u16(self.damage_min);
        writer.write_u16(self.damage_max);
        writer.write_u32(self.tithing);
        assert(writer@ =~= old(writer)@ + self.full_wire_2());
    }

    proof fn lemma_full_2(&self)
        ensures
            self.full_wire_2().len() == 23,
            UpsertEntityStats::full_decodes_to_2(self.full_wire_2(), *self),
    {
        let w = self.full_wire_2();
        assert(w.subrange(1, 3) =~= u16_be(self.stats_cap));
        lemma_be_u16_roundtrip(self.stats_cap, w, 1);
        assert(w.subrange(3, 4) =~= seq![self.pet_count]);
        assert(w.subrange(4, 5) =~= seq![self.max_pets]);
        assert(w.subrange(5, 7) =~= u16_be(self.fire_resist));
        lemma_be_u16_roundtrip(self.fire_resist, w, 5);
        assert(w.subrange(7, 9) =~= u16_be(self.cold_resist));
        lemma_be_u16_roundtrip(self.cold_resist, w, 7);
        assert(w.subrange(9, 11) =~= u16_be(self.poison_resist));
        lemma_be_u16_roundtrip(self.poison_resist, w, 9);
        assert(w.subrange(11, 13) =~= u16_be(self.energy_resist));
        lemma_be_u16_roundtrip(self.energy_resist, w, 11);
        assert(w.subrange(13, 15) =~= u16_be(self.luck));
        lemma_be_u16_roundtrip(self.luck, w, 13);
        assert(w.subrange(15, 17) =~= u16_be(self.damage_min));
        lemma_be_u16_roundtrip(self.damage_min, w, 15);
        assert(w.subrange(17, 19) =~= u16_be(self.damage_max));
        lemma_be_u16_roundtrip(self.damage_max, w, 17);
        assert(w.subrange(19, 23) =~= u32_be(self.tithing));
        lemma_be_u32_roundtrip(self.tithing, w, 19);
    }

    /// The bytes of part 3 of the long form.
    pub open spec fn full_wire_3(&self) -> Seq<u8> {
        u16_be(self.hit_chance_bonus) + u16_be(self.swing_speed_bonus) + u16_be(self.damage_chance_bonus) + u16_be(self.reagent_cost_bonus) + u16_be(self.hp_regen) + u16_be(self.stamina_regen) + u16_be(self.mana_regen) + u16_be(self.damage_reflect) + u16_be(self.potion_bonus) + u16_be(self.defence_chance_bonus) + u16_be(self.spell_damage_bonus) + u16_be(self.cooldown_bonus)
    }

    pub open spec fn full_decodes_to_3(s: Seq<u8>, p: UpsertEntityStats) -> bool {
        &&& p.hit_chance_bonus == be_u16(s, 0)
        &&& p.swing_speed_bonus == be_u16(s, 2)
        &&& p.damage_chance_bonus == be_u16(s, 4)
        &&& p.reagent_cost_bonus == be_u16(s, 6)
        &&& p.hp_regen == be_u16(s, 8)
        &&& p.stamina_regen == be_u16(s, 10)
        &&& p.mana_regen == be_u16(s, 12)
        &&& p.damage_reflect == be_u16(s, 14)
        &&& p.potion_bonus == be_u16(s, 16)
        &&& p.defence_chance_bonus == be_u16(s, 18)
        &&& p.spell_damage_bonus == be_u16(s, 20)
        &&& p.cooldown_bonus == be_u16(s, 22)
    }

    fn write_full_3(&self, writer: &mut Vec<u8>)
        ensures
            final(writer)@ == old(writer)@ + self.full_wire_3(),
    {
        writer.write_u16(self.hit_chance_bonus);
        writer.write_u16(self.swing_speed_bonus);
        writer.write_u16(self.damage_chance_bonus);
        writer.write_u16(self.reagent_cost_bonus);
        writer.write_u16(self.hp_regen);
        writer.write_u16(self.stamina_regen);
        writer.write_u16(self.mana_regen);
        writer.write_u16(self.damage_reflect);
        writer.write_u16(self.potion_bonus);
        writer.write_u16(self.defence_chance_bonus);
        writer.write_u16(self.spell_damage_bonus);
        writer.write_u16(self.cooldown_bonus);
        assert(writer@ =~= old(writer)@ + self.full_wire_3());
    }

    proof fn lemma_full_3(&self)
        ensures
            self.full_wire_3().len() == 24,
            UpsertEntityStats::full_decodes_to_3(self.full_wire_3(), *self),
    {
        let w = self.full_wire_3();
        assert(w.subrange(0, 2) =~= u16_be(self.hit_chance_bonus));
        lemma_be_u16_roundtrip(self.hit_chance_bonus, w, 0);
        assert(w.subrange(2, 4) =~= u16_be(self.swing_speed_bonus));
        lemma_be_u16_roundtrip(self.swing_speed_bonus, w, 2);
        assert(w.subrange(4, 6) =~= u16_be(self.damage_chance_bonus));
        lemma_be_u16_roundtrip(self.damage_chance_bonus, w, 4);
        assert(w.subrange(6, 8) =~= u16_be(self.reagent_cost_bonus));
        lemma_be_u16_roundtrip(self.reagent_cost_bonus, w, 6);
        assert(w.subrange(8, 10) =~= u16_be(self.hp_regen));
        lemma_be_u16_roundtrip(self.hp_regen, w, 8);
        assert(w.subrange(10, 12) =~= u16_be(self.stamina_regen));
        lemma_be_u16_roundtrip(self.stamina_regen, w, 10);
        assert(w.subrange(12, 14) =~= u16_be(self.mana_regen));
        lemma_be_u16_roundtrip(self.mana_regen, w, 12);
        assert(w.subrange(14, 16) =~= u16_be(self.damage_reflect));
        lemma_be_u16_roundtrip(self.damage_reflect, w, 14);
        assert(w.subrange(16, 18) =~= u16_be(self.potion_bonus));
        lemma_be_u16_roundtrip(self.potion_bonus, w, 16);
        assert(w.subrange(18, 20) =~= u16_be(self.defence_chance_bonus));
        lemma_be_u16_roundtrip(self.defence_chance_bonus, w, 18);
        assert(w.subrange(20, 22) =~= u16_be(self.spell_damage_bonus));
        lemma_be_u16_roundtrip(self.spell_damage_bonus, w, 20);
        assert(w.subrange(22, 24) =~= u16_be(self.cooldown_bonus));
        lemma_be_u16_roundtrip(self.cooldown_bonus, w, 22);
    }

    /// The bytes of part 4 of the long form.
    pub open spec fn full_wire_4(&self) -> Seq<u8> {
        u16_be(self.cast_time_bonus) + u16_be(self.mana_cost_bonus) + u16_be(self.str_bonus) + u16_be(self.dex_bonus) + u16_be(self.int_bonus) + u16_be(self.hp_bonus) + u16_be(self.stamina_bonus) + u16_be(self.mana_bonus) + u16_be(self.max_hp_bonus) + u16_be(self.max_stamina_bonus) + u16_be(self.max_mana_bonus)
    }

    pub open spec fn full_decodes_to_4(s: Seq<u8>, p: UpsertEntityStats) -> bool {
        &&& p.cast_time_bonus == be_u16(s, 0)
        &&& p.mana_cost_bonus == be_u16(s, 2)
        &&& p.str_bonus == be_u16(s, 4)
        &&& p.dex_bonus == be_u16(s, 6)
        &&& p.int_bonus == be_u16(s, 8)
        &&& p.hp_bonus == be_u16(s, 10)
        &&& p.stamina_bonus == be_u16(s, 12)
        &&& p.mana_bonus == be_u16(s, 14)
        &&& p.max_hp_bonus == be_u16(s, 16)
        &&& p.max_stamina_bonus == be_u16(s, 18)
        &&& p.max_mana_bonus == be_u16(s, 20)
    }

    fn write_full_4(&self, writer: &mut Vec<u8>)
        ensures
            final(writer)@ == old(writer)@ + self.full_wire_4(),
    {
        writer.write_u16(self.cast_time_bonus);
        writer.write_u16(self.mana_cost_bonus);
        writer.write_u16(self.str_bonus);
        writer.write_u16(self.dex_bonus);
        writer.write_u16(self.int_bonus);
        writer.write_u16(self.hp_bonus);
        writer.write_u16(self.stamina_bonus);
        writer.write_u16(self.mana_bonus);
        writer.write_u16(self.max_hp_bonus);
        writer.write_u16(self.max_stamina_bonus);
        writer.write_u16(self.max_mana_bonus);
        assert(writer@ =~= old(writer)@ + self.full_wire_4());
    }

    proof fn lemma_full_4(&self)
        ensures
            self.full_wire_4().len() == 22,
            UpsertEntityStats::full_decodes_to_4(self.full_wire_4(), *self),
    {
        let w = self.full_wire_4();
        assert(w.subrange(0, 2) =~= u16_be(self.cast_time_bonus));
        lemma_be_u16_roundtrip(self.cast_time_bonus, w, 0);
        assert(w.subrange(2, 4) =~= u16_be(self.mana_cost_bonus));
        lemma_be_u16_roundtrip(self.mana_cost_bonus, w, 2);
        assert(w.subrange(4, 6) =~= u16_be(self.str_bonus));
        lemma_be_u16_roundtrip(self.str_bonus, w, 4);
        assert(w.subrange(6, 8) =~= u16_be(self.dex_bonus));
        lemma_be_u16_roundtrip(self.dex_bonus, w, 6);
        assert(w.subrange(8, 10) =~= u16_be(self.int_bonus));
        lemma_be_u16_roundtrip(self.int_bonus, w, 8);
        assert(w.subrange(10, 12) =~= u16_be(self.hp_bonus));
        lemma_be_u16_roundtrip(self.hp_bonus, w, 10);
        assert(w.subrange(12, 14) =~= u16_be(self.stamina_bonus));
        lemma_be_u16_roundtrip(self.stamina_bonus, w, 12);
        assert(w.subrange(14, 16) =~= u16_be(self.mana_bonus));
        lemma_be_u16_roundtrip(self.mana_bonus, w, 14);
        assert(w.subrange(16, 18) =~= u16_be(self.max_hp_bonus));
        lemma_be_u16_roundtrip(self.max_hp_bonus, w, 16);
        assert(w.subrange(18, 20) =~= u16_be(self.max_stamina_bonus));
        lemma_be_u16_roundtrip(self.max_stamina_bonus, w, 18);
        assert(w.subrange(20, 22) =~= u16_be(self.max_mana_bonus));
        lemma_be_u16_roundtrip(self.max_mana_bonus, w, 20);
    }

    fn write_prefix(&self, writer: &mut Vec<u8>)
        ensures
            final(writer)@ == old(writer)@ + self.prefix_wire(),
    {
        writer.write_entity_id(self.id);
        writer.write_str_block(self.name.as_str(), 30);
        writer.write_u16(self.hp);
        writer.write_u16(self.max_hp);
        writer.write_u8(if self.allow_name_change { 1 } else { 0 });
        writer.write_u8(self.max_info_level);
        assert(writer@ =~= old(writer)@ + self.prefix_wire());
    }

    proof fn lemma_prefix(&self, client_version: ClientVersion, to_client: bool)
        requires
            fits_str_block(self.name@, 30),
        ensures
            UpsertEntityStats::prefix_error(self.wire(client_version, to_client)) is None,
            UpsertEntityStats::prefix_decodes_to(self.wire(client_version, to_client), *self),
    {
        let w = self.wire(client_version, to_client);
        assert(w.subrange(0, 4) =~= u32_be(self.id@));
        lemma_be_u32_roundtrip(self.id@, w, 0);
        assert(w.subrange(4, 34) =~= str_block_bytes(encode_utf8(self.name@), 30));
        lemma_str_block_roundtrip(self.name@, 30);
        assert(w.subrange(4, 34) == str_block_bytes(encode_utf8(self.name@), 30));
        assert(w.subrange(34, 36) =~= u16_be(self.hp));
        lemma_be_u16_roundtrip(self.hp, w, 34);
        assert(w.subrange(36, 38) =~= u16_be(self.max_hp));
        lemma_be_u16_roundtrip(self.max_hp, w, 36);
        assert(w.subrange(38, 39) =~= seq![if self.allow_name_change { 1u8 } else { 0u8 }]);
        assert(w.subrange(39, 40) =~= seq![self.max_info_level]);
    }
}

impl Packet for UpsertEntityStats {
    open spec fn spec_packet_kind() -> u8 {
        0x11
    }

    open spec fn spec_fixed_length(client_version: ClientVersion) -> Option<usize> {
        None
    }

    open spec fn wire(&self, client_version: ClientVersion, to_client: bool) -> Seq<u8> {
        self.prefix_wire() + if self.max_info_level > 0 {
            self.full_wire()
        } else {
            Seq::empty()
        }
    }

    open spec fn can_encode(&self, client_version: ClientVersion, to_client: bool) -> bool {
        true
    }

    open spec fn decode_error(client_version: ClientVersion, from_client: bool, s: Seq<u8>) -> Option<ProtocolError> {
        if UpsertEntityStats::prefix_error(s) is Some {
            UpsertEntityStats::prefix_error(s)
        } else if s[39] == 0 {
            None
        } else if s.len() < 134 {
            Some(ProtocolError::UnexpectedEof)
        } else {
            None
        }
    }

    open spec fn decodes_to(client_version: ClientVersion, from_client: bool, s: Seq<u8>, p: Self) -> bool {
        &&& UpsertEntityStats::prefix_decodes_to(s, p)
        &&& s[39] == 0 ==> UpsertEntityStats::full_is_zero(p)
        &&& s[39] != 0 ==> UpsertEntityStats::full_decodes_to(s, p)
    }

    /// A name that fits its field, and a short form whose other statistics are zero.
    open spec fn roundtrips(&self, client_version: ClientVersion, to_client: bool) -> bool {
        &&& fits_str_block(self.name@, 30)
        &&& self.max_info_level == 0 ==> UpsertEntityStats::full_is_zero(*self)
    }

    fn packet_kind() -> (r: u8) {
        0x11
    }

    fn fixed_length(client_version: ClientVersion) -> (r: Option<usize>) {
        None
    }

    #[verifier::rlimit(60)]
    fn decode(client_version: ClientVersion, from_client: bool, payload: &[u8]) -> (r: Result<Self, ProtocolError>) {
        let ghost s = payload@;
        let mut payload = payload;
        let id = payload.read_entity_id()?;
        assert(payload@ =~= s.skip(4));
        proof {
            if payload@.len() >= 30 {
                assert(payload@.take(30) =~= s.subrange(4, 34));
            }
        }
        let name = payload.read_str_block(30)?;
        assert(payload@ =~= s.skip(34));
        let hp = payload.read_u16()?;
        assert(payload@ =~= s.skip(36));
        let max_hp = payload.read_u16()?;
        assert(payload@ =~= s.skip(38));
        let allow_name_change = payload.read_u8()? != 0;
        assert(payload@ =~= s.skip(39));
        let level = payload.read_u8()?;
        assert(payload@ =~= s.skip(40));
        if level == 0 {
            return Ok(UpsertEntityStats {
                id,
                max_info_level: 0,
                name,
                allow_name_change,
                hp,
                max_hp,
                race_and_gender: 0,
                str: 0,
                dex: 0,
                int: 0,
                stamina: 0,
                max_stamina: 0,
                mana: 0,
                max_mana: 0,
                gold: 0,
                armor: 0,
                weight: 0,
                max_weight: 0,
                stats_cap: 0,
                pet_count: 0,
                max_pets: 0,
                fire_resist: 0,
                cold_resist: 0,
                poison_resist: 0,
                energy_resist: 0,
                luck: 0,
                damage_min: 0,
                damage_max: 0,
                tithing: 0,
                hit_chance_bonus: 0,
                swing_speed_bonus: 0,
                damage_chance_bonus: 0,
                reagent_cost_bonus: 0,
                hp_regen: 0,
                stamina_regen: 0,
                mana_regen: 0,
                damage_reflect: 0,
                potion_bonus: 0,
                defence_chance_bonus: 0,
                spell_damage_bonus: 0,
                cooldown_bonus: 0,
                cast_time_bonus: 0,
                mana_cost_bonus: 0,
                str_bonus: 0,
                dex_bonus: 0,
                int_bonus: 0,
                hp_bonus: 0,
                stamina_bonus: 0,
                mana_bonus: 0,
                max_hp_bonus: 0,
                max_stamina_bonus: 0,
                max_mana_bonus: 0,
            });
        }
        if payload.len() < 94 {
            return Err(ProtocolError::UnexpectedEof);
        }
        let race_and_gender = payload[0];
        let str = be_u16_at(payload, 1);
        let dex = be_u16_at(payload, 3);
        let intelligence = be_u16_at(payload, 5);
        let stamina = be_u16_at(payload, 7);
        let max_stamina = be_u16_at(payload, 9);
        let mana = be_u16_at(payload, 11);
        let max_mana = be_u16_at(payload, 13);
        let gold = be_u32_at(payload, 15);
        let armor = be_u16_at(payload, 19);
        let weight = be_u16_at(payload, 21);
        let max_weight = be_u16_at(payload, 23);
        let stats_cap = be_u16_at(payload, 26);
        let pet_count = payload[28];
        let max_pets = payload[29];
        let fire_resist = be_u16_at(payload, 30);
        let cold_resist = be_u16_at(payload, 32);
        let poison_resist = be_u16_at(payload, 34);
        let energy_resist = be_u16_at(payload, 36);
        let luck = be_u16_at(payload, 38);
        let damage_min = be_u16_at(payload, 40);
        let damage_max = be_u16_at(payload, 42);
        let tithing = be_u32_at(payload, 44);
        let hit_chance_bonus = be_u16_at(payload, 48);
        let swing_speed_bonus = be_u16_at(payload, 50);
        let damage_chance_bonus = be_u16_at(payload, 52);
        let reagent_cost_bonus = be_u16_at(payload, 54);
        let hp_regen = be_u16_at(payload, 56);
        let stamina_regen = be_u16_at(payload, 58);
        let mana_regen = be_u16_at(payload, 60);
        let damage_reflect = be_u16_at(payload, 62);
        let potion_bonus = be_u16_at(payload, 64);
        let defence_chance_bonus = be_u16_at(payload, 66);
        let spell_damage_bonus = be_u16_at(payload, 68);
        let cooldown_bonus = be_u16_at(payload, 70);
        let cast_time_bonus = be_u16_at(payload, 72);
        let mana_cost_bonus = be_u16_at(payload, 74);
        let str_bonus = be_u16_at(payload, 76);
        let dex_bonus = be_u16_at(payload, 78);
        let int_bonus = be_u16_at(payload, 80);
        let hp_bonus = be_u16_at(payload, 82);
        let stamina_bonus = be_u16_at(payload, 84);
        let mana_bonus = be_u16_at(payload, 86);
        let max_hp_bonus = be_u16_at(payload, 88);
        let max_stamina_bonus = be_u16_at(payload, 90);
        let max_mana_bonus = be_u16_at(payload, 92);
        Ok(UpsertEntityStats {
            id,
            max_info_level: level,
            name,
            allow_name_change,
            hp,
            max_hp,
            race_and_gender: race_and_gender,
            str: str,
            dex: dex,
            int: intelligence,
            stamina: stamina,
            max_stamina: max_stamina,
            mana: mana,
            max_mana: max_mana,
            gold: gold,
            armor: armor,
            weight: weight,
            max_weight: max_weight,
            stats_cap: stats_cap,
            pet_count: pet_count,
            max_pets: max_pets,
            fire_resist: fire_resist,
            cold_resist: cold_resist,
            poison_resist: poison_resist,
            energy_resist: energy_resist,
            luck: luck,
            damage_min: damage_min,
            damage_max: damage_max,
            tithing: tithing,
            hit_chance_bonus: hit_chance_bonus,
            swing_speed_bonus: swing_speed_bonus,
            damage_chance_bonus: damage_chance_bonus,
            reagent_cost_bonus: reagent_cost_bonus,
            hp_regen: hp_regen,
            stamina_regen: stamina_regen,
            mana_regen: mana_regen,
            damage_reflect: damage_reflect,
            potion_bonus: potion_bonus,
            defence_chance_bonus: defence_chance_bonus,
            spell_damage_bonus: spell_damage_bonus,
            cooldown_bonus: cooldown_bonus,
            cast_time_bonus: cast_time_bonus,
            mana_cost_bonus: mana_cost_bonus,
            str_bonus: str_bonus,
            dex_bonus: dex_bonus,
            int_bonus: int_bonus,
            hp_bonus: hp_bonus,
            stamina_bonus: stamina_bonus,
            mana_bonus: mana_bonus,
            max_hp_bonus: max_hp_bonus,
            max_stamina_bonus: max_stamina_bonus,
            max_mana_bonus: max_mana_bonus,
        })
    }

    fn encode(&self, client_version: ClientVersion, to_client: bool, writer: &mut Vec<u8>) -> (r: Result<(), ProtocolError>) {
        self.write_prefix(writer);
        if self.max_info_level > 0 {
            self.write_full_1(writer);
            self.write_full_2(writer);
            self.write_full_3(writer);
            self.write_full_4(writer);
        }
        assert(writer@ =~= old(writer)@ + self.wire(client_version, to_client));
        Ok(())
    }

    #[verifier::rlimit(80)]
    proof fn lemma_roundtrip(&self, client_version: ClientVersion, to_client: bool) {
        let w = self.wire(client_version, to_client);
        self.lemma_prefix(client_version, to_client);
        if self.max_info_level > 0 {
            self.lemma_full_1();
            self.lemma_full_2();
            self.lemma_full_3();
            self.lemma_full_4();
            assert(w.subrange(40, 65) =~= self.full_wire_1());
            assert(w.subrange(65, 88) =~= self.full_wire_2());
            assert(w.subrange(88, 112) =~= self.full_wire_3());
            assert(w.subrange(112, 134) =~= self.full_wire_4());
        }
    }
}

/// An entity request is nine bytes: the marker 0xedededed, the request kind
/// and the target's id, numbers most significant byte first.
pub proof fn lemma_entity_request_layout(p: EntityRequest, client_version: ClientVersion, to_client: bool)
    ensures
        ({
            let w = p.wire(client_version, to_client);
            &&& w.len() == 9
            &&& be_u32(w, 0) == 0xededededu32
            &&& w[4] == p.kind
            &&& be_u32(w, 5) == p.target@
        }),
{
    let w = p.wire(client_version, to_client);
    assert(w.subrange(0, 4) =~= u32_be(0xededededu32));
    lemma_be_u32_roundtrip(0xededededu32, w, 0);
    assert(w.subrange(5, 9) =~= u32_be(p.target@));
    lemma_be_u32_roundtrip(p.target@, w, 5);
}

/// A deletion is the entity's id, most significant byte first.
pub proof fn lemma_delete_entity_layout(p: DeleteEntity, client_version: ClientVersion, to_client: bool)
    ensures
        ({
            let w = p.wire(client_version, to_client);
            &&& w.len() == 4
            &&& be_u32(w, 0) == p.id@
        }),
{
    let w = p.wire(client_version, to_client);
    assert(w.subrange(0, 4) =~= u32_be(p.id@));
    lemma_be_u32_roundtrip(p.id@, w, 0);
}

/// The player's own state is eighteen bytes: id, body, a zero byte, hue,
/// flags, x and y, the server number, the direction and the z coordinate's
/// low byte, numbers most significant byte first.
pub proof fn lemma_upsert_local_player_layout(p: UpsertLocalPlayer, client_version: ClientVersion, to_client: bool)
    ensures
        ({
            let w = p.wire(client_version, to_client);
            &&& w.len() == 18
            &&& be_u32(w, 0) == p.id@
            &&& be_u16(w, 4) == p.body_type
            &&& w[6] == 0u8
            &&& be_u16(w, 7) == p.hue
            &&& w[9] == p.flags@
            &&& be_u16(w, 10) == p.position.x as u16
            &&& be_u16(w, 12) == p.position.y as u16
            &&& be_u16(w, 14) == p.server_id
            &&& w[16] == p.direction.spec_repr()
            &&& w[17] == p.position.z as u8
        }),
{
    let w = p.wire(client_version, to_client);
    assert(w.subrange(0, 4) =~= u32_be(p.id@));
    lemma_be_u32_roundtrip(p.id@, w, 0);
    assert(w.subrange(4, 6) =~= u16_be(p.body_type));
    lemma_be_u16_roundtrip(p.body_type, w, 4);
    assert(w.subrange(7, 9) =~= u16_be(p.hue));
    lemma_be_u16_roundtrip(p.hue, w, 7);
    assert(w.subrange(10, 12) =~= u16_be(p.position.x as u16));
    lemma_be_u16_roundtrip(p.position.x as u16, w, 10);
    assert(w.subrange(12, 14) =~= u16_be(p.position.y as u16));
    lemma_be_u16_roundtrip(p.position.y as u16, w, 12);
    assert(w.subrange(14, 16) =~= u16_be(p.server_id));
    lemma_be_u16_roundtrip(p.server_id, w, 14);
}

/// An equipped item is fifteen bytes: its id, its graphic, a zero byte, the
/// slot, the wearer's id and the hue, numbers most significant byte first.
pub proof fn lemma_upsert_entity_equipped_layout(p: UpsertEntityEquipped, client_version: ClientVersion, to_client: bool)
    ensures
        ({
            let w = p.wire(client_version, to_client);
            &&& w.len() == 14
            &&& be_u32(w, 0) == p.id@
            &&& be_u16(w, 4) == p.graphic_id
            &&& w[6] == 0u8
            &&& w[7] == p.slot.spec_repr()
            &&& be_u32(w, 8) == p.parent_id@
            &&& be_u16(w, 12) == p.hue
        }),
{
    let w = p.wire(client_version, to_client);
    assert(w.subrange(0, 4) =~= u32_be(p.id@));
    lemma_be_u32_roundtrip(p.id@, w, 0);
    assert(w.subrange(4, 6) =~= u16_be(p.graphic_id));
    lemma_be_u16_roundtrip(p.graphic_id, w, 4);
    assert(w.subrange(8, 12) =~= u32_be(p.parent_id@));
    lemma_be_u32_roundtrip(p.parent_id@, w, 8);
    assert(w.subrange(12, 14) =~= u16_be(p.hue));
    lemma_be_u16_roundtrip(p.hue, w, 12);
}

/// A tooltip version is the entity's id, then the revision, most
/// significant byte first.
pub proof fn lemma_entity_tooltip_version_layout(p: EntityTooltipVersion, client_version: ClientVersion, to_client: bool)
    ensures
        ({
            let w = p.wire(client_version, to_client);
            &&& w.len() == 8
            &&& be_u32(w, 0) == p.id@
            &&& be_u32(w, 4) == p.revision
        }),
{
    let w = p.wire(client_version, to_client);
    assert(w.subrange(0, 4) =~= u32_be(p.id@));
    lemma_be_u32_roundtrip(p.id@, w, 0);
    assert(w.subrange(4, 8) =~= u32_be(p.revision));
    lemma_be_u32_roundtrip(p.revision, w, 4);
}

} // verus!
