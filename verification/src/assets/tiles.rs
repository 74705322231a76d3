//! The tile data file: names and properties of land tiles and items.

use vstd::prelude::*;
use vstd::utf8::*;

use crate::protocol::format::{first_error, first_zero, is_first_zero, le_u32, le_u64, lemma_first_zero, str_from_utf8, zero_index};
use crate::assets::uop::{le_u16, le_u16_at, le_u64_at};
use crate::protocol::ProtocolError;

verus! {

/// Properties of a tile, one bit each.
#[derive(Debug, Clone, Copy, PartialEq, Eq, Structural)]
pub struct TileFlags(u64);

impl View for TileFlags {
    type V = u64;

    closed spec fn view(&self) -> u64 {
        self.0
    }
}

impl TileFlags {
    pub const BACKGROUND: u64 = 0x1;
    pub const WEAPON: u64 = 0x2;
    pub const TRANSPARENT: u64 = 0x4;
    pub const TRANSLUCENT: u64 = 0x8;
    pub const WALL: u64 = 0x10;
    pub const DAMAGING: u64 = 0x20;
    pub const IMPASSABLE: u64 = 0x40;
    pub const WET: u64 = 0x80;
    pub const SURFACE: u64 = 0x200;
    pub const BRIDGE: u64 = 0x400;
    pub const FUNGIBLE: u64 = 0x800;
    pub const WINDOW: u64 = 0x1000;
    pub const BLOCK_LOS: u64 = 0x2000;
    pub const ARTICLE_A: u64 = 0x4000;
    pub const ARTICLE_AN: u64 = 0x8000;
    pub const INTERNAL: u64 = 0x10000;
    pub const FOLIAGE: u64 = 0x20000;
    pub const PARTIAL_HUE: u64 = 0x40000;
    pub const MAP: u64 = 0x100000;
    pub const CONTAINER: u64 = 0x200000;
    pub const WEARABLE: u64 = 0x400000;
    pub const LIGHT_SOURCE: u64 = 0x800000;
    pub const ANIMATION: u64 = 0x1000000;
    pub const HOVER_OVER: u64 = 0x2000000;
    pub const ARMOUR: u64 = 0x8000000;
    pub const ROOF: u64 = 0x10000000;
    pub const DOOR: u64 = 0x20000000;
    pub const STAIR_BACK: u64 = 0x40000000;
    pub const STAIR_RIGHT: u64 = 0x80000000;

    /// Every defined bit.
    pub open spec fn spec_all() -> u64 {
        0xfbf7feff
    }

    /// The defined bits of `bits`; the others are dropped.
    pub fn from_bits_truncate(bits: u64) -> (r: TileFlags)
        ensures
            r@ == bits & TileFlags::spec_all(),
    {
        TileFlags(bits & 0xfbf7feff)
    }

    /// No bit set.
    pub fn empty() -> (r: TileFlags)
        ensures
            r@ == 0,
    {
        TileFlags(0)
    }

    /// The bits.
    pub fn bits(&self) -> (r: u64)
        ensures
            r == self@,
    {
        self.0
    }

    /// Whether every bit of `flag` is set.
    pub fn contains(&self, flag: u64) -> (r: bool)
        ensures
            r == (self@ & flag == flag),
    {
        self.0 & flag == flag
    }
}

/// A land tile: its name, flags and texture.
#[derive(Debug, Clone)]
pub struct LandInfo {
    pub name: String,
    pub flags: TileFlags,
    pub texture_id: u16,
}

/// An item: its name, flags and properties.
#[derive(Debug, Clone)]
pub struct ItemInfo {
    pub name: String,
    pub flags: TileFlags,
    pub weight: u8,
    pub quality: u8,
    pub animation: u16,
    pub quantity: u8,
    pub value: u8,
    pub height: u8,
}

/// The land tiles and the items, by id.
#[derive(Debug, Clone, Default)]
pub struct TileData {
    pub land: Vec<LandInfo>,
    pub items: Vec<ItemInfo>,
}

pub const NUM_LAND_TILES: usize = 0x4000;
pub const NUM_ITEMS: usize = 0x10000;

/// Where land entry `i` starts: each group of 32 entries follows a 4-byte
/// header, and an entry takes 30 bytes.
pub open spec fn land_offset(i: int) -> int {
    4 * (i / 32 + 1) + 30 * i
}

/// The bytes of the land section.
pub open spec fn land_section() -> int {
    4 * (0x4000int / 32) + 30 * 0x4000
}

/// Where item entry `i` starts: as land entries, with 41 bytes an entry.
pub open spec fn item_offset(i: int) -> int {
    land_section() + 4 * (i / 32 + 1) + 41 * i
}

/// The text of a 20-byte name field: up to its first zero byte.
pub open spec fn name_bytes(s: Seq<u8>, at: int) -> Seq<u8> {
    s.subrange(at, at + 20).take(first_zero(s.subrange(at, at + 20)))
}

/// Entry `k`, land tiles first and then items: why it cannot be read, if
/// it cannot.
pub open spec fn tile_entry_error(s: Seq<u8>, k: int) -> Option<ProtocolError> {
    let end = if k < 0x4000 {
        land_offset(k) + 30
    } else {
        item_offset(k - 0x4000) + 41
    };
    if s.len() < end {
        Some(ProtocolError::UnexpectedEof)
    } else if !valid_utf8(name_bytes(s, end - 20)) {
        Some(ProtocolError::InvalidUtf8)
    } else {
        None
    }
}

/// Why the tile data cannot be read, if it cannot: the error of the first
/// entry that fails.
pub open spec fn tile_data_error(s: Seq<u8>) -> Option<ProtocolError> {
    first_error(0x14000, 0, |k: int| tile_entry_error(s, k))
}

/// Land entry `i` as plain values: name, flags, texture.
pub open spec fn land_view(s: Seq<u8>, i: int) -> (Seq<char>, u64, u16) {
    let at = land_offset(i);
    (decode_utf8(name_bytes(s, at + 10)), le_u64(s, at) & TileFlags::spec_all(), le_u16(s, at + 8))
}

/// Item entry `i` as plain values: name, flags, weight, quality, animation,
/// quantity, value, height.
pub open spec fn item_view(s: Seq<u8>, i: int) -> (Seq<char>, u64, u8, u8, u16, u8, u8, u8) {
    let at = item_offset(i);
    (
        decode_utf8(name_bytes(s, at + 21)),
        le_u64(s, at) & TileFlags::spec_all(),
        s[at + 8],
        s[at + 9],
        le_u16(s, at + 10),
        s[at + 13],
        s[at + 19],
        s[at + 20],
    )
}

pub open spec fn land_info_view(l: LandInfo) -> (Seq<char>, u64, u16) {
    (l.name@, l.flags@, l.texture_id)
}

pub open spec fn item_info_view(t: ItemInfo) -> (Seq<char>, u64, u8, u8, u16, u8, u8, u8) {
    (t.name@, t.flags@, t.weight, t.quality, t.animation, t.quantity, t.value, t.height)
}

/// Reads a 20-byte name field at `at`.
fn read_name(s: &[u8], at: usize) -> (r: Option<String>)
    requires
        at + 20 <= s@.len(),
    ensures
        r is Some <==> valid_utf8(name_bytes(s@, at as int)),
        r matches Some(n) ==> n@ == decode_utf8(name_bytes(s@, at as int)),
{
    let _len = s.len();
    let field = vstd::slice::slice_subrange(s, at, at + 20);
    let n = zero_index(field);
    proof {
        lemma_first_zero(field@, n as int);
    }
    let text = vstd::slice::slice_subrange(field, 0, n);
    assert(text@ =~= name_bytes(s@, at as int));
    match str_from_utf8(text) {
        Some(t) => Some(t.to_owned()),
        None => None,
    }
}

/// Reads the tile data file: land tiles, then items.
pub fn read_tile_data(s: &[u8]) -> (r: Result<TileData, ProtocolError>)
    ensures
        match tile_data_error(s@) {
            Some(e) => r == Err::<TileData, ProtocolError>(e),
            None => (r matches Ok(d) && {
                &&& d.land@.len() == NUM_LAND_TILES
                &&& d.items@.len() == NUM_ITEMS
                &&& forall|i: int| 0 <= i < NUM_LAND_TILES ==> #[trigger] land_info_view(d.land@[i]) == land_view(s@, i)
                &&& forall|i: int| 0 <= i < NUM_ITEMS ==> #[trigger] item_info_view(d.items@[i]) == item_view(s@, i)
            }),
        },
{
    let ghost err = |k: int| tile_entry_error(s@, k);
    let len = s.len();
    let mut land: Vec<LandInfo> = Vec::new();
    let mut i: usize = 0;
    while i < NUM_LAND_TILES
        invariant
            len == s@.len(),
            i <= NUM_LAND_TILES,
            land@.len() == i,
            err == (|k: int| tile_entry_error(s@, k)),
            first_error(0x14000, 0, err) == first_error(0x14000, i as int, err),
            forall|j: int| 0 <= j < i ==> #[trigger] land_info_view(land@[j]) == land_view(s@, j),
        decreases NUM_LAND_TILES - i,
    {
        let at = 4 * (i / 32 + 1) + 30 * i;
        assert(at == land_offset(i as int));
        if len < at + 30 {
            assert(err(i as int) == Some(ProtocolError::UnexpectedEof));
            return Err(ProtocolError::UnexpectedEof);
        }
        let flags = TileFlags::from_bits_truncate(le_u64_at(s, at));
        let texture_id = le_u16_at(s, at + 8);
        let name = match read_name(s, at + 10) {
            Some(n) => n,
            None => {
                assert(err(i as int) == Some(ProtocolError::InvalidUtf8));
                return Err(ProtocolError::InvalidUtf8);
            },
        };
        assert(err(i as int) is None);
        land.push(LandInfo { name, flags, texture_id });
        i += 1;
    }
    let mut items: Vec<ItemInfo> = Vec::new();
    let mut i: usize = 0;
    while i < NUM_ITEMS
        invariant
            len == s@.len(),
            i <= NUM_ITEMS,
            items@.len() == i,
            err == (|k: int| tile_entry_error(s@, k)),
            first_error(0x14000, 0, err) == first_error(0x14000, 0x4000 + i, err),
            forall|j: int| 0 <= j < i ==> #[trigger] item_info_view(items@[j]) == item_view(s@, j),
        decreases NUM_ITEMS - i,
    {
        let at = 493568 + 4 * (i / 32 + 1) + 41 * i;
        assert(at == item_offset(i as int));
        if len < at + 41 {
            assert(err(0x4000 + i) == Some(ProtocolError::UnexpectedEof));
            return Err(ProtocolError::UnexpectedEof);
        }
        let flags = TileFlags::from_bits_truncate(le_u64_at(s, at));
        let weight = s[at + 8];
        let quality = s[at + 9];
        let animation = le_u16_at(s, at + 10);
        let quantity = s[at + 13];
        let value = s[at + 19];
        let height = s[at + 20];
        let name = match read_name(s, at + 21) {
            Some(n) => n,
            None => {
                assert(err(0x4000 + i) == Some(ProtocolError::InvalidUtf8));
                return Err(ProtocolError::InvalidUtf8);
            },
        };
        assert(err(0x4000 + i) is None);
        items.push(ItemInfo { name, flags, weight, quality, animation, quantity, value, height });
        i += 1;
    }
    assert(first_error(0x14000, 0x14000, err) is None);
    Ok(TileData { land, items })
}

} // verus!
