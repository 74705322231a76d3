//! Map files: the land tiles of the world in 8x8 chunks, and the statics
//! placed on them.

use vstd::prelude::*;

use crate::assets::uop::{le_u16, le_u16_at, le_u32_at};
use crate::protocol::format::le_u32;
use crate::protocol::ProtocolError;
use crate::vector::IVec3;

verus! {

pub const CHUNK_SIZE: usize = 8;
pub const CHUNK_AREA: usize = 64;

/// One land tile: its graphic and its height.
#[derive(Debug, Clone, Copy, Default, PartialEq, Eq, Structural)]
pub struct MapTile {
    pub tile_id: u16,
    pub height: i8,
}

/// An 8x8 chunk of land tiles, row by row.
#[derive(Debug, Clone)]
pub struct MapChunk {
    pub tiles: [MapTile; 64],
}

impl Default for MapChunk {
    fn default() -> (r: MapChunk)
        ensures
            forall|i: int| 0 <= i < 64 ==> #[trigger] r.tiles@[i] == (MapTile { tile_id: 0, height: 0 }),
    {
        MapChunk { tiles: [MapTile { tile_id: 0, height: 0 }; 64] }
    }
}

impl MapChunk {
    /// The tile at column `x`, row `y`.
    pub fn get(&self, x: usize, y: usize) -> (r: MapTile)
        requires
            x + CHUNK_SIZE * y < CHUNK_AREA,
        ensures
            r == self.tiles@[x + CHUNK_SIZE * y],
    {
        let index = x + CHUNK_SIZE * y;
        self.tiles[index]
    }
}

/// The number of chunks across and down that cover a map of this size.
pub fn map_chunk_count(width: usize, height: usize) -> (r: (usize, usize))
    ensures
        r.0 == (width + 7) / 8,
        r.1 == (height + 7) / 8,
{
    let w = width / 8 + if width % 8 != 0 { 1 } else { 0 };
    let h = height / 8 + if height % 8 != 0 { 1 } else { 0 };
    (w, h)
}

/// The bytes of one chunk in the map file: four unused bytes, then each
/// tile's graphic and height.
pub open spec fn raw_chunk_size() -> int {
    196
}

/// The tile `i` of the chunk that starts at `at`.
pub open spec fn raw_tile(s: Seq<u8>, at: int, i: int) -> MapTile {
    MapTile { tile_id: le_u16(s, at + 4 + 3 * i), height: s[at + 6 + 3 * i] as i8 }
}

/// Reads the chunk that starts at `at`.
fn read_chunk(s: &[u8], at: usize) -> (r: MapChunk)
    requires
        at + 196 <= s@.len(),
    ensures
        forall|i: int| 0 <= i < 64 ==> #[trigger] r.tiles@[i] == raw_tile(s@, at as int, i),
{
    let len = s.len();
    let mut chunk = MapChunk { tiles: [MapTile { tile_id: 0, height: 0 }; 64] };
    let mut i: usize = 0;
    while i < 64
        invariant
            len == s@.len(),
            at + 196 <= s@.len(),
            i <= 64,
            forall|j: int| 0 <= j < i ==> #[trigger] chunk.tiles@[j] == raw_tile(s@, at as int, j),
        decreases 64 - i,
    {
        let p = at + 4 + 3 * i;
        let tile = MapTile { tile_id: le_u16_at(s, p), height: s[p + 2] as i8 };
        chunk.tiles.set(i, tile);
        i += 1;
    }
    chunk
}

/// The chunks of a map file, column of chunks by column of chunks, each
/// with its chunk coordinates. The file must hold them all; what follows
/// them is left alone.
pub fn read_map_chunks(s: &[u8], width: usize, height: usize) -> (r: Result<Vec<(usize, usize, MapChunk)>, ProtocolError>)
    ensures
        ({
            let wc = (width + 7) / 8;
            let hc = (height + 7) / 8;
            match r {
                Ok(v) => {
                    &&& s@.len() >= raw_chunk_size() * wc * hc
                    &&& v@.len() == wc * hc
                    &&& forall|k: int| 0 <= k < v@.len() ==> {
                        &&& (#[trigger] v@[k]).0 == k / hc
                        &&& v@[k].1 == k % hc
                        &&& forall|i: int| 0 <= i < 64 ==> #[trigger] v@[k].2.tiles@[i] == raw_tile(s@, raw_chunk_size() * k, i)
                    }
                },
                Err(e) => (e == ProtocolError::UnexpectedEof && s@.len() < raw_chunk_size() * wc * hc) || (e
                    == ProtocolError::InvalidValue && raw_chunk_size() * wc * hc > usize::MAX),
            }
        }),
{
    let (wc, hc) = map_chunk_count(width, height);
    let len = s.len();
    if hc != 0 && wc > usize::MAX / hc {
        proof {
            assert(wc * hc > usize::MAX) by (nonlinear_arith)
                requires
                    hc != 0,
                    wc > usize::MAX / hc,
            ;
            assert(196 * wc * hc > usize::MAX) by (nonlinear_arith)
                requires
                    wc * hc > usize::MAX,
            ;
        }
        return Err(ProtocolError::InvalidValue);
    }
    proof {
        if hc != 0 {
            assert(wc * hc <= usize::MAX) by (nonlinear_arith)
                requires
                    hc != 0,
                    wc <= usize::MAX / hc,
            ;
        }
    }
    let count = wc * hc;
    if count > usize::MAX / 196 {
        proof {
            assert(196 * wc * hc > usize::MAX) by (nonlinear_arith)
                requires
                    count == wc * hc,
                    count > usize::MAX / 196,
            ;
        }
        return Err(ProtocolError::InvalidValue);
    }
    if len < 196 * count {
        proof {
            assert(196 * wc * hc == 196 * count) by (nonlinear_arith)
                requires
                    count == wc * hc,
            ;
        }
        return Err(ProtocolError::UnexpectedEof);
    }
    proof {
        assert(196 * wc * hc == 196 * count) by (nonlinear_arith)
            requires
                count == wc * hc,
        ;
    }
    let mut out: Vec<(usize, usize, MapChunk)> = Vec::new();
    let mut x: usize = 0;
    while x < wc
        invariant
            len == s@.len(),
            count == wc * hc,
            196 * count <= len,
            x <= wc,
            out@.len() == x * hc,
            forall|k: int| 0 <= k < out@.len() ==> {
                &&& (#[trigger] out@[k]).0 == k / (hc as int)
                &&& out@[k].1 == k % (hc as int)
                &&& forall|i: int| 0 <= i < 64 ==> #[trigger] out@[k].2.tiles@[i] == raw_tile(s@, 196 * k, i)
            },
        decreases wc - x,
    {
        let mut y: usize = 0;
        while y < hc
            invariant
                len == s@.len(),
                count == wc * hc,
                196 * count <= len,
                x < wc,
                y <= hc,
                out@.len() == x * hc + y,
                forall|k: int| 0 <= k < out@.len() ==> {
                    &&& (#[trigger] out@[k]).0 == k / (hc as int)
                    &&& out@[k].1 == k % (hc as int)
                    &&& forall|i: int| 0 <= i < 64 ==> #[trigger] out@[k].2.tiles@[i] == raw_tile(s@, 196 * k, i)
                },
            decreases hc - y,
        {
            proof {
                assert(x * hc + y < wc * hc) by (nonlinear_arith)
                    requires
                        x < wc,
                        y < hc,
                ;
            }
            let k = x * hc + y;
            proof {
                assert(196 * k + 196 <= 196 * count) by (nonlinear_arith)
                    requires
                        k < count,
                ;
                assert(k / hc == x && k % hc == y) by (nonlinear_arith)
                    requires
                        k == x * hc + y,
                        y < hc,
                ;
            }
            let chunk = read_chunk(s, 196 * k);
            out.push((x, y, chunk));
            y += 1;
        }
        proof {
            assert((x + 1) * hc == x * hc + hc) by (nonlinear_arith);
        }
        x += 1;
    }
    Ok(out)
}

/// An item placed on the map.
#[derive(Debug, Clone, Copy)]
pub struct Static {
    pub position: IVec3,
    pub graphic_id: u16,
    pub hue: u16,
}

/// The statics of a block as the files give them: for block `k` (blocks
/// column by column), its index entry of twelve bytes at `12 * k` gives the
/// offset and length of its statics in the data file, seven bytes each;
/// an offset or length of all ones marks a block without statics.
pub open spec fn static_block(
    index: Seq<u8>,
    data: Seq<u8>,
    k: int,
    block_x: int,
    block_y: int,
) -> Result<Option<Seq<Static>>, ProtocolError> {
    if index.len() < 12 * k + 12 {
        Err(ProtocolError::UnexpectedEof)
    } else {
        let offset = le_u32(index, 12 * k);
        let length = le_u32(index, 12 * k + 4);
        if offset == 0xffffffff || length == 0xffffffff {
            Ok(None)
        } else if data.len() < offset + length {
            Err(ProtocolError::UnexpectedEof)
        } else if length % 7 != 0 {
            Err(ProtocolError::InvalidValue)
        } else {
            Ok(Some(Seq::new((length / 7) as nat, |i: int| static_at(data, offset as int, i, block_x, block_y))))
        }
    }
}

/// The static `i` of the run at `offset`, in the block at `(block_x, block_y)`:
/// its graphic, its offsets within the block and height, and its hue. The
/// block's first cell is taken as an `i32` by truncation, and the offset is
/// added to it in 32-bit arithmetic that wraps.
pub open spec fn static_at(data: Seq<u8>, offset: int, i: int, block_x: int, block_y: int) -> Static {
    let at = offset + 7 * i;
    Static {
        position: IVec3 {
            x: ((block_x * 8) as i32).wrapping_add(data[at + 2] as i8 as i32),
            y: ((block_y * 8) as i32).wrapping_add(data[at + 3] as i8 as i32),
            z: data[at + 4] as i8 as i32,
        },
        graphic_id: le_u16(data, at),
        hue: le_u16(data, at + 5),
    }
}

/// The statics of block `k`, at block coordinates `(block_x, block_y)`:
/// `None` for a block without statics.
pub fn read_static_block(index: &[u8], data: &[u8], k: usize, block_x: usize, block_y: usize) -> (r: Result<
    Option<Vec<Static>>,
    ProtocolError,
>)
    requires
        block_x * 8 <= usize::MAX,
        block_y * 8 <= usize::MAX,
        k < usize::MAX / 12,
    ensures
        match static_block(index@, data@, k as int, block_x as int, block_y as int) {
            Err(e) => r == Err::<Option<Vec<Static>>, ProtocolError>(e),
            Ok(None) => r == Ok::<Option<Vec<Static>>, ProtocolError>(None),
            Ok(Some(v)) => (r matches Ok(Some(w)) && w@ == v),
        },
{
    let ilen = index.len();
    let dlen = data.len();
    if ilen < 12 * k + 12 {
        return Err(ProtocolError::UnexpectedEof);
    }
    let offset = le_u32_at(index, 12 * k);
    let length = le_u32_at(index, 12 * k + 4);
    if offset == 0xffffffff || length == 0xffffffff {
        return Ok(None);
    }
    if (dlen as u64) < (offset as u64) + (length as u64) {
        return Err(ProtocolError::UnexpectedEof);
    }
    if length % 7 != 0 {
        return Err(ProtocolError::InvalidValue);
    }
    let start = offset as usize;
    let n = (length / 7) as usize;
    let x_base = (block_x * 8) as i32;
    let y_base = (block_y * 8) as i32;
    let mut out: Vec<Static> = Vec::new();
    let mut i: usize = 0;
    while i < n
        invariant
            dlen == data@.len(),
            start + 7 * n <= dlen,
            start == offset,
            n == length / 7,
            x_base == (block_x * 8) as i32,
            y_base == (block_y * 8) as i32,
            i <= n,
            out@.len() == i,
            forall|j: int| 0 <= j < i ==> #[trigger] out@[j] == static_at(data@, start as int, j, block_x as int, block_y as int),
        decreases n - i,
    {
        let at = start + 7 * i;
        let graphic_id = le_u16_at(data, at);
        let x = x_base.wrapping_add(data[at + 2] as i8 as i32);
        let y = y_base.wrapping_add(data[at + 3] as i8 as i32);
        let z = data[at + 4] as i8 as i32;
        let hue = le_u16_at(data, at + 5);
        out.push(Static { position: IVec3::new(x, y, z), graphic_id, hue });
        i += 1;
    }
    assert(out@ =~= Seq::new(n as nat, |j: int| static_at(data@, start as int, j, block_x as int, block_y as int)));
    Ok(Some(out))
}

} // verus!
