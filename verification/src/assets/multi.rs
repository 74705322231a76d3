//! Multis: buildings and ships made of several items, from the multi
//! collection archive.

use vstd::prelude::*;

use crate::assets::mul::{decimal_padded, uop_entry_contents};
use crate::assets::tiles::TileFlags;
use crate::assets::uop::{hash, hash_tail, le_u16, le_u16_at, le_u32_at, spec_hash, UopBuffer};
use crate::protocol::format::le_u32;
use crate::protocol::ProtocolError;
use crate::vector::IVec3;

verus! {

/// The largest number of multis the collection is searched for.
pub const MAX_MULTIS: usize = 9000;

/// One item of a multi.
#[derive(Debug, Clone)]
pub struct MultiPrefabComponent {
    pub graphic: u16,
    pub position: IVec3,
    pub tile_flags: TileFlags,
    pub component_flags: u16,
    pub tooltip_ids: Vec<u32>,
}

/// The items of a multi.
#[derive(Debug, Clone)]
pub struct MultiPrefab {
    pub components: Vec<MultiPrefabComponent>,
}

/// The multis found in the collection, in the order of their numbers.
#[derive(Debug, Clone, Default)]
pub struct MultiData {
    pub prefabs: Vec<MultiPrefab>,
}

/// A component as plain values: graphic, position, component flags, tooltip
/// ids; its tile flags are always empty.
pub open spec fn component_view(c: MultiPrefabComponent) -> (u16, (i32, i32, i32), u16, Seq<u32>) {
    (c.graphic, (c.position.x, c.position.y, c.position.z), c.component_flags, c.tooltip_ids@)
}

/// The components of a multi as plain values.
pub open spec fn components_view(v: Seq<MultiPrefabComponent>) -> Seq<(u16, (i32, i32, i32), u16, Seq<u32>)> {
    v.map_values(|c: MultiPrefabComponent| component_view(c))
}

/// The signed 16-bit value stored little-endian at `at`, widened.
pub open spec fn le_i16(s: Seq<u8>, at: int) -> i32 {
    le_u16(s, at) as i16 as i32
}

/// `n` little-endian `u32` values from `at`.
pub open spec fn le_u32_list(s: Seq<u8>, at: int, n: nat) -> Seq<u32> {
    Seq::new(n, |i: int| le_u32(s, at + 4 * i))
}

/// Reads `count` components from `pos`: each is a graphic, a position of
/// three signed 16-bit values, flags, a tooltip count and the tooltip ids.
/// The components and the position after them, or `None` when the bytes
/// run out.
pub open spec fn multi_components(s: Seq<u8>, pos: int, count: nat) -> Option<
    (Seq<(u16, (i32, i32, i32), u16, Seq<u32>)>, int),
>
    decreases count,
{
    if count == 0 {
        Some((Seq::empty(), pos))
    } else {
        match multi_components(s, pos, (count - 1) as nat) {
            None => None,
            Some((cs, at)) => if at < 0 || s.len() < at + 14 || s.len() < at + 14 + 4 * le_u32(s, at + 10) {
                None
            } else {
                let n = le_u32(s, at + 10) as nat;
                let c = (
                    le_u16(s, at),
                    (le_i16(s, at + 2), le_i16(s, at + 4), le_i16(s, at + 6)),
                    le_u16(s, at + 8),
                    le_u32_list(s, at + 14, n),
                );
                Some((cs.push(c), at + 14 + 4 * n))
            },
        }
    }
}

/// A multi's entry: its number, then its components; `None` when the bytes
/// run out.
pub open spec fn multi_prefab_of(s: Seq<u8>) -> Option<Seq<(u16, (i32, i32, i32), u16, Seq<u32>)>> {
    if s.len() < 8 {
        None
    } else {
        match multi_components(s, 8, le_u32(s, 4) as nat) {
            None => None,
            Some((cs, _end)) => Some(cs),
        }
    }
}

proof fn lemma_multi_components_none_grows(s: Seq<u8>, pos: int, k: nat, count: nat)
    requires
        k <= count,
        multi_components(s, pos, k) is None,
    ensures
        multi_components(s, pos, count) is None,
    decreases count - k,
{
    if k < count {
        lemma_multi_components_none_grows(s, pos, k, (count - 1) as nat);
    }
}

fn read_i16_widened(s: &[u8], at: usize) -> (r: i32)
    requires
        at + 2 <= s@.len(),
    ensures
        r == le_i16(s@, at as int),
{
    le_u16_at(s, at) as i16 as i32
}

/// Reads a multi's entry.
pub fn read_multi_prefab(s: &[u8]) -> (r: Result<MultiPrefab, ProtocolError>)
    ensures
        match multi_prefab_of(s@) {
            None => r == Err::<MultiPrefab, ProtocolError>(ProtocolError::UnexpectedEof),
            Some(cs) => (r matches Ok(p) && components_view(p.components@) == cs
                && forall|i: int| 0 <= i < p.components@.len() ==> (#[trigger] p.components@[i]).tile_flags@ == 0),
        },
{
    let len = s.len();
    if len < 8 {
        return Err(ProtocolError::UnexpectedEof);
    }
    let count = le_u32_at(s, 4);
    let mut components: Vec<MultiPrefabComponent> = Vec::new();
    let mut at: usize = 8;
    let mut k: u32 = 0;
    proof {
        assert(components_view(components@) =~= Seq::<(u16, (i32, i32, i32), u16, Seq<u32>)>::empty());
    }
    while k < count
        invariant
            len == s@.len(),
            count == le_u32(s@, 4),
            k <= count,
            8 <= at <= len,
            multi_components(s@, 8, k as nat) == Some((components_view(components@), at as int)),
            forall|i: int| 0 <= i < components@.len() ==> (#[trigger] components@[i]).tile_flags@ == 0,
        decreases count - k,
    {
        if len - at < 14 {
            proof {
                lemma_multi_components_none_grows(s@, 8, (k + 1) as nat, count as nat);
            }
            return Err(ProtocolError::UnexpectedEof);
        }
        let graphic = le_u16_at(s, at);
        let x = read_i16_widened(s, at + 2);
        let y = read_i16_widened(s, at + 4);
        let z = read_i16_widened(s, at + 6);
        let component_flags = le_u16_at(s, at + 8);
        let tooltip_count = le_u32_at(s, at + 10);
        if (len - at - 14) / 4 < tooltip_count as usize {
            proof {
                assert(s@.len() < at + 14 + 4 * tooltip_count) by (nonlinear_arith)
                    requires
                        (len - at - 14) / 4 < tooltip_count,
                        len == s@.len(),
                        at + 14 <= len,
                ;
                lemma_multi_components_none_grows(s@, 8, (k + 1) as nat, count as nat);
            }
            return Err(ProtocolError::UnexpectedEof);
        }
        let start = at + 14;
        let mut tooltip_ids: Vec<u32> = Vec::new();
        let mut j: u32 = 0;
        while j < tooltip_count
            invariant
                len == s@.len(),
                start + 4 * tooltip_count <= len,
                j <= tooltip_count,
                tooltip_ids@ == le_u32_list(s@, start as int, j as nat),
            decreases tooltip_count - j,
        {
            let id = le_u32_at(s, start + 4 * (j as usize));
            tooltip_ids.push(id);
            j += 1;
            assert(tooltip_ids@ =~= le_u32_list(s@, start as int, j as nat));
        }
        let c = MultiPrefabComponent {
            graphic,
            position: IVec3::new(x, y, z),
            tile_flags: TileFlags::empty(),
            component_flags,
            tooltip_ids,
        };
        let ghost before = components_view(components@);
        components.push(c);
        proof {
            assert(components_view(components@) =~= before.push(component_view(c)));
        }
        at = start + 4 * (tooltip_count as usize);
        k += 1;
    }
    Ok(MultiPrefab { components })
}

/// The archive path of multi `index`:
/// `build/multicollection/<index as six digits>.bin`.
pub open spec fn multi_path(index: nat) -> Seq<u8> {
    seq![98u8, 117, 105, 108, 100, 47, 109, 117, 108, 116, 105, 99, 111, 108, 108, 101, 99, 116, 105, 111, 110, 47]
        + decimal_padded(index, 6) + seq![46u8, 98, 105, 110]
}

/// The multis of the collection from number `index` on, those it has, or
/// the error reading one.
pub open spec fn multi_data_from(u: UopBuffer, index: nat) -> Result<
    Seq<Seq<(u16, (i32, i32, i32), u16, Seq<u32>)>>,
    ProtocolError,
>
    decreases MAX_MULTIS - index,
{
    if index >= MAX_MULTIS {
        Ok(Seq::empty())
    } else {
        match uop_entry_contents(u, spec_hash(multi_path(index))) {
            None => multi_data_from(u, index + 1),
            Some(None) => Err(ProtocolError::InvalidValue),
            Some(Some(bytes)) => match multi_prefab_of(bytes) {
                None => Err(ProtocolError::UnexpectedEof),
                Some(p) => match multi_data_from(u, index + 1) {
                    Ok(rest) => Ok(seq![p] + rest),
                    Err(e) => Err(e),
                },
            },
        }
    }
}

fn multi_path_bytes(index: u32) -> (r: Vec<u8>)
    requires
        index < 1_000_000,
    ensures
        r@ == multi_path(index as nat),
        r@.len() == 32,
{
    let mut out: Vec<u8> = Vec::new();
    let prefix: [u8; 22] = [98, 117, 105, 108, 100, 47, 109, 117, 108, 116, 105, 99, 111, 108, 108, 101, 99, 116, 105, 111, 110, 47];
    let mut i: usize = 0;
    while i < 22
        invariant
            i <= 22,
            out@ == prefix@.take(i as int),
        decreases 22 - i,
    {
        out.push(prefix[i]);
        i += 1;
        assert(out@ =~= prefix@.take(i as int));
    }
    let n0 = index;
    let n1 = n0 / 10;
    let n2 = n1 / 10;
    let n3 = n2 / 10;
    let n4 = n3 / 10;
    let n5 = n4 / 10;
    out.push((48 + n5 % 10) as u8);
    out.push((48 + n4 % 10) as u8);
    out.push((48 + n3 % 10) as u8);
    out.push((48 + n2 % 10) as u8);
    out.push((48 + n1 % 10) as u8);
    out.push((48 + n0 % 10) as u8);
    out.push(46);
    out.push(98);
    out.push(105);
    out.push(110);
    proof {
        reveal_with_fuel(decimal_padded, 7);
        assert(prefix@.take(22) =~= seq![98u8, 117, 105, 108, 100, 47, 109, 117, 108, 116, 105, 99, 111, 108, 108, 101, 99, 116, 105, 111, 110, 47]);
    }
    assert(out@ =~= multi_path(index as nat));
    out
}

/// Reads the multis of the collection archive, numbers 0 to 8999, skipping
/// the numbers it does not have.
pub fn load_multi_data(uop: &UopBuffer) -> (r: Result<MultiData, ProtocolError>)
    ensures
        match multi_data_from(*uop, 0) {
            Err(e) => r == Err::<MultiData, ProtocolError>(e),
            Ok(ps) => (r matches Ok(d) && d.prefabs@.len() == ps.len() && forall|i: int|
                0 <= i < ps.len() ==> components_view((#[trigger] d.prefabs@[i]).components@) == ps[i]),
        },
{
    let mut prefabs: Vec<MultiPrefab> = Vec::new();
    let mut index: u32 = 0;
    while index < 9000
        invariant
            index <= 9000,
            match multi_data_from(*uop, index as nat) {
                Ok(rest) => match multi_data_from(*uop, 0) {
                    Ok(all) => all == Seq::new(prefabs@.len(), |i: int| components_view(prefabs@[i].components@)) + rest,
                    Err(_) => false,
                },
                Err(e) => multi_data_from(*uop, 0) == Err::<Seq<Seq<(u16, (i32, i32, i32), u16, Seq<u32>)>>, ProtocolError>(e),
            },
        decreases 9000 - index,
    {
        let path = multi_path_bytes(index);
        let ghost done = Seq::new(prefabs@.len(), |i: int| components_view(prefabs@[i].components@));
        proof {
            assert(hash_tail(8) == 8);
            assert(hash_tail(20) == 8);
            assert(hash_tail(32) == 8);
        }
        match uop.get_by_hash(hash(path.as_slice())) {
            None => {},
            Some(entry) => {
                let bytes = match entry.contents() {
                    Ok(b) => b,
                    Err(e) => return Err(e),
                };
                let prefab = read_multi_prefab(bytes.as_slice())?;
                prefabs.push(prefab);
                proof {
                    let now = Seq::new(prefabs@.len(), |i: int| components_view(prefabs@[i].components@));
                    assert(now =~= done.push(components_view(prefab.components@)));
                    match multi_data_from(*uop, (index + 1) as nat) {
                        Ok(rest) => {
                            assert(done + (seq![components_view(prefab.components@)] + rest) =~= now + rest);
                        },
                        Err(_) => {},
                    }
                }
            },
        }
        index += 1;
    }
    proof {
        let done = Seq::new(prefabs@.len(), |i: int| components_view(prefabs@[i].components@));
        assert(done + Seq::<Seq<(u16, (i32, i32, i32), u16, Seq<u32>)>>::empty() =~= done);
    }
    Ok(MultiData { prefabs })
}

} // verus!
