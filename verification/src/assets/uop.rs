//! UOP archives: a table of entries, found by the hash of their path, each
//! a run of bytes of the file that may be zlib-compressed.

use std::collections::HashMap;

use vstd::prelude::*;
use vstd::string::StringSliceAdditionalSpecFns;

use crate::protocol::format::{le_u32, le_u64};
use crate::protocol::ProtocolError;
use crate::zlib::{zlib_decompress, zlib_inflate};

verus! {

broadcast use vstd::std_specs::hash::group_hash_axioms;

/// The little-endian `u16` stored at `s[i..i + 2]`.
pub open spec fn le_u16(s: Seq<u8>, i: int) -> u16 {
    (s[i] as int + s[i + 1] as int * 0x100) as u16
}

/// Reads a little-endian `u16` at `i`.
pub fn le_u16_at(data: &[u8], i: usize) -> (r: u16)
    requires
        i + 2 <= data@.len(),
    ensures
        r == le_u16(data@, i as int),
{
    (data[i] as u16) + (data[i + 1] as u16) * 0x100
}

/// Reads a little-endian `u32` at `i`.
pub fn le_u32_at(data: &[u8], i: usize) -> (r: u32)
    requires
        i + 4 <= data@.len(),
    ensures
        r == le_u32(data@, i as int),
{
    (data[i] as u32) + (data[i + 1] as u32) * 0x100 + (data[i + 2] as u32) * 0x10000 + (data[i + 3] as u32)
        * 0x1000000
}

/// Reads a little-endian `u64` at `i`.
pub fn le_u64_at(data: &[u8], i: usize) -> (r: u64)
    requires
        i + 8 <= data@.len(),
    ensures
        r == le_u64(data@, i as int),
{
    let _len = data.len();
    let lo = le_u32_at(data, i) as u64;
    let hi = le_u32_at(data, i + 4) as u64;
    lo + hi * 0x1_0000_0000
}

// ---------------------------------------------------------------------------
// The path hash

/// `x` rotated left by `k` bits.
pub open spec fn rot(x: u32, k: u32) -> u32 {
    (x << k) | (x >> (32 - k) as u32)
}

/// The mixing of three state words after each full 12-byte block.
pub open spec fn hash_mix(a: u32, b: u32, c: u32) -> (u32, u32, u32) {
    let a = a.wrapping_sub(c) ^ rot(c, 4);
    let c = c.wrapping_add(b);
    let b = b.wrapping_sub(a) ^ rot(a, 6);
    let a = a.wrapping_add(c);
    let c = c.wrapping_sub(b) ^ rot(b, 8);
    let b = b.wrapping_add(a);
    let a = a.wrapping_sub(c) ^ rot(c, 16);
    let c = c.wrapping_add(b);
    let b = b.wrapping_sub(a) ^ rot(a, 19);
    let a = a.wrapping_add(c);
    let c = c.wrapping_sub(b) ^ rot(b, 4);
    let b = b.wrapping_add(a);
    (a, b, c)
}

/// The final mixing of the three state words.
pub open spec fn hash_final(a: u32, b: u32, c: u32) -> (u32, u32, u32) {
    let c = (c ^ b).wrapping_sub(rot(b, 14));
    let a = (a ^ c).wrapping_sub(rot(c, 11));
    let b = (b ^ a).wrapping_sub(rot(a, 25));
    let c = (c ^ b).wrapping_sub(rot(b, 16));
    let a = (a ^ c).wrapping_sub(rot(c, 4));
    let b = (b ^ a).wrapping_sub(rot(a, 14));
    let c = (c ^ b).wrapping_sub(rot(b, 24));
    (a, b, c)
}

/// Up to four bytes read as a little-endian `u32`; missing bytes are zero.
pub open spec fn partial_le_u32(s: Seq<u8>) -> u32 {
    (if s.len() > 0 { s[0] as u32 } else { 0u32 }) | (if s.len() > 1 { (s[1] as u32) << 8u32 } else { 0u32 }) | (if s.len()
        > 2 { (s[2] as u32) << 16u32 } else { 0u32 }) | (if s.len() > 3 { (s[3] as u32) << 24u32 } else { 0u32 })
}

/// The state words after hashing `s` from state `(a, b, c)`.
pub open spec fn hash_state(s: Seq<u8>, a: u32, b: u32, c: u32) -> (u32, u32, u32)
    decreases s.len(),
{
    if s.len() > 12 {
        let (a2, b2, c2) = hash_mix(
            a.wrapping_add(le_u32(s, 0)),
            b.wrapping_add(le_u32(s, 4)),
            c.wrapping_add(le_u32(s, 8)),
        );
        hash_state(s.skip(12), a2, b2, c2)
    } else if s.len() > 0 {
        hash_final(
            a.wrapping_add(partial_le_u32(s)),
            b.wrapping_add(partial_le_u32(s.skip(4))),
            c.wrapping_add(partial_le_u32(s.skip(8))),
        )
    } else {
        (a, b, c)
    }
}

/// The 64-bit hash of a path: the second state word above the third.
pub open spec fn spec_hash(s: Seq<u8>) -> u64 {
    let a = (s.len() as u32).wrapping_add(0xdeadbeef);
    let (_a, b, c) = hash_state(s, a, a, a);
    ((b as u64) * 0x1_0000_0000 + (c as u64)) as u64
}

/// The number of bytes left for the final step once full blocks are taken.
pub open spec fn hash_tail(n: nat) -> nat
    decreases n,
{
    if n > 12 {
        hash_tail((n - 12) as nat)
    } else {
        n
    }
}

/// The final step reads the last bytes at offsets four and eight, so it
/// needs none or at least eight of them.
pub open spec fn hash_readable(n: nat) -> bool {
    hash_tail(n) == 0 || hash_tail(n) >= 8
}

fn partial_read_u32(s: &[u8]) -> (r: u32)
    ensures
        r == partial_le_u32(s@),
{
    let l = s.len();
    let b0: u32 = if l > 0 { s[0] as u32 } else { 0u32 };
    let b1: u32 = if l > 1 { (s[1] as u32) << 8u32 } else { 0u32 };
    let b2: u32 = if l > 2 { (s[2] as u32) << 16u32 } else { 0u32 };
    let b3: u32 = if l > 3 { (s[3] as u32) << 24u32 } else { 0u32 };
    b0 | b1 | b2 | b3
}

fn rot_exec(x: u32, k: u32) -> (r: u32)
    requires
        0 < k < 32,
    ensures
        r == rot(x, k),
{
    (x << k) | (x >> (32 - k))
}

/// The hash of a path in a UOP archive.
pub fn hash(src: &[u8]) -> (r: u64)
    requires
        hash_readable(src@.len()),
    ensures
        r == spec_hash(src@),
{
    let mut src = src;
    let ghost s0 = src@;
    let init = (src.len() as u32).wrapping_add(0xdeadbeef);
    let mut a = init;
    let mut b = init;
    let mut c = init;
    while src.len() > 12
        invariant
            hash_readable(src@.len()),
            hash_state(s0, init, init, init) == hash_state(src@, a, b, c),
        decreases src@.len(),
    {
        let ghost prev = src@;
        a = a.wrapping_add(le_u32_at(src, 0));
        b = b.wrapping_add(le_u32_at(src, 4));
        c = c.wrapping_add(le_u32_at(src, 8));
        a = a.wrapping_sub(c) ^ rot_exec(c, 4);
        c = c.wrapping_add(b);
        b = b.wrapping_sub(a) ^ rot_exec(a, 6);
        a = a.wrapping_add(c);
        c = c.wrapping_sub(b) ^ rot_exec(b, 8);
        b = b.wrapping_add(a);
        a = a.wrapping_sub(c) ^ rot_exec(c, 16);
        c = c.wrapping_add(b);
        b = b.wrapping_sub(a) ^ rot_exec(a, 19);
        a = a.wrapping_add(c);
        c = c.wrapping_sub(b) ^ rot_exec(b, 4);
        b = b.wrapping_add(a);
        src = vstd::slice::slice_subrange(src, 12, src.len());
        assert(src@ =~= prev.skip(12));
    }
    if src.len() > 0 {
        a = a.wrapping_add(partial_read_u32(src));
        b = b.wrapping_add(partial_read_u32(vstd::slice::slice_subrange(src, 4, src.len())));
        c = c.wrapping_add(partial_read_u32(vstd::slice::slice_subrange(src, 8, src.len())));
        c = (c ^ b).wrapping_sub(rot_exec(b, 14));
        a = (a ^ c).wrapping_sub(rot_exec(c, 11));
        b = (b ^ a).wrapping_sub(rot_exec(a, 25));
        c = (c ^ b).wrapping_sub(rot_exec(b, 16));
        a = (a ^ c).wrapping_sub(rot_exec(c, 4));
        b = (b ^ a).wrapping_sub(rot_exec(a, 14));
        c = (c ^ b).wrapping_sub(rot_exec(b, 24));
    }
    let r = ((b as u64) << 32u64) | (c as u64);
    assert(((b as u64) << 32u64) | (c as u64) == (b as u64) * 0x1_0000_0000 + (c as u64)) by (bit_vector);
    r
}

// ---------------------------------------------------------------------------
// The archive

/// Where an entry's bytes lie in the archive, and how they are stored.
#[derive(Debug, Clone, Copy, PartialEq, Eq, Structural)]
pub struct EntryInfo {
    pub offset: usize,
    pub header_length: usize,
    pub compressed_length: usize,
    pub decompressed_length: usize,
    pub is_compressed: bool,
}

/// The first bytes of every archive.
pub open spec fn uop_magic() -> Seq<u8> {
    seq![0x4du8, 0x59u8, 0x50u8, 0u8]
}

/// The length of one entry record in a block.
pub open spec fn record_size() -> int {
    34
}

/// The entry record at `at`: its key hash and where its bytes lie.
pub open spec fn uop_record(s: Seq<u8>, at: int) -> (u64, EntryInfo) {
    (
        le_u64(s, at + 20),
        EntryInfo {
            offset: le_u64(s, at) as usize,
            header_length: le_u32(s, at + 8) as usize,
            compressed_length: le_u32(s, at + 12) as usize,
            decompressed_length: le_u32(s, at + 16) as usize,
            is_compressed: le_u16(s, at + 32) == 1,
        },
    )
}

/// The `n` records that follow each other from `at`.
pub open spec fn uop_records(s: Seq<u8>, at: int, n: nat) -> Seq<(u64, EntryInfo)> {
    Seq::new(n, |i: int| uop_record(s, at + record_size() * i))
}

/// The records of the chain of blocks that starts at `offset`, in order, or
/// the error reading it. A block starts with its record count and the offset
/// of the next block, zero for none. A chain of more than `fuel` blocks goes
/// round in a loop.
pub open spec fn uop_chain(s: Seq<u8>, offset: u64, fuel: nat) -> Result<Seq<(u64, EntryInfo)>, ProtocolError>
    decreases fuel,
{
    if offset == 0 {
        Ok(Seq::empty())
    } else if fuel == 0 {
        Err(ProtocolError::InvalidValue)
    } else if s.len() < offset + 12 {
        Err(ProtocolError::UnexpectedEof)
    } else if s.len() < offset + 12 + record_size() * le_u32(s, offset as int) {
        Err(ProtocolError::UnexpectedEof)
    } else {
        match uop_chain(s, le_u64(s, offset + 4), (fuel - 1) as nat) {
            Err(e) => Err(e),
            Ok(rest) => Ok(uop_records(s, offset + 12, le_u32(s, offset as int) as nat) + rest),
        }
    }
}

/// The table that records give, later records replacing earlier ones with
/// the same key.
pub open spec fn records_map(rs: Seq<(u64, EntryInfo)>) -> Map<u64, EntryInfo>
    decreases rs.len(),
{
    if rs.len() == 0 {
        Map::empty()
    } else {
        records_map(rs.drop_last()).insert(rs.last().0, rs.last().1)
    }
}

/// The table of an archive holds a key hash exactly when some record has it,
/// and then the entry of the last such record: a later record with the same
/// hash replaces an earlier one.
pub proof fn lemma_records_map_last(rs: Seq<(u64, EntryInfo)>, h: u64, i: int)
    requires
        0 <= i < rs.len(),
        rs[i].0 == h,
        forall|j: int| i < j < rs.len() ==> #[trigger] rs[j].0 != h,
    ensures
        records_map(rs).contains_key(h),
        records_map(rs)[h] == rs[i].1,
    decreases rs.len(),
{
    if i < rs.len() - 1 {
        assert(rs.drop_last()[i] == rs[i]);
        assert forall|j: int| i < j < rs.drop_last().len() implies #[trigger] rs.drop_last()[j].0 != h by {
            assert(rs.drop_last()[j] == rs[j]);
        }
        lemma_records_map_last(rs.drop_last(), h, i);
        assert(rs[rs.len() - 1].0 != h);
    }
}

/// A key hash that no record has is not in the table of an archive.
pub proof fn lemma_records_map_absent(rs: Seq<(u64, EntryInfo)>, h: u64)
    requires
        forall|j: int| 0 <= j < rs.len() ==> #[trigger] rs[j].0 != h,
    ensures
        !records_map(rs).contains_key(h),
    decreases rs.len(),
{
    if rs.len() > 0 {
        assert forall|j: int| 0 <= j < rs.drop_last().len() implies #[trigger] rs.drop_last()[j].0 != h by {
            assert(rs.drop_last()[j] == rs[j]);
        }
        lemma_records_map_absent(rs.drop_last(), h);
        assert(rs[rs.len() - 1].0 != h);
    }
}

/// `r` with `done` put in front of its records.
pub open spec fn after_records(
    done: Seq<(u64, EntryInfo)>,
    r: Result<Seq<(u64, EntryInfo)>, ProtocolError>,
) -> Result<Seq<(u64, EntryInfo)>, ProtocolError> {
    match r {
        Ok(rs) => Ok(done + rs),
        Err(e) => Err(e),
    }
}

/// The header of an archive, `(version, timestamp, first block, block size,
/// entry count)`, or why it is not one.
pub open spec fn uop_header(s: Seq<u8>) -> Result<(u32, u32, u64, u32, u32), ProtocolError> {
    if s.len() < 4 || s.take(4) != uop_magic() {
        Err(ProtocolError::InvalidValue)
    } else if s.len() < 8 {
        Err(ProtocolError::UnexpectedEof)
    } else if le_u32(s, 4) > 5 {
        Err(ProtocolError::Unsupported)
    } else if s.len() < 28 {
        Err(ProtocolError::UnexpectedEof)
    } else {
        Ok((le_u32(s, 4), le_u32(s, 8), le_u64(s, 12), le_u32(s, 20), le_u32(s, 24)))
    }
}

/// The records of an archive, or why it cannot be read.
pub open spec fn uop_contents(s: Seq<u8>) -> Result<Seq<(u64, EntryInfo)>, ProtocolError> {
    match uop_header(s) {
        Err(e) => Err(e),
        Ok((_v, _t, first, _b, _c)) => uop_chain(s, first, s.len()),
    }
}

/// An archive held in memory, with its table of entries.
pub struct UopBuffer {
    backing: Vec<u8>,
    version: u32,
    format_timestamp: u32,
    block_size: u32,
    count: u32,
    entries: HashMap<u64, EntryInfo>,
    hashes: Vec<u64>,
}

impl UopBuffer {
    /// The bytes of the archive.
    pub closed spec fn spec_backing(&self) -> Seq<u8> {
        self.backing@
    }

    /// The table of entries by key hash.
    pub closed spec fn spec_entries(&self) -> Map<u64, EntryInfo> {
        self.entries@
    }

    /// The header fields `(version, timestamp, block size, entry count)`.
    pub closed spec fn spec_header(&self) -> (u32, u32, u32, u32) {
        (self.version, self.format_timestamp, self.block_size, self.count)
    }

    /// The key hashes list each key of the table once.
    pub closed spec fn wf(&self) -> bool {
        &&& self.hashes@.no_duplicates()
        &&& forall|h: u64| self.entries@.contains_key(h) <==> self.hashes@.contains(h)
        &&& self.hashes@.len() == self.entries@.len()
    }

    /// Reads the table of an archive.
    pub fn try_from_backing(backing: Vec<u8>) -> (r: Result<UopBuffer, ProtocolError>)
        ensures
            match uop_contents(backing@) {
                Err(e) => r == Err::<UopBuffer, ProtocolError>(e),
                Ok(rs) => (r matches Ok(u) && {
                    &&& u.wf()
                    &&& u.spec_backing() == backing@
                    &&& u.spec_entries() == records_map(rs)
                    &&& uop_header(backing@) matches Ok((v, t, _first, b, c)) && u.spec_header() == (v, t, b, c)
                }),
            },
    {
        let bytes = backing.as_slice();
        let len = bytes.len();
        if len < 4 || bytes[0] != 0x4d || bytes[1] != 0x59 || bytes[2] != 0x50 || bytes[3] != 0 {
            proof {
                if len >= 4 {
                    assert(bytes@.take(4)[0] == bytes@[0]);
                    assert(bytes@.take(4)[1] == bytes@[1]);
                    assert(bytes@.take(4)[2] == bytes@[2]);
                    assert(bytes@.take(4)[3] == bytes@[3]);
                }
            }
            return Err(ProtocolError::InvalidValue);
        }
        assert(bytes@.take(4) =~= uop_magic());
        if len < 8 {
            return Err(ProtocolError::UnexpectedEof);
        }
        let version = le_u32_at(bytes, 4);
        if version > 5 {
            return Err(ProtocolError::Unsupported);
        }
        if len < 28 {
            return Err(ProtocolError::UnexpectedEof);
        }
        let format_timestamp = le_u32_at(bytes, 8);
        let first = le_u64_at(bytes, 12);
        let block_size = le_u32_at(bytes, 20);
        let count = le_u32_at(bytes, 24);
        let ghost total_fuel: nat = len as nat;
        let mut entries: HashMap<u64, EntryInfo> = HashMap::new();
        let mut hashes: Vec<u64> = Vec::new();
        let mut next = first;
        let mut fuel: usize = len;
        let ghost mut done: Seq<(u64, EntryInfo)> = Seq::empty();
        proof {
            assert(after_records(done, uop_chain(bytes@, next, fuel as nat)) =~= uop_chain(bytes@, first, total_fuel)) by {
                match uop_chain(bytes@, next, fuel as nat) {
                    Ok(rs) => {
                        assert(done + rs =~= rs);
                    },
                    Err(_) => {},
                }
            }
        }
        while next != 0
            invariant
                len == bytes@.len(),
                bytes@ == backing@,
                uop_contents(bytes@) == uop_chain(bytes@, first, total_fuel),
                after_records(done, uop_chain(bytes@, next, fuel as nat)) == uop_chain(bytes@, first, total_fuel),
                entries@ == records_map(done),
                hashes@.no_duplicates(),
                forall|h: u64| entries@.contains_key(h) <==> hashes@.contains(h),
                hashes@.len() == entries@.len(),
            decreases fuel,
        {
            if fuel == 0 {
                return Err(ProtocolError::InvalidValue);
            }
            let at = next;
            if (len as u64) < 12 || at > (len as u64) - 12 {
                return Err(ProtocolError::UnexpectedEof);
            }
            let at = at as usize;
            let file_count = le_u32_at(bytes, at);
            let following = le_u64_at(bytes, at + 4);
            if (len - at - 12) / 34 < file_count as usize {
                proof {
                    assert(bytes@.len() < at + 12 + record_size() * le_u32(bytes@, at as int)) by (nonlinear_arith)
                        requires
                            (len - at - 12) / 34 < file_count,
                            file_count == le_u32(bytes@, at as int),
                            len == bytes@.len(),
                            at + 12 <= len,
                    ;
                }
                return Err(ProtocolError::UnexpectedEof);
            }
            proof {
                assert(bytes@.len() >= at + 12 + record_size() * le_u32(bytes@, at as int)) by (nonlinear_arith)
                    requires
                        (len - at - 12) / 34 >= file_count,
                        file_count == le_u32(bytes@, at as int),
                        len == bytes@.len(),
                        at + 12 <= len,
                ;
            }
            let ghost block_start = done;
            let mut k: usize = 0;
            while k < file_count as usize
                invariant
                    len == bytes@.len(),
                    at + 12 + 34 * file_count <= len,
                    k <= file_count,
                    done == block_start + uop_records(bytes@, at + 12, k as nat),
                    entries@ == records_map(done),
                    hashes@.no_duplicates(),
                    forall|h: u64| entries@.contains_key(h) <==> hashes@.contains(h),
                    hashes@.len() == entries@.len(),
                decreases file_count - k,
            {
                proof {
                    assert(at + 12 + 34 * k + 34 <= len) by (nonlinear_arith)
                        requires
                            k < file_count,
                            at + 12 + 34 * file_count <= len,
                    ;
                }
                let p = at + 12 + 34 * k;
                let offset = le_u64_at(bytes, p) as usize;
                let header_length = le_u32_at(bytes, p + 8) as usize;
                let compressed_length = le_u32_at(bytes, p + 12) as usize;
                let decompressed_length = le_u32_at(bytes, p + 16) as usize;
                let key_hash = le_u64_at(bytes, p + 20);
                let is_compressed = le_u16_at(bytes, p + 32) == 1;
                let info = EntryInfo { offset, header_length, compressed_length, decompressed_length, is_compressed };
                let ghost before = done;
                proof {
                    done = done.push((key_hash, info));
                    assert(uop_record(bytes@, at + 12 + record_size() * k) == (key_hash, info));
                    assert(done =~= block_start + uop_records(bytes@, at + 12, (k + 1) as nat));
                    assert(done.drop_last() =~= before);
                }
                let ghost old_entries = entries@;
                let ghost old_hashes = hashes@;
                let had = entries.contains_key(&key_hash);
                entries.insert(key_hash, info);
                if !had {
                    hashes.push(key_hash);
                    proof {
                        assert(!old_hashes.contains(key_hash));
                        assert forall|h: u64| entries@.contains_key(h) <==> hashes@.contains(h) by {
                            if hashes@.contains(h) {
                                let i = choose|i: int| 0 <= i < hashes@.len() && hashes@[i] == h;
                                if i < old_hashes.len() {
                                    assert(old_hashes[i] == h);
                                }
                            }
                            if old_hashes.contains(h) {
                                let i = choose|i: int| 0 <= i < old_hashes.len() && old_hashes[i] == h;
                                assert(hashes@[i] == h);
                            }
                            if h == key_hash {
                                assert(hashes@[old_hashes.len() as int] == h);
                            }
                        }
                        assert forall|i: int, j: int| 0 <= i < j < hashes@.len() implies hashes@[i] != hashes@[j] by {
                            if j == old_hashes.len() {
                                assert(old_hashes[i] == hashes@[i]);
                            } else {
                                assert(old_hashes[i] == hashes@[i] && old_hashes[j] == hashes@[j]);
                            }
                        }
                        assert(!old_entries.dom().contains(key_hash));
                        assert(entries@.dom() =~= old_entries.dom().insert(key_hash));
                        vstd::set::axiom_set_insert_len(old_entries.dom(), key_hash);
                    }
                } else {
                    proof {
                        assert(entries@.dom() =~= old_entries.dom());
                    }
                }
                k += 1;
            }
            proof {
                let recs = uop_records(bytes@, at + 12, file_count as nat);
                match uop_chain(bytes@, following, (fuel - 1) as nat) {
                    Ok(rest) => {
                        assert(block_start + recs + rest =~= block_start + (recs + rest));
                    },
                    Err(_) => {},
                }
            }
            next = following;
            fuel = fuel - 1;
        }
        proof {
            assert(uop_chain(bytes@, 0, fuel as nat) == Ok::<Seq<(u64, EntryInfo)>, ProtocolError>(Seq::empty()));
            assert(done + Seq::<(u64, EntryInfo)>::empty() =~= done);
        }
        Ok(UopBuffer { backing, version, format_timestamp, block_size, count, entries, hashes })
    }

    /// `r` is what looking up `key_hash` gives: the entry when the table has
    /// it and its bytes lie inside the archive, else nothing.
    pub open spec fn lookup<'a>(&self, key_hash: u64, r: Option<Entry<'a>>) -> bool {
        match r {
            Some(e) => self.spec_entries().contains_key(key_hash) && entry_in_bounds(
                self.spec_backing(),
                self.spec_entries()[key_hash],
            ) && e.info == self.spec_entries()[key_hash] && e.header@ == entry_header(
                self.spec_backing(),
                e.info,
            ) && e.data@ == entry_data(self.spec_backing(), e.info),
            None => !self.spec_entries().contains_key(key_hash) || !entry_in_bounds(
                self.spec_backing(),
                self.spec_entries()[key_hash],
            ),
        }
    }

    /// The number of entries.
    pub fn len(&self) -> (r: usize)
        requires
            self.wf(),
        ensures
            r == self.spec_entries().len(),
    {
        self.hashes.len()
    }

    /// The bytes of the archive.
    pub fn as_bytes(&self) -> (r: &[u8])
        ensures
            r@ == self.spec_backing(),
    {
        self.backing.as_slice()
    }

    /// The key hashes of the entries, each once, in no particular order.
    pub fn iter_hashes(&self) -> (r: Vec<u64>)
        requires
            self.wf(),
        ensures
            r@.no_duplicates(),
            forall|h: u64| self.spec_entries().contains_key(h) <==> r@.contains(h),
    {
        self.hashes.clone()
    }

    /// The entry with this key hash, when there is one and its bytes lie
    /// inside the archive.
    pub fn get_by_hash(&self, key_hash: u64) -> (r: Option<Entry<'_>>)
        ensures
            self.lookup(key_hash, r),
    {
        let info = match self.entries.get(&key_hash) {
            Some(v) => *v,
            None => return None,
        };
        let bytes = self.backing.as_slice();
        if info.offset > bytes.len() || info.header_length > bytes.len() - info.offset
            || info.compressed_length > bytes.len() - info.offset - info.header_length {
            return None;
        }
        let start = info.offset + info.header_length;
        let header = vstd::slice::slice_subrange(bytes, info.offset, start);
        let data = vstd::slice::slice_subrange(bytes, start, start + info.compressed_length);
        Some(Entry { info, header, data })
    }

    /// The entry at this path, when there is one and its bytes lie inside
    /// the archive.
    pub fn get(&self, key: &str) -> (r: Option<Entry<'_>>)
        requires
            hash_readable(key.spec_bytes().len()),
        ensures
            self.lookup(spec_hash(key.spec_bytes()), r),
    {
        let key_hash = hash(key.as_bytes());
        self.get_by_hash(key_hash)
    }
}

/// The entry's bytes lie inside the archive.
pub open spec fn entry_in_bounds(s: Seq<u8>, info: EntryInfo) -> bool {
    info.offset + info.header_length + info.compressed_length <= s.len()
}

/// The entry's header bytes.
pub open spec fn entry_header(s: Seq<u8>, info: EntryInfo) -> Seq<u8> {
    s.subrange(info.offset as int, info.offset + info.header_length)
}

/// The entry's stored bytes, compressed or not.
pub open spec fn entry_data(s: Seq<u8>, info: EntryInfo) -> Seq<u8> {
    s.subrange(info.offset + info.header_length, info.offset + info.header_length + info.compressed_length)
}

/// An entry of an archive: its header and its stored bytes.
pub struct Entry<'a> {
    pub info: EntryInfo,
    pub header: &'a [u8],
    pub data: &'a [u8],
}

/// What an entry holds once inflated, or `None` when a compressed entry is
/// not a well-formed zlib stream.
pub open spec fn entry_contents(info: EntryInfo, data: Seq<u8>) -> Option<Seq<u8>> {
    if info.is_compressed {
        zlib_inflate(data)
    } else {
        Some(data)
    }
}

impl<'a> Entry<'a> {
    /// The entry's header bytes.
    pub fn header(&self) -> (r: &[u8])
        ensures
            r@ == self.header@,
    {
        self.header
    }

    /// The length of the entry once inflated, as the archive records it.
    pub fn len(&self) -> (r: usize)
        ensures
            r == self.info.decompressed_length,
    {
        self.info.decompressed_length
    }

    /// All that the entry holds, inflated when it is compressed.
    pub fn contents(&self) -> (r: Result<Vec<u8>, ProtocolError>)
        ensures
            match entry_contents(self.info, self.data@) {
                Some(c) => (r matches Ok(v) && v@ == c),
                None => r == Err::<Vec<u8>, ProtocolError>(ProtocolError::InvalidValue),
            },
    {
        if self.info.is_compressed {
            match zlib_decompress(self.data) {
                Some(v) => Ok(v),
                None => Err(ProtocolError::InvalidValue),
            }
        } else {
            Ok(vstd::slice::slice_to_vec(self.data))
        }
    }
}

} // verus!
