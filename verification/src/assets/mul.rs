//! MUL data files, read plain or out of the blocks of a UOP archive.

use vstd::prelude::*;
use vstd::string::StringSliceAdditionalSpecFns;

use crate::assets::uop::{entry_contents, entry_data, entry_in_bounds, hash, hash_readable, spec_hash, UopBuffer};
use crate::protocol::ProtocolError;

verus! {

/// `n` in decimal, padded with zeros to `width` digits; only the low
/// `width` digits are kept.
pub open spec fn decimal_padded(n: nat, width: nat) -> Seq<u8>
    decreases width,
{
    if width == 0 {
        Seq::empty()
    } else {
        decimal_padded(n / 10, (width - 1) as nat).push((48 + n % 10) as u8)
    }
}

proof fn lemma_decimal_padded_len(n: nat, width: nat)
    ensures
        decimal_padded(n, width).len() == width,
    decreases width,
{
    if width > 0 {
        lemma_decimal_padded_len(n / 10, (width - 1) as nat);
    }
}

/// The archive path of block `index` of the file `name`:
/// `build/<name>legacymul/<index as eight digits>.dat`.
pub open spec fn mul_block_path(name: Seq<u8>, index: nat) -> Seq<u8> {
    seq![98u8, 117, 105, 108, 100, 47] + name + seq![108u8, 101, 103, 97, 99, 121, 109, 117, 108, 47]
        + decimal_padded(index, 8) + seq![46u8, 100, 97, 116]
}

/// What the entry with this key hash holds: `None` when the archive has no
/// such entry inside its bytes, `Some(None)` when it does not inflate.
pub open spec fn uop_entry_contents(u: UopBuffer, key_hash: u64) -> Option<Option<Seq<u8>>> {
    if u.spec_entries().contains_key(key_hash) && entry_in_bounds(u.spec_backing(), u.spec_entries()[key_hash]) {
        let info = u.spec_entries()[key_hash];
        Some(entry_contents(info, entry_data(u.spec_backing(), info)))
    } else {
        None
    }
}

/// The bytes of file `name` in the archive from block `index` on: the
/// blocks one after the other, up to the first that is missing or empty.
pub open spec fn mul_stream(u: UopBuffer, name: Seq<u8>, index: nat) -> Result<Seq<u8>, ProtocolError>
    decreases 100_000_000 - index,
{
    if index >= 100_000_000 {
        Err(ProtocolError::InvalidValue)
    } else {
        match uop_entry_contents(u, spec_hash(mul_block_path(name, index))) {
            None => Ok(Seq::empty()),
            Some(None) => Err(ProtocolError::InvalidValue),
            Some(Some(c)) => if c.len() == 0 {
                Ok(Seq::empty())
            } else {
                match mul_stream(u, name, index + 1) {
                    Ok(rest) => Ok(c + rest),
                    Err(e) => Err(e),
                }
            },
        }
    }
}

/// Appends the low eight decimal digits of `index`.
fn push_decimal8(out: &mut Vec<u8>, index: u32)
    ensures
        final(out)@ == old(out)@ + decimal_padded(index as nat, 8),
{
    let n0 = index;
    let n1 = n0 / 10;
    let n2 = n1 / 10;
    let n3 = n2 / 10;
    let n4 = n3 / 10;
    let n5 = n4 / 10;
    let n6 = n5 / 10;
    let n7 = n6 / 10;
    out.push((48 + n7 % 10) as u8);
    out.push((48 + n6 % 10) as u8);
    out.push((48 + n5 % 10) as u8);
    out.push((48 + n4 % 10) as u8);
    out.push((48 + n3 % 10) as u8);
    out.push((48 + n2 % 10) as u8);
    out.push((48 + n1 % 10) as u8);
    out.push((48 + n0 % 10) as u8);
    proof {
        reveal_with_fuel(decimal_padded, 9);
    }
    assert(out@ =~= old(out)@ + decimal_padded(index as nat, 8));
}

/// The archive path of block `index` of the file `name`.
pub fn mul_block_path_bytes(name: &[u8], index: u32) -> (r: Vec<u8>)
    ensures
        r@ == mul_block_path(name@, index as nat),
{
    let mut out: Vec<u8> = Vec::new();
    out.push(98);
    out.push(117);
    out.push(105);
    out.push(108);
    out.push(100);
    out.push(47);
    let mut i: usize = 0;
    while i < name.len()
        invariant
            i <= name@.len(),
            out@ == seq![98u8, 117, 105, 108, 100, 47] + name@.take(i as int),
        decreases name@.len() - i,
    {
        out.push(name[i]);
        i += 1;
        assert(out@ =~= seq![98u8, 117, 105, 108, 100, 47] + name@.take(i as int));
    }
    assert(name@.take(name@.len() as int) =~= name@);
    out.push(108);
    out.push(101);
    out.push(103);
    out.push(97);
    out.push(99);
    out.push(121);
    out.push(109);
    out.push(117);
    out.push(108);
    out.push(47);
    push_decimal8(&mut out, index);
    out.push(46);
    out.push(100);
    out.push(97);
    out.push(116);
    assert(out@ =~= mul_block_path(name@, index as nat));
    out
}

/// A data file as a stream of bytes, read from the front.
pub struct MulReader {
    data: Vec<u8>,
    position: usize,
}

impl MulReader {
    /// The bytes of the file.
    pub closed spec fn spec_data(&self) -> Seq<u8> {
        self.data@
    }

    /// How many bytes have been read.
    pub closed spec fn spec_position(&self) -> nat {
        self.position as nat
    }

    pub closed spec fn wf(&self) -> bool {
        self.position <= self.data@.len()
    }

    /// A reader over the bytes of a plain file.
    pub fn from_raw(contents: Vec<u8>) -> (r: MulReader)
        ensures
            r.wf(),
            r.spec_data() == contents@,
            r.spec_position() == 0,
    {
        MulReader { data: contents, position: 0 }
    }

    /// A reader over the file `name` kept in blocks of a UOP archive. Every
    /// block path must hash, which its length decides.
    pub fn from_uop(uop: &UopBuffer, name: &str) -> (r: Result<MulReader, ProtocolError>)
        requires
            hash_readable(name.spec_bytes().len() + 28),
        ensures
            match mul_stream(*uop, name.spec_bytes(), 0) {
                Ok(bytes) => (r matches Ok(m) && m.wf() && m.spec_data() == bytes && m.spec_position() == 0),
                Err(e) => r == Err::<MulReader, ProtocolError>(e),
            },
    {
        let name_bytes = name.as_bytes();
        let mut data: Vec<u8> = Vec::new();
        let mut index: u32 = 0;
        loop
            invariant
                name_bytes@ == name.spec_bytes(),
                hash_readable(name.spec_bytes().len() + 28),
                index <= 100_000_000,
                match mul_stream(*uop, name.spec_bytes(), index as nat) {
                    Ok(rest) => mul_stream(*uop, name.spec_bytes(), 0) == Ok::<Seq<u8>, ProtocolError>(data@ + rest),
                    Err(e) => mul_stream(*uop, name.spec_bytes(), 0) == Err::<Seq<u8>, ProtocolError>(e),
                },
            decreases 100_000_000 - index,
        {
            if index >= 100_000_000 {
                return Err(ProtocolError::InvalidValue);
            }
            let path = mul_block_path_bytes(name_bytes, index);
            proof {
                lemma_decimal_padded_len(index as nat, 8);
                assert(mul_block_path(name.spec_bytes(), index as nat).len() == name.spec_bytes().len() + 28);
            }
            let entry = match uop.get_by_hash(hash(path.as_slice())) {
                Some(e) => e,
                None => {
                    assert(data@ + Seq::<u8>::empty() =~= data@);
                    return Ok(MulReader { data, position: 0 });
                },
            };
            let block = match entry.contents() {
                Ok(b) => b,
                Err(e) => return Err(e),
            };
            if block.len() == 0 {
                assert(data@ + Seq::<u8>::empty() =~= data@);
                return Ok(MulReader { data, position: 0 });
            }
            let ghost before = data@;
            let mut j: usize = 0;
            while j < block.len()
                invariant
                    j <= block@.len(),
                    data@ == before + block@.take(j as int),
                decreases block@.len() - j,
            {
                data.push(block[j]);
                j += 1;
                assert(data@ =~= before + block@.take(j as int));
            }
            proof {
                assert(block@.take(block@.len() as int) =~= block@);
                match mul_stream(*uop, name.spec_bytes(), (index + 1) as nat) {
                    Ok(rest) => {
                        assert(before + (block@ + rest) =~= data@ + rest);
                    },
                    Err(_) => {},
                }
            }
            index += 1;
        }
    }

    /// Copies the next bytes into `buf`, as many as fit and remain; how many.
    pub fn read(&mut self, buf: &mut [u8]) -> (r: usize)
        requires
            old(self).wf(),
        ensures
            final(self).wf(),
            final(self).spec_data() == old(self).spec_data(),
            r as int == vstd::math::min(old(buf)@.len() as int, old(self).spec_data().len() - old(self).spec_position()),
            final(self).spec_position() == old(self).spec_position() + r,
            final(buf)@.len() == old(buf)@.len(),
            final(buf)@.take(r as int) == old(self).spec_data().subrange(old(self).spec_position() as int, final(self).spec_position() as int),
            final(buf)@.skip(r as int) == old(buf)@.skip(r as int),
    {
        let dlen = self.data.len();
        let avail = dlen - self.position;
        let n = if buf.len() < avail { buf.len() } else { avail };
        let mut i: usize = 0;
        while i < n
            invariant
                i <= n <= buf@.len(),
                self.position + n <= dlen,
                dlen == self.data@.len(),
                buf@.len() == old(buf)@.len(),
                forall|k: int| 0 <= k < i ==> buf@[k] == self.data@[self.position + k],
                forall|k: int| i <= k < buf@.len() ==> buf@[k] == old(buf)@[k],
            decreases n - i,
        {
            buf[i] = self.data[self.position + i];
            i += 1;
        }
        let ghost start = self.position;
        self.position = self.position + n;
        assert(buf@.take(n as int) =~= self.data@.subrange(start as int, self.position as int));
        assert(buf@.skip(n as int) =~= old(buf)@.skip(n as int));
        n
    }
}

} // verus!
