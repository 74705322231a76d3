//! The game-server cipher of modern clients: a keystream of Twofish-encrypted
//! blocks for data from the client, and an MD5 digest of the first block for
//! data to it.

use vstd::prelude::*;
use twofish::cipher::generic_array::GenericArray;
use twofish::cipher::{BlockEncrypt, KeyInit};
use crate::protocol::format::u32_be;

verus! {

/// Size of the keystream block.
pub const BLOCK_SIZE: usize = 256;

/// What `twofish::Twofish` gives for one 16-byte block under a 16-byte key.
pub uninterp spec fn twofish_encrypt_block(key: Seq<u8>, block: Seq<u8>) -> Seq<u8>;

/// What `md5::compute` gives for `data`.
pub uninterp spec fn md5_digest(data: Seq<u8>) -> Seq<u8>;

/// Encrypts one block with the Twofish cipher under `key`: the `twofish`
/// crate's `Twofish::new_from_slice` and `BlockEncrypt::encrypt_block`. The
/// contract claims only that the result is a function of the key and the block.
#[verifier::external_body]
fn twofish_encrypt(key: &[u8; 16], block: [u8; 16]) -> (r: [u8; 16])
    ensures
        r@ == twofish_encrypt_block(key@, block@),
{
    let mut data = block;
    match twofish::Twofish::new_from_slice(key) {
        Ok(cipher) => cipher.encrypt_block(GenericArray::from_mut_slice(&mut data)),
        Err(_) => {},
    }
    data
}

/// The MD5 digest of `data`: the `md5` crate's `compute`. The contract claims
/// only that the result is a function of the data.
#[verifier::external_body]
fn md5_compute(data: &[u8; 256]) -> (r: [u8; 16])
    ensures
        r@ == md5_digest(data@),
{
    md5::compute(data).0
}

/// The cipher key for a connection seed: the seed in big-endian order, four times.
pub open spec fn twofish_key(seed: u32) -> Seq<u8> {
    u32_be(seed) + u32_be(seed) + u32_be(seed) + u32_be(seed)
}

/// A block with each of its 16-byte pieces encrypted.
pub open spec fn twofish_rotate(key: Seq<u8>, block: Seq<u8>) -> Seq<u8> {
    Seq::new(
        256,
        |i: int| twofish_encrypt_block(key, block.subrange(16 * (i / 16), 16 * (i / 16) + 16))[i % 16],
    )
}

/// The first keystream block: the bytes 0 to 255, encrypted.
pub open spec fn twofish_first_block(key: Seq<u8>) -> Seq<u8> {
    twofish_rotate(key, Seq::new(256, |i: int| i as u8))
}

/// The block and position before a byte is read: a used-up block is replaced
/// by its encryption.
pub open spec fn twofish_refill(key: Seq<u8>, block: Seq<u8>, offset: nat) -> (Seq<u8>, nat) {
    if offset >= 256 {
        (twofish_rotate(key, block), 0)
    } else {
        (block, offset)
    }
}

/// The block and position after `n` bytes from the client.
pub open spec fn twofish_state_after(key: Seq<u8>, block: Seq<u8>, offset: nat, n: nat) -> (
    Seq<u8>,
    nat,
)
    decreases n,
{
    if n == 0 {
        (block, offset)
    } else {
        let (b, o) = twofish_state_after(key, block, offset, (n - 1) as nat);
        let (b2, o2) = twofish_refill(key, b, o);
        (b2, o2 + 1)
    }
}

/// The keystream byte for the `n`-th byte from the client.
pub open spec fn twofish_key_byte(key: Seq<u8>, block: Seq<u8>, offset: nat, n: nat) -> u8 {
    let (b, o) = twofish_state_after(key, block, offset, n);
    let (b2, o2) = twofish_refill(key, b, o);
    b2[o2 as int]
}

/// Data from the client XOR-ed with the keystream.
pub open spec fn twofish_crypt_client(key: Seq<u8>, block: Seq<u8>, offset: nat, data: Seq<u8>) -> Seq<
    u8,
> {
    Seq::new(data.len(), |i: int| data[i] ^ twofish_key_byte(key, block, offset, i as nat))
}

/// Data to the client XOR-ed with the digest, from position `offset` on.
pub open spec fn twofish_crypt_server(response: Seq<u8>, offset: nat, data: Seq<u8>) -> Seq<u8> {
    Seq::new(data.len(), |i: int| data[i] ^ response[(offset + i) % 16])
}

/// The cipher of a game-server connection.
pub struct TwofishPass {
    key: [u8; 16],
    block: [u8; BLOCK_SIZE],
    block_offset: usize,
    response_block: [u8; 16],
}

impl Clone for TwofishPass {
    /// A pass in the same state: it goes on with the same keystreams.
    fn clone(&self) -> (r: Self)
        ensures
            r == *self,
    {
        TwofishPass {
            key: self.key,
            block: self.block,
            block_offset: self.block_offset,
            response_block: self.response_block,
        }
    }
}

impl TwofishPass {
    pub closed spec fn key(&self) -> Seq<u8> {
        self.key@
    }

    pub closed spec fn block(&self) -> Seq<u8> {
        self.block@
    }

    pub closed spec fn offset(&self) -> nat {
        self.block_offset as nat
    }

    pub closed spec fn response(&self) -> Seq<u8> {
        self.response_block@
    }

    /// The state in which a connection with this seed starts.
    pub open spec fn is_fresh(&self, seed: u32) -> bool {
        &&& self.key() == twofish_key(seed)
        &&& self.block() == twofish_first_block(twofish_key(seed))
        &&& self.offset() == 0
        &&& self.response() == md5_digest(twofish_first_block(twofish_key(seed)))
    }

    pub fn new(seed: u32) -> (r: TwofishPass)
        ensures
            r.is_fresh(seed),
    {
        let b0 = (seed / 0x1000000) as u8;
        let b1 = ((seed / 0x10000) % 0x100) as u8;
        let b2 = ((seed / 0x100) % 0x100) as u8;
        let b3 = (seed % 0x100) as u8;
        let key = [b0, b1, b2, b3, b0, b1, b2, b3, b0, b1, b2, b3, b0, b1, b2, b3];
        proof {
            assert(key@ =~= twofish_key(seed));
        }
        let mut block = [0u8; BLOCK_SIZE];
        let mut idx: usize = 0;
        while idx < BLOCK_SIZE
            invariant
                idx <= BLOCK_SIZE,
                forall|j: int| 0 <= j < idx ==> #[trigger] block@[j] == j as u8,
            decreases BLOCK_SIZE - idx,
        {
            block[idx] = idx as u8;
            idx += 1;
        }
        proof {
            assert(block@ =~= Seq::new(256, |i: int| i as u8));
        }
        Self::rotate_block(&key, &mut block);
        let response_block = md5_compute(&block);
        TwofishPass { key, block, block_offset: 0, response_block }
    }

    fn rotate_block(key: &[u8; 16], block: &mut [u8; BLOCK_SIZE])
        ensures
            final(block)@ == twofish_rotate(key@, old(block)@),
    {
        let ghost before = block@;
        let mut chunk_idx: usize = 0;
        while chunk_idx < 16
            invariant
                chunk_idx <= 16,
                block@.len() == 256,
                before.len() == 256,
                forall|j: int| 0 <= j < 16 * chunk_idx ==> #[trigger] block@[j] == twofish_rotate(
                    key@,
                    before,
                )[j],
                forall|j: int| 16 * chunk_idx <= j < 256 ==> #[trigger] block@[j] == before[j],
            decreases 16 - chunk_idx,
        {
            let base = 16 * chunk_idx;
            let mut chunk = [0u8; 16];
            let mut k: usize = 0;
            while k < 16
                invariant
                    k <= 16,
                    base == 16 * chunk_idx,
                    chunk_idx < 16,
                    block@.len() == 256,
                    before.len() == 256,
                before.len() == 256,
                    forall|j: int| 0 <= j < k ==> #[trigger] chunk@[j] == block@[base + j],
                    forall|j: int| base <= j < 256 ==> #[trigger] block@[j] == before[j],
                decreases 16 - k,
            {
                chunk[k] = block[base + k];
                k += 1;
            }
            let encrypted = twofish_encrypt(key, chunk);
            proof {
                assert forall|j: int| 0 <= j < 16 implies #[trigger] chunk@[j] == before.subrange(
                    base as int,
                    base + 16,
                )[j] by {
                    assert(block@[base + j] == before[base + j]);
                }
                assert(chunk@ =~= before.subrange(base as int, base + 16));
            }
            let mut k: usize = 0;
            while k < 16
                invariant
                    k <= 16,
                    base == 16 * chunk_idx,
                    chunk_idx < 16,
                    block@.len() == 256,
                    before.len() == 256,
                before.len() == 256,
                    encrypted@ == twofish_encrypt_block(key@, before.subrange(base as int, base + 16)),
                    forall|j: int| 0 <= j < base ==> #[trigger] block@[j] == twofish_rotate(
                        key@,
                        before,
                    )[j],
                    forall|j: int| base <= j < base + k ==> #[trigger] block@[j] == encrypted@[j - base],
                    forall|j: int| base + k <= j < 256 ==> #[trigger] block@[j] == before[j],
                decreases 16 - k,
            {
                block[base + k] = encrypted[k];
                k += 1;
            }
            proof {
                assert forall|j: int| base <= j < base + 16 implies #[trigger] block@[j]
                    == twofish_rotate(key@, before)[j] by {
                    assert(j / 16 == chunk_idx as int);
                    assert(j % 16 == j - base);
                }
            }
            chunk_idx += 1;
        }
        proof {
            assert(block@ =~= twofish_rotate(key@, before));
        }
    }

    fn ensure_block(&mut self)
        ensures
            (final(self).block(), final(self).offset()) == twofish_refill(
                old(self).key(),
                old(self).block(),
                old(self).offset(),
            ),
            final(self).key() == old(self).key(),
            final(self).response() == old(self).response(),
    {
        if self.block_offset < BLOCK_SIZE {
            return;
        }
        Self::rotate_block(&self.key, &mut self.block);
        self.block_offset = 0;
    }

    /// Encrypts data for the client in place.
    /// The position in the key stream.
    pub fn current_offset(&self) -> (r: usize)
        ensures
            r == self.offset(),
    {
        self.block_offset
    }

    pub fn crypt_server_to_client(&mut self, data: &mut [u8])
        requires
            old(self).offset() + old(data)@.len() <= usize::MAX,
        ensures
            final(data)@ == twofish_crypt_server(old(self).response(), old(self).offset(), old(data)@),
            final(self).offset() == old(self).offset() + old(data)@.len(),
            final(self).key() == old(self).key(),
            final(self).block() == old(self).block(),
            final(self).response() == old(self).response(),
    {
        let ghost input = data@;
        let ghost off0 = self.offset();
        let mut i: usize = 0;
        while i < data.len()
            invariant
                i <= data.len(),
                data@.len() == input.len(),
                off0 + input.len() <= usize::MAX,
                self.offset() == off0 + i,
                self.key() == old(self).key(),
                self.block() == old(self).block(),
                self.response() == old(self).response(),
                self.response().len() == 16,
                forall|j: int| 0 <= j < i ==> #[trigger] data@[j] == twofish_crypt_server(
                    self.response(),
                    off0,
                    input,
                )[j],
                forall|j: int| i <= j < data.len() ==> #[trigger] data@[j] == input[j],
            decreases data.len() - i,
        {
            let at = self.block_offset & 0xf;
            proof {
                let o = self.block_offset;
                assert(o & 0xf == o % 16) by (bit_vector);
            }
            data[i] = data[i] ^ self.response_block[at];
            self.block_offset += 1;
            i += 1;
        }
        proof {
            assert(data@ =~= twofish_crypt_server(old(self).response(), off0, input));
        }
    }

    /// Decrypts data from the client in place.
    pub fn crypt_client_to_server(&mut self, data: &mut [u8])
        ensures
            final(data)@ == twofish_crypt_client(old(self).key(), old(self).block(), old(self).offset(), old(data)@),
            (final(self).block(), final(self).offset()) == twofish_state_after(
                old(self).key(),
                old(self).block(),
                old(self).offset(),
                old(data)@.len(),
            ),
            final(self).key() == old(self).key(),
            final(self).response() == old(self).response(),
    {
        let ghost input = data@;
        let ghost key = self.key();
        let ghost block0 = self.block();
        let ghost off0 = self.offset();
        let mut i: usize = 0;
        while i < data.len()
            invariant
                i <= data.len(),
                data@.len() == input.len(),
                self.key() == key,
                self.response() == old(self).response(),
                (self.block(), self.offset()) == twofish_state_after(key, block0, off0, i as nat),
                self.offset() <= 256 || i == 0,
                forall|j: int| 0 <= j < i ==> #[trigger] data@[j] == twofish_crypt_client(
                    key,
                    block0,
                    off0,
                    input,
                )[j],
                forall|j: int| i <= j < data.len() ==> #[trigger] data@[j] == input[j],
            decreases data.len() - i,
        {
            self.ensure_block();
            data[i] = data[i] ^ self.block[self.block_offset];
            self.block_offset += 1;
            i += 1;
        }
        proof {
            assert(data@ =~= twofish_crypt_client(key, block0, off0, input));
        }
    }
}

/// Decrypting twice from the same state gives the data back.
pub proof fn lemma_twofish_crypt_client_involution(
    key: Seq<u8>,
    block: Seq<u8>,
    offset: nat,
    data: Seq<u8>,
)
    ensures
        twofish_crypt_client(key, block, offset, twofish_crypt_client(key, block, offset, data))
            == data,
{
    let once = twofish_crypt_client(key, block, offset, data);
    assert forall|i: int| 0 <= i < data.len() implies #[trigger] twofish_crypt_client(
        key,
        block,
        offset,
        once,
    )[i] == data[i] by {
        let x = data[i];
        let k = twofish_key_byte(key, block, offset, i as nat);
        assert((x ^ k) ^ k == x) by (bit_vector);
    }
    assert(twofish_crypt_client(key, block, offset, once) =~= data);
}

/// Taking `m` bytes from the client and then `n` more reaches the block and
/// position of taking `m + n` bytes at once.
pub proof fn lemma_twofish_state_after_add(key: Seq<u8>, block: Seq<u8>, offset: nat, m: nat, n: nat)
    ensures
        ({
            let (b, o) = twofish_state_after(key, block, offset, m);
            twofish_state_after(key, b, o, n)
        }) == twofish_state_after(key, block, offset, m + n),
    decreases n,
{
    if n > 0 {
        lemma_twofish_state_after_add(key, block, offset, m, (n - 1) as nat);
        assert((m + n - 1) as nat == m + (n - 1) as nat);
    }
}

/// Decrypting `a` and then `b` from where `a` left the cipher gives the
/// same bytes, and the same block and position, as decrypting `a + b` in
/// one call.
pub proof fn lemma_twofish_crypt_client_split(
    key: Seq<u8>,
    block: Seq<u8>,
    offset: nat,
    a: Seq<u8>,
    b: Seq<u8>,
)
    ensures
        ({
            let (mb, mo) = twofish_state_after(key, block, offset, a.len());
            &&& twofish_crypt_client(key, block, offset, a + b) == twofish_crypt_client(key, block, offset, a)
                + twofish_crypt_client(key, mb, mo, b)
            &&& twofish_state_after(key, mb, mo, b.len()) == twofish_state_after(key, block, offset, (a + b).len())
        }),
{
    let (mb, mo) = twofish_state_after(key, block, offset, a.len());
    lemma_twofish_state_after_add(key, block, offset, a.len(), b.len());
    let whole = twofish_crypt_client(key, block, offset, a + b);
    let parts = twofish_crypt_client(key, block, offset, a) + twofish_crypt_client(key, mb, mo, b);
    assert forall|i: int| 0 <= i < (a + b).len() implies #[trigger] whole[i] == parts[i] by {
        if i >= a.len() {
            let j = i - a.len();
            lemma_twofish_state_after_add(key, block, offset, a.len(), j as nat);
            assert(a.len() + j as nat == i as nat);
        }
    }
    assert(whole =~= parts);
}

/// Encrypting for the client twice from the same position gives the data back.
pub proof fn lemma_twofish_crypt_server_involution(response: Seq<u8>, offset: nat, data: Seq<u8>)
    ensures
        twofish_crypt_server(response, offset, twofish_crypt_server(response, offset, data)) == data,
{
    let once = twofish_crypt_server(response, offset, data);
    assert forall|i: int| 0 <= i < data.len() implies #[trigger] twofish_crypt_server(
        response,
        offset,
        once,
    )[i] == data[i] by {
        let x = data[i];
        let k = response[(offset + i) % 16];
        assert((x ^ k) ^ k == x) by (bit_vector);
    }
    assert(twofish_crypt_server(response, offset, once) =~= data);
}

/// The keystream to the client repeats every sixteen bytes: two bytes sixteen
/// apart are XOR-ed with the same key byte.
pub proof fn lemma_twofish_crypt_server_period(response: Seq<u8>, offset: nat, data: Seq<u8>, i: int)
    requires
        0 <= i,
        i + 16 < data.len(),
    ensures
        twofish_crypt_server(response, offset, data)[i] ^ data[i] == twofish_crypt_server(
            response,
            offset,
            data,
        )[i + 16] ^ data[i + 16],
{
    let k = response[(offset + i) % 16];
    assert((offset + i + 16) % 16 == (offset + i) % 16);
    let x = data[i];
    let y = data[i + 16];
    assert((x ^ k) ^ x == k) by (bit_vector);
    assert((y ^ k) ^ y == k) by (bit_vector);
}

/// Encrypting `a` and then `b` for the client, from where `a` left the
/// position, gives the same bytes as encrypting `a + b` in one call.
pub proof fn lemma_twofish_crypt_server_split(response: Seq<u8>, offset: nat, a: Seq<u8>, b: Seq<u8>)
    ensures
        twofish_crypt_server(response, offset, a + b) == twofish_crypt_server(response, offset, a)
            + twofish_crypt_server(response, offset + a.len(), b),
{
    let whole = twofish_crypt_server(response, offset, a + b);
    let parts = twofish_crypt_server(response, offset, a) + twofish_crypt_server(
        response,
        offset + a.len(),
        b,
    );
    assert forall|i: int| 0 <= i < (a + b).len() implies #[trigger] whole[i] == parts[i] by {
        if i >= a.len() {
            assert(offset + a.len() + (i - a.len()) == offset + i);
        }
    }
    assert(whole =~= parts);
}

/// The Twofish key of a connection is sixteen bytes: the seed written most
/// significant byte first, four times over.
pub proof fn lemma_twofish_key_bytes(seed: u32, i: int)
    requires
        0 <= i < 16,
    ensures
        twofish_key(seed).len() == 16,
        i % 4 == 0 ==> twofish_key(seed)[i] == (seed >> 24u32) as u8,
        i % 4 == 1 ==> twofish_key(seed)[i] == ((seed >> 16u32) & 0xff) as u8,
        i % 4 == 2 ==> twofish_key(seed)[i] == ((seed >> 8u32) & 0xff) as u8,
        i % 4 == 3 ==> twofish_key(seed)[i] == (seed & 0xff) as u8,
{
    let k = twofish_key(seed);
    let b = u32_be(seed);
    assert(k[i] == b[i % 4]);
    assert((seed / 0x1000000) as u8 == (seed >> 24u32) as u8) by (bit_vector);
    assert(((seed / 0x10000) % 0x100) as u8 == ((seed >> 16u32) & 0xff) as u8) by (bit_vector);
    assert(((seed / 0x100) % 0x100) as u8 == ((seed >> 8u32) & 0xff) as u8) by (bit_vector);
    assert((seed % 0x100) as u8 == (seed & 0xff) as u8) by (bit_vector);
}

} // verus!
