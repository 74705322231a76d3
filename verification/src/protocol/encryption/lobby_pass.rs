//! The stream cipher that login-server connections use: a keystream that
//! depends on the client version and the connection seed, XOR-ed with the data.

use vstd::prelude::*;
use super::EncryptionKind;
use crate::protocol::client_version::ClientVersion;

verus! {

/// The variant of the login-server cipher.
#[derive(Debug, Clone, Copy, PartialEq, Eq, Structural)]
pub enum LobbyEncryptionKind {
    V1,
    V2,
    V3,
}

/// The login cipher variant that belongs with a game cipher kind.
pub open spec fn lobby_kind_for(kind: EncryptionKind) -> LobbyEncryptionKind {
    match kind {
        EncryptionKind::BlowFishV1 => LobbyEncryptionKind::V1,
        EncryptionKind::BlowFishV2 => LobbyEncryptionKind::V2,
        _ => LobbyEncryptionKind::V3,
    }
}

impl From<EncryptionKind> for LobbyEncryptionKind {
    fn from(kind: EncryptionKind) -> (r: Self) {
        match kind {
            EncryptionKind::BlowFishV1 => LobbyEncryptionKind::V1,
            EncryptionKind::BlowFishV2 => LobbyEncryptionKind::V2,
            _ => LobbyEncryptionKind::V3,
        }
    }
}

impl vstd::std_specs::convert::FromSpecImpl<EncryptionKind> for LobbyEncryptionKind {
    open spec fn obeys_from_spec() -> bool {
        true
    }

    open spec fn from_spec(kind: EncryptionKind) -> LobbyEncryptionKind {
        lobby_kind_for(kind)
    }
}

/// The three keys derived from a client version: (first, second, third).
pub open spec fn lobby_keys(client_version: ClientVersion) -> (u32, u32, u32) {
    let a = client_version.major as u32;
    let b = client_version.minor as u32;
    let c = client_version.patch as u32;
    let first = ((((a << 9u32) | b) << 10u32) | c) ^ (c.wrapping_mul(c) << 5u32);
    let key_2 = (first << 4u32) ^ b.wrapping_mul(b) ^ b.wrapping_mul(0x0B000000) ^ c.wrapping_mul(
        0x380000,
    ) ^ 0x2C13A5FD;
    let second = (((((a << 9u32) | c) << 10u32) | b).wrapping_mul(8)) ^ c.wrapping_mul(
        c,
    ).wrapping_mul(0x0c00);
    let key_3 = second ^ b.wrapping_mul(b) ^ b.wrapping_mul(0x6800000) ^ c.wrapping_mul(0x1c0000)
        ^ 0xA31D527F;
    (key_2.wrapping_sub(1), key_2, key_3)
}

/// The cipher state that a connection seed starts from.
pub open spec fn lobby_initial_state(seed: u32) -> (u32, u32) {
    (
        ((!seed ^ 0x1357) << 16u32) | ((seed ^ 0xaaaa) & 0xffff),
        ((seed >> 16u32) ^ 0x4321) | ((!seed ^ 0xabcd0000) & 0xffff0000),
    )
}

/// The cipher state after one byte.
pub open spec fn lobby_next_state(
    kind: LobbyEncryptionKind,
    keys: (u32, u32, u32),
    state: (u32, u32),
) -> (u32, u32) {
    let (s0, s1) = state;
    match kind {
        LobbyEncryptionKind::V1 => (
            ((s0 >> 1u32) | (s1 << 31u32)) ^ keys.1,
            ((s1 >> 1u32) | (s0 << 31u32)) ^ keys.0,
        ),
        LobbyEncryptionKind::V2 => {
            let second = keys.0.wrapping_shr(5u32.wrapping_mul(s1).wrapping_mul(s1)).wrapping_add(
                s1.wrapping_mul(keys.0),
            ).wrapping_add(s0.wrapping_mul(s0).wrapping_mul(0x35ce9581)).wrapping_add(0x07afcc37);
            let first = keys.1.wrapping_shr(3u32.wrapping_mul(s0).wrapping_mul(s0)).wrapping_add(
                s0.wrapping_mul(keys.1),
            ).wrapping_add(second.wrapping_mul(second).wrapping_mul(0x4c3a1353)).wrapping_add(
                0x16ef783f,
            );
            (first, second)
        },
        LobbyEncryptionKind::V3 => (
            ((s0 >> 1u32) | (s1 << 31u32)) ^ keys.2,
            (((((s1 >> 1u32) | (s0 << 31u32)) ^ keys.0) >> 1u32) | (s0 << 31u32)) ^ keys.1,
        ),
    }
}

/// The cipher state after `n` bytes.
pub open spec fn lobby_state_after(
    kind: LobbyEncryptionKind,
    keys: (u32, u32, u32),
    state: (u32, u32),
    n: nat,
) -> (u32, u32)
    decreases n,
{
    if n == 0 {
        state
    } else {
        lobby_next_state(kind, keys, lobby_state_after(kind, keys, state, (n - 1) as nat))
    }
}

/// The first `n` bytes of the keystream: the low byte of each successive state.
pub open spec fn lobby_keystream(
    kind: LobbyEncryptionKind,
    keys: (u32, u32, u32),
    state: (u32, u32),
    n: nat,
) -> Seq<u8> {
    Seq::new(n, |i: int| lobby_state_after(kind, keys, state, i as nat).0 as u8)
}

/// `data` XOR-ed with the keystream.
pub open spec fn lobby_crypt(
    kind: LobbyEncryptionKind,
    keys: (u32, u32, u32),
    state: (u32, u32),
    data: Seq<u8>,
) -> Seq<u8> {
    let ks = lobby_keystream(kind, keys, state, data.len());
    Seq::new(data.len(), |i: int| data[i] ^ ks[i])
}

/// The cipher of a login-server connection.
pub struct LobbyPass {
    kind: LobbyEncryptionKind,
    keys: [u32; 3],
    state: [u32; 2],
}

impl Clone for LobbyPass {
    /// A pass in the same state: it goes on with the same keystream.
    fn clone(&self) -> (r: Self)
        ensures
            r == *self,
    {
        LobbyPass { kind: self.kind, keys: self.keys, state: self.state }
    }
}

impl LobbyPass {
    pub closed spec fn kind(&self) -> LobbyEncryptionKind {
        self.kind
    }

    pub closed spec fn keys(&self) -> (u32, u32, u32) {
        (self.keys[0], self.keys[1], self.keys[2])
    }

    pub closed spec fn state(&self) -> (u32, u32) {
        (self.state[0], self.state[1])
    }

    pub fn new(kind: LobbyEncryptionKind, client_version: ClientVersion, seed: u32) -> (r: LobbyPass)
        ensures
            r.kind() == kind,
            r.keys() == lobby_keys(client_version),
            r.state() == lobby_initial_state(seed),
    {
        let a = client_version.major as u32;
        let b = client_version.minor as u32;
        let c = client_version.patch as u32;

        let first = ((((a << 9u32) | b) << 10u32) | c) ^ (c.wrapping_mul(c) << 5u32);
        let key_2 = (first << 4u32) ^ b.wrapping_mul(b) ^ b.wrapping_mul(0x0B000000)
            ^ c.wrapping_mul(0x380000) ^ 0x2C13A5FD;
        let second = (((((a << 9u32) | c) << 10u32) | b).wrapping_mul(8)) ^ c.wrapping_mul(
            c,
        ).wrapping_mul(0x0c00);
        let key_3 = second ^ b.wrapping_mul(b) ^ b.wrapping_mul(0x6800000) ^ c.wrapping_mul(
            0x1c0000,
        ) ^ 0xA31D527F;
        let key_1 = key_2.wrapping_sub(1);
        let keys = [key_1, key_2, key_3];
        let state = [
            ((!seed ^ 0x1357) << 16u32) | ((seed ^ 0xaaaa) & 0xffff),
            ((seed >> 16u32) ^ 0x4321) | ((!seed ^ 0xabcd0000) & 0xffff0000),
        ];
        LobbyPass { kind, keys, state }
    }

    /// Encrypts one byte and advances the state.
    pub fn encrypt_one(&mut self, src: u8) -> (r: u8)
        ensures
            r == src ^ (old(self).state().0 as u8),
            final(self).kind() == old(self).kind(),
            final(self).keys() == old(self).keys(),
            final(self).state() == lobby_next_state(old(self).kind(), old(self).keys(), old(self).state()),
    {
        let s0 = self.state[0];
        let s1 = self.state[1];
        let result = src ^ (s0 as u8);
        match self.kind {
            LobbyEncryptionKind::V1 => {
                self.state = [
                    ((s0 >> 1u32) | (s1 << 31u32)) ^ self.keys[1],
                    ((s1 >> 1u32) | (s0 << 31u32)) ^ self.keys[0],
                ];
            },
            LobbyEncryptionKind::V2 => {
                let k0 = self.keys[0];
                let k1 = self.keys[1];
                let second = k0.wrapping_shr(5u32.wrapping_mul(s1).wrapping_mul(s1)).wrapping_add(
                    s1.wrapping_mul(k0),
                ).wrapping_add(s0.wrapping_mul(s0).wrapping_mul(0x35ce9581)).wrapping_add(
                    0x07afcc37,
                );
                let first = k1.wrapping_shr(3u32.wrapping_mul(s0).wrapping_mul(s0)).wrapping_add(
                    s0.wrapping_mul(k1),
                ).wrapping_add(second.wrapping_mul(second).wrapping_mul(0x4c3a1353)).wrapping_add(
                    0x16ef783f,
                );
                self.state = [first, second];
            },
            LobbyEncryptionKind::V3 => {
                self.state = [
                    ((s0 >> 1u32) | (s1 << 31u32)) ^ self.keys[2],
                    (((((s1 >> 1u32) | (s0 << 31u32)) ^ self.keys[0]) >> 1u32) | (s0 << 31u32))
                        ^ self.keys[1],
                ];
            },
        }
        result
    }

    /// Encrypts `data` in place, byte by byte.
    pub fn encrypt(&mut self, data: &mut [u8])
        ensures
            final(data)@ == lobby_crypt(old(self).kind(), old(self).keys(), old(self).state(), old(data)@),
            final(self).kind() == old(self).kind(),
            final(self).keys() == old(self).keys(),
            final(self).state() == lobby_state_after(
                old(self).kind(),
                old(self).keys(),
                old(self).state(),
                old(data)@.len(),
            ),
    {
        let ghost kind = self.kind();
        let ghost keys = self.keys();
        let ghost state0 = self.state();
        let ghost input = data@;
        let mut i: usize = 0;
        while i < data.len()
            invariant
                i <= data.len(),
                data@.len() == input.len(),
                self.kind() == kind,
                self.keys() == keys,
                self.state() == lobby_state_after(kind, keys, state0, i as nat),
                forall|j: int| 0 <= j < i ==> #[trigger] data@[j] == lobby_crypt(kind, keys, state0, input)[j],
                forall|j: int| i <= j < data.len() ==> #[trigger] data@[j] == input[j],
            decreases data.len() - i,
        {
            let b = data[i];
            let e = self.encrypt_one(b);
            data[i] = e;
            i += 1;
        }
        proof {
            assert(data@ =~= lobby_crypt(kind, keys, state0, input));
        }
    }
}

/// Encrypting twice from the same state gives the data back: the keystream
/// does not depend on the data, and XOR with it undoes itself.
pub proof fn lemma_lobby_crypt_involution(
    kind: LobbyEncryptionKind,
    keys: (u32, u32, u32),
    state: (u32, u32),
    data: Seq<u8>,
)
    ensures
        lobby_crypt(kind, keys, state, lobby_crypt(kind, keys, state, data)) == data,
{
    let once = lobby_crypt(kind, keys, state, data);
    let ks = lobby_keystream(kind, keys, state, data.len());
    assert forall|i: int| 0 <= i < data.len() implies #[trigger] lobby_crypt(kind, keys, state, once)[i]
        == data[i] by {
        let x = data[i];
        let k = ks[i];
        assert((x ^ k) ^ k == x) by (bit_vector);
    }
    assert(lobby_crypt(kind, keys, state, once) =~= data);
}

/// Running the cipher over `m` bytes and then `n` more reaches the state
/// of running it over `m + n` bytes at once.
pub proof fn lemma_lobby_state_after_add(
    kind: LobbyEncryptionKind,
    keys: (u32, u32, u32),
    state: (u32, u32),
    m: nat,
    n: nat,
)
    ensures
        lobby_state_after(kind, keys, lobby_state_after(kind, keys, state, m), n)
            == lobby_state_after(kind, keys, state, m + n),
    decreases n,
{
    if n > 0 {
        lemma_lobby_state_after_add(kind, keys, state, m, (n - 1) as nat);
        assert((m + n - 1) as nat == m + (n - 1) as nat);
    }
}

/// Encrypting `a` and then `b` with the state that `a` left gives the same
/// bytes, and the same final state, as encrypting `a + b` in one call.
pub proof fn lemma_lobby_crypt_split(
    kind: LobbyEncryptionKind,
    keys: (u32, u32, u32),
    state: (u32, u32),
    a: Seq<u8>,
    b: Seq<u8>,
)
    ensures
        lobby_crypt(kind, keys, state, a + b) == lobby_crypt(kind, keys, state, a) + lobby_crypt(
            kind,
            keys,
            lobby_state_after(kind, keys, state, a.len()),
            b,
        ),
        lobby_state_after(kind, keys, lobby_state_after(kind, keys, state, a.len()), b.len())
            == lobby_state_after(kind, keys, state, (a + b).len()),
{
    let mid = lobby_state_after(kind, keys, state, a.len());
    lemma_lobby_state_after_add(kind, keys, state, a.len(), b.len());
    let whole = lobby_crypt(kind, keys, state, a + b);
    let parts = lobby_crypt(kind, keys, state, a) + lobby_crypt(kind, keys, mid, b);
    assert forall|i: int| 0 <= i < (a + b).len() implies #[trigger] whole[i] == parts[i] by {
        if i >= a.len() {
            let j = i - a.len();
            lemma_lobby_state_after_add(kind, keys, state, a.len(), j as nat);
            assert(a.len() + j as nat == i as nat);
        }
    }
    assert(whole =~= parts);
}

/// Of the three keys a client version gives, the first is one less than
/// the second, counting modulo 2^32.
pub proof fn lemma_lobby_first_key(client_version: ClientVersion)
    ensures
        (lobby_keys(client_version).0 as int + 1) % 0x1_0000_0000 == lobby_keys(client_version).1 as int,
{
    let k = lobby_keys(client_version).1;
    let j = k.wrapping_sub(1);
    assert((j as int + 1) % 0x1_0000_0000 == k as int) by (bit_vector)
        requires
            j == k.wrapping_sub(1),
    ;
}

} // verus!
