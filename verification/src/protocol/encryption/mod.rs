//! Encryption of the packet stream: the login-server cipher and the
//! game-server cipher, chosen by client version.

pub mod lobby_pass;
pub mod twofish_pass;

use vstd::prelude::*;
use crate::protocol::client_version::ClientVersion;
use self::lobby_pass::{lobby_crypt, lobby_keys, lobby_kind_for, lobby_state_after, LobbyPass};
use self::twofish_pass::{twofish_crypt_client, twofish_crypt_server, twofish_state_after, TwofishPass};

verus! {

/// The game-server cipher that a client uses.
#[derive(Debug, Clone, Copy, PartialEq, Eq, Structural)]
pub enum EncryptionKind {
    BlowFishV1,
    BlowFishV2,
    BlowFishV3,
    BlowFishV4,
    TwoFish,
}

/// The cipher of a client version: Twofish after 2.0.3, Blowfish before.
pub open spec fn encryption_kind_for(client_version: ClientVersion) -> EncryptionKind {
    if client_version.spec_newer_than(ClientVersion { major: 2, minor: 0, patch: 3, build: 0 }) {
        EncryptionKind::TwoFish
    } else if client_version.spec_newer_than(ClientVersion { major: 2, minor: 0, patch: 0, build: 0 }) {
        EncryptionKind::BlowFishV4
    } else if client_version == (ClientVersion { major: 1, minor: 25, patch: 36, build: 0 }) {
        EncryptionKind::BlowFishV2
    } else if client_version.spec_at_least(ClientVersion { major: 1, minor: 25, patch: 35, build: 0 }) {
        EncryptionKind::BlowFishV3
    } else {
        EncryptionKind::BlowFishV1
    }
}

impl EncryptionKind {
    pub fn for_version(client_version: ClientVersion) -> (r: EncryptionKind)
        ensures
            r == encryption_kind_for(client_version),
    {
        if client_version.newer_than(ClientVersion::new(2, 0, 3, 0)) {
            EncryptionKind::TwoFish
        } else if client_version.newer_than(ClientVersion::new(2, 0, 0, 0)) {
            EncryptionKind::BlowFishV4
        } else if client_version == ClientVersion::new(1, 25, 36, 0) {
            EncryptionKind::BlowFishV2
        } else if client_version.at_least(ClientVersion::new(1, 25, 35, 0)) {
            EncryptionKind::BlowFishV3
        } else {
            EncryptionKind::BlowFishV1
        }
    }
}

/// The cipher of a game-server connection. Only the Twofish kind is
/// available: the Blowfish pass that the older kinds also apply is not part
/// of this library.
pub struct GameEncryption {
    kind: EncryptionKind,
    twofish: TwofishPass,
}

impl Clone for GameEncryption {
    /// A cipher in the same state.
    fn clone(&self) -> (r: Self)
        ensures
            r == *self,
    {
        GameEncryption { kind: self.kind, twofish: self.twofish.clone() }
    }
}

impl GameEncryption {
    pub closed spec fn kind(&self) -> EncryptionKind {
        self.kind
    }

    pub closed spec fn twofish(&self) -> TwofishPass {
        self.twofish
    }

    /// The cipher of `kind` for a connection seed; `None` for the kinds that
    /// need the Blowfish pass.
    pub fn new(kind: EncryptionKind, seed: u32) -> (r: Option<GameEncryption>)
        ensures
            r is Some <==> kind == EncryptionKind::TwoFish,
            r is Some ==> r.unwrap().kind() == kind && r.unwrap().twofish().is_fresh(seed),
    {
        if kind != EncryptionKind::TwoFish {
            return None;
        }
        let twofish = TwofishPass::new(seed);
        Some(GameEncryption { kind, twofish })
    }

    /// Decrypts data from the client in place.
    pub fn crypt_client_to_server(&mut self, data: &mut [u8])
        ensures
            final(self).kind() == old(self).kind(),
            old(self).kind() == EncryptionKind::TwoFish ==> {
                let t = old(self).twofish();
                &&& final(data)@ == twofish_crypt_client(t.key(), t.block(), t.offset(), old(data)@)
                &&& (final(self).twofish().block(), final(self).twofish().offset())
                    == twofish_state_after(t.key(), t.block(), t.offset(), old(data)@.len())
                &&& final(self).twofish().key() == t.key()
                &&& final(self).twofish().response() == t.response()
            },
            old(self).kind() != EncryptionKind::TwoFish ==> final(data)@ == old(data)@ && *final(self)
                == *old(self),
    {
        if self.kind == EncryptionKind::TwoFish {
            self.twofish.crypt_client_to_server(data);
        }
    }

    /// How many bytes have gone through the cipher for the client.
    pub fn stream_offset(&self) -> (r: usize)
        ensures
            r == self.twofish().offset(),
    {
        self.twofish.current_offset()
    }

    /// Encrypts data for the client in place.
    pub fn crypt_server_to_client(&mut self, data: &mut [u8])
        requires
            old(self).twofish().offset() + old(data)@.len() <= usize::MAX,
        ensures
            final(self).kind() == old(self).kind(),
            old(self).kind() == EncryptionKind::TwoFish ==> {
                let t = old(self).twofish();
                &&& final(data)@ == twofish_crypt_server(t.response(), t.offset(), old(data)@)
                &&& final(self).twofish().offset() == t.offset() + old(data)@.len()
                &&& final(self).twofish().key() == t.key()
                &&& final(self).twofish().block() == t.block()
                &&& final(self).twofish().response() == t.response()
            },
            old(self).kind() != EncryptionKind::TwoFish ==> final(data)@ == old(data)@ && *final(self)
                == *old(self),
    {
        if self.kind == EncryptionKind::TwoFish {
            self.twofish.crypt_server_to_client(data);
        }
    }
}

/// The cipher of a connection: the login server's, or a game server's.
pub enum Encryption {
    Lobby(LobbyPass),
    Game(GameEncryption),
}

impl Clone for Encryption {
    /// A cipher in the same state.
    fn clone(&self) -> (r: Self)
        ensures
            r == *self,
    {
        match self {
            Encryption::Lobby(pass) => Encryption::Lobby(pass.clone()),
            Encryption::Game(pass) => Encryption::Game(pass.clone()),
        }
    }
}

impl Encryption {
    /// The cipher for a client version and connection seed; `None` for a game
    /// connection of a client old enough to use Blowfish.
    pub fn new(client_version: ClientVersion, seed: u32, is_lobby: bool) -> (r: Option<Encryption>)
        ensures
            is_lobby ==> (r matches Some(Encryption::Lobby(pass)) && pass.kind() == lobby_kind_for(
                encryption_kind_for(client_version),
            ) && pass.keys() == lobby_keys(client_version) && pass.state()
                == lobby_pass::lobby_initial_state(seed)),
            !is_lobby ==> (r is Some <==> encryption_kind_for(client_version) == EncryptionKind::TwoFish),
            !is_lobby && r is Some ==> (r matches Some(Encryption::Game(pass)) && pass.kind()
                == EncryptionKind::TwoFish && pass.twofish().is_fresh(seed)),
    {
        let kind = EncryptionKind::for_version(client_version);
        if is_lobby {
            Some(Encryption::Lobby(LobbyPass::new(kind.into(), client_version, seed)))
        } else {
            match GameEncryption::new(kind, seed) {
                Some(pass) => Some(Encryption::Game(pass)),
                None => None,
            }
        }
    }

    /// Decrypts data from the client in place.
    pub fn crypt_client_to_server(&mut self, data: &mut [u8])
        ensures
            client_to_server_crypted(*old(self), *final(self), old(data)@, final(data)@),
    {
        match self {
            Encryption::Lobby(pass) => pass.encrypt(data),
            Encryption::Game(pass) => pass.crypt_client_to_server(data),
        }
    }

    /// Whether `n` more bytes can be encrypted for the client: the stream
    /// offset of a game cipher stays within `usize`.
    pub open spec fn has_room_to_client(&self, n: nat) -> bool {
        *self matches Encryption::Game(p) ==> p.twofish().offset() + n <= usize::MAX
    }

    /// Whether `n` more bytes can be encrypted for the client.
    pub fn room_to_client(&self, n: usize) -> (r: bool)
        ensures
            r == self.has_room_to_client(n as nat),
    {
        match self {
            Encryption::Lobby(_) => true,
            Encryption::Game(pass) => pass.stream_offset() <= usize::MAX - n,
        }
    }

    /// Encrypts data for the client in place; the login cipher leaves it as it is.
    pub fn crypt_server_to_client(&mut self, data: &mut [u8])
        requires
            old(self).has_room_to_client(old(data)@.len()),
        ensures
            server_to_client_crypted(*old(self), *final(self), old(data)@, final(data)@),
    {
        match self {
            Encryption::Lobby(_) => {},
            Encryption::Game(pass) => pass.crypt_server_to_client(data),
        }
    }
}

/// `output` is `input` decrypted from the client by cipher `before`, which
/// becomes `after`.
pub open spec fn client_to_server_crypted(before: Encryption, after: Encryption, input: Seq<u8>, output: Seq<u8>) -> bool {
    match (before, after) {
        (Encryption::Lobby(p), Encryption::Lobby(q)) => {
            &&& output == lobby_crypt(p.kind(), p.keys(), p.state(), input)
            &&& q.kind() == p.kind() && q.keys() == p.keys()
            &&& q.state() == lobby_state_after(p.kind(), p.keys(), p.state(), input.len())
        },
        (Encryption::Game(p), Encryption::Game(q)) => {
            &&& q.kind() == p.kind()
            &&& p.kind() == EncryptionKind::TwoFish ==> {
                let t = p.twofish();
                &&& output == twofish_crypt_client(t.key(), t.block(), t.offset(), input)
                &&& (q.twofish().block(), q.twofish().offset()) == twofish_state_after(
                    t.key(),
                    t.block(),
                    t.offset(),
                    input.len(),
                )
                &&& q.twofish().key() == t.key()
                &&& q.twofish().response() == t.response()
            }
            &&& p.kind() != EncryptionKind::TwoFish ==> output == input && q == p
        },
        _ => false,
    }
}

/// `output` is `input` encrypted for the client by cipher `before`, which
/// becomes `after`; the login cipher leaves the bytes as they are.
pub open spec fn server_to_client_crypted(before: Encryption, after: Encryption, input: Seq<u8>, output: Seq<u8>) -> bool {
    match (before, after) {
        (Encryption::Lobby(p), Encryption::Lobby(q)) => output == input && q == p,
        (Encryption::Game(p), Encryption::Game(q)) => {
            &&& q.kind() == p.kind()
            &&& p.kind() == EncryptionKind::TwoFish ==> {
                let t = p.twofish();
                &&& output == twofish_crypt_server(t.response(), t.offset(), input)
                &&& q.twofish().offset() == t.offset() + input.len()
                &&& q.twofish().key() == t.key()
                &&& q.twofish().block() == t.block()
                &&& q.twofish().response() == t.response()
            }
            &&& p.kind() != EncryptionKind::TwoFish ==> output == input && q == p
        },
        _ => false,
    }
}

/// Reads an encrypted stream; it holds no state of its own.
pub struct EncryptionReader {}

/// A client at least as new as one that uses Twofish uses Twofish too, and
/// one no newer than a Blowfish client uses Blowfish.
pub proof fn lemma_twofish_for_newer_clients(older: ClientVersion, newer: ClientVersion)
    requires
        newer.spec_at_least(older),
    ensures
        encryption_kind_for(older) == EncryptionKind::TwoFish ==> encryption_kind_for(newer) == EncryptionKind::TwoFish,
        encryption_kind_for(newer) != EncryptionKind::TwoFish ==> encryption_kind_for(older) != EncryptionKind::TwoFish,
{
}

} // verus!
