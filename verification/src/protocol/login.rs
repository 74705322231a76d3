//! Packets of the login sequence: account and game server login, the
//! character list, character creation and selection.

use vstd::prelude::*;
use vstd::utf8::*;

use crate::protocol::format::{
    be_u16, be_u32, concat_map, first_error, fits_str_block, lemma_concat_map_fixed,
    lemma_first_error_none, lemma_str_block_len, lemma_valid_utf8_zeros, is_first_zero, lemma_first_zero, str_nul_error, str_nul_text, str_nul_len, no_nul_chars, lemma_str_nul_roundtrip, lemma_be_u16_roundtrip, lemma_be_u32_roundtrip,
    lemma_i32_u32_cast, lemma_str_block_roundtrip, str_block_bytes, str_block_text, u16_be, u32_be,
    zeros, PacketReadExt, PacketWriteExt,
};
use crate::protocol::{ClientFlags, ClientVersion, Packet, ProtocolError};
use crate::vector::{IVec2, IVec3, UVec3};
use crate::{Direction, EntityId, EntityKind, Notoriety};

verus! {

broadcast use crate::lemma_entity_id_view_injective;

/// The first packet of a connection: the encryption seed and the client version.
#[derive(Debug, Clone, Default)]
pub struct Seed {
    pub seed: u32,
    pub client_version: ClientVersion,
}

impl Packet for Seed {
    open spec fn spec_packet_kind() -> u8 {
        0xef
    }

    open spec fn spec_fixed_length(client_version: ClientVersion) -> Option<usize> {
        Some(21)
    }

    open spec fn wire(&self, client_version: ClientVersion, to_client: bool) -> Seq<u8> {
        u32_be(self.seed) + u32_be(self.client_version.major as u32) + u32_be(self.client_version.minor as u32) + u32_be(self.client_version.patch as u32) + u32_be(self.client_version.build as u32)
    }

    open spec fn can_encode(&self, client_version: ClientVersion, to_client: bool) -> bool {
        true
    }

    open spec fn decode_error(client_version: ClientVersion, from_client: bool, s: Seq<u8>) -> Option<ProtocolError> {
        if s.len() < 20 {
            Some(ProtocolError::UnexpectedEof)
        } else {
            None
        }
    }

    open spec fn decodes_to(client_version: ClientVersion, from_client: bool, s: Seq<u8>, p: Self) -> bool {
        &&& p.seed == be_u32(s, 0)
        &&& p.client_version.major == be_u32(s, 4) as u8
        &&& p.client_version.minor == be_u32(s, 8) as u8
        &&& p.client_version.patch == be_u32(s, 12) as u8
        &&& p.client_version.build == be_u32(s, 16) as u8
    }

    open spec fn roundtrips(&self, client_version: ClientVersion, to_client: bool) -> bool {
        true
    }

    fn packet_kind() -> (r: u8) {
        0xef
    }

    fn fixed_length(client_version: ClientVersion) -> (r: Option<usize>) {
        Some(21)
    }

    fn decode(client_version: ClientVersion, from_client: bool, payload: &[u8]) -> (r: Result<Self, ProtocolError>) {
        let ghost s = payload@;
        let mut payload = payload;
        let seed = payload.read_u32()?;
        assert(payload@ =~= s.skip(4));
        let major = payload.read_u32()? as u8;
        assert(payload@ =~= s.skip(8));
        let minor = payload.read_u32()? as u8;
        assert(payload@ =~= s.skip(12));
        let patch = payload.read_u32()? as u8;
        assert(payload@ =~= s.skip(16));
        let build = payload.read_u32()? as u8;
        assert(payload@ =~= s.skip(20));
        Ok(Seed { seed, client_version: ClientVersion::new(major, minor, patch, build) })
    }

    fn encode(&self, client_version: ClientVersion, to_client: bool, writer: &mut Vec<u8>) -> (r: Result<(), ProtocolError>) {
        writer.write_u32(self.seed);
        writer.write_u32(self.client_version.major as u32);
        writer.write_u32(self.client_version.minor as u32);
        writer.write_u32(self.client_version.patch as u32);
        writer.write_u32(self.client_version.build as u32);
        assert(writer@ =~= old(writer)@ + self.wire(client_version, to_client));
        Ok(())
    }

    proof fn lemma_roundtrip(&self, client_version: ClientVersion, to_client: bool) {
        let w = self.wire(client_version, to_client);
        assert(w.subrange(0, 4) =~= u32_be(self.seed));
        lemma_be_u32_roundtrip(self.seed, w, 0);
        assert(w.subrange(4, 8) =~= u32_be(self.client_version.major as u32));
        lemma_be_u32_roundtrip(self.client_version.major as u32, w, 4);
        assert(w.subrange(8, 12) =~= u32_be(self.client_version.minor as u32));
        lemma_be_u32_roundtrip(self.client_version.minor as u32, w, 8);
        assert(w.subrange(12, 16) =~= u32_be(self.client_version.patch as u32));
        lemma_be_u32_roundtrip(self.client_version.patch as u32, w, 12);
        assert(w.subrange(16, 20) =~= u32_be(self.client_version.build as u32));
        lemma_be_u32_roundtrip(self.client_version.build as u32, w, 16);
    }
}

/// Account credentials sent to the login server.
#[derive(Debug, Clone)]
pub struct AccountLogin {
    pub username: String,
    pub password: String,
    pub next_login_key: u8,
}

impl Packet for AccountLogin {
    open spec fn spec_packet_kind() -> u8 {
        0x80
    }

    open spec fn spec_fixed_length(client_version: ClientVersion) -> Option<usize> {
        Some(62)
    }

    open spec fn wire(&self, client_version: ClientVersion, to_client: bool) -> Seq<u8> {
        str_block_bytes(encode_utf8(self.username@), 30) + str_block_bytes(encode_utf8(self.password@), 30) + seq![self.next_login_key]
    }

    open spec fn can_encode(&self, client_version: ClientVersion, to_client: bool) -> bool {
        true
    }

    open spec fn decode_error(client_version: ClientVersion, from_client: bool, s: Seq<u8>) -> Option<ProtocolError> {
        if s.len() < 30 {
            Some(ProtocolError::UnexpectedEof)
        } else if str_block_text(s.subrange(0, 30)) is None {
            Some(ProtocolError::InvalidUtf8)
        } else if s.len() < 60 {
            Some(ProtocolError::UnexpectedEof)
        } else if str_block_text(s.subrange(30, 60)) is None {
            Some(ProtocolError::InvalidUtf8)
        } else if s.len() < 61 {
            Some(ProtocolError::UnexpectedEof)
        } else {
            None
        }
    }

    open spec fn decodes_to(client_version: ClientVersion, from_client: bool, s: Seq<u8>, p: Self) -> bool {
        &&& Some(p.username@) == str_block_text(s.subrange(0, 30))
        &&& Some(p.password@) == str_block_text(s.subrange(30, 60))
        &&& p.next_login_key == s[60]
    }

    open spec fn roundtrips(&self, client_version: ClientVersion, to_client: bool) -> bool {
        fits_str_block(self.username@, 30) && fits_str_block(self.password@, 30)
    }

    fn packet_kind() -> (r: u8) {
        0x80
    }

    fn fixed_length(client_version: ClientVersion) -> (r: Option<usize>) {
        Some(62)
    }

    fn decode(client_version: ClientVersion, from_client: bool, payload: &[u8]) -> (r: Result<Self, ProtocolError>) {
        let ghost s = payload@;
        let mut payload = payload;
        proof {
            if payload@.len() >= 30 {
                assert(payload@.take(30) =~= s.subrange(0, 30));
            }
        }
        let username = payload.read_str_block(30)?;
        assert(payload@ =~= s.skip(30));
        proof {
            if payload@.len() >= 30 {
                assert(payload@.take(30) =~= s.subrange(30, 60));
            }
        }
        let password = payload.read_str_block(30)?;
        assert(payload@ =~= s.skip(60));
        let next_login_key = payload.read_u8()?;
        assert(payload@ =~= s.skip(61));
        Ok(AccountLogin { username, password, next_login_key })
    }

    fn encode(&self, client_version: ClientVersion, to_client: bool, writer: &mut Vec<u8>) -> (r: Result<(), ProtocolError>) {
        writer.write_str_block(self.username.as_str(), 30);
        writer.write_str_block(self.password.as_str(), 30);
        writer.write_u8(self.next_login_key);
        assert(writer@ =~= old(writer)@ + self.wire(client_version, to_client));
        Ok(())
    }

    proof fn lemma_roundtrip(&self, client_version: ClientVersion, to_client: bool) {
        let w = self.wire(client_version, to_client);
        assert(w.subrange(0, 30) =~= str_block_bytes(encode_utf8(self.username@), 30));
        lemma_str_block_roundtrip(self.username@, 30);
        assert(w.subrange(0, 30) == str_block_bytes(encode_utf8(self.username@), 30));
        assert(w.subrange(30, 60) =~= str_block_bytes(encode_utf8(self.password@), 30));
        lemma_str_block_roundtrip(self.password@, 30);
        assert(w.subrange(30, 60) == str_block_bytes(encode_utf8(self.password@), 30));
        assert(w.subrange(60, 61) =~= seq![self.next_login_key]);
    }
}

/// Chooses a game server from the server list.
#[derive(Debug, Clone, Default)]
pub struct SelectGameServer {
    pub server_id: u8,
}

impl Packet for SelectGameServer {
    open spec fn spec_packet_kind() -> u8 {
        0xa0
    }

    open spec fn spec_fixed_length(client_version: ClientVersion) -> Option<usize> {
        Some(3)
    }

    open spec fn wire(&self, client_version: ClientVersion, to_client: bool) -> Seq<u8> {
        zeros(1) + seq![self.server_id]
    }

    open spec fn can_encode(&self, client_version: ClientVersion, to_client: bool) -> bool {
        true
    }

    open spec fn decode_error(client_version: ClientVersion, from_client: bool, s: Seq<u8>) -> Option<ProtocolError> {
        if s.len() < 2 {
            Some(ProtocolError::UnexpectedEof)
        } else {
            None
        }
    }

    open spec fn decodes_to(client_version: ClientVersion, from_client: bool, s: Seq<u8>, p: Self) -> bool {
        &&& p.server_id == s[1]
    }

    open spec fn roundtrips(&self, client_version: ClientVersion, to_client: bool) -> bool {
        true
    }

    fn packet_kind() -> (r: u8) {
        0xa0
    }

    fn fixed_length(client_version: ClientVersion) -> (r: Option<usize>) {
        Some(3)
    }

    fn decode(client_version: ClientVersion, from_client: bool, payload: &[u8]) -> (r: Result<Self, ProtocolError>) {
        let ghost s = payload@;
        let mut payload = payload;
        payload.skip(1)?;
        assert(payload@ =~= s.skip(1));
        let server_id = payload.read_u8()?;
        assert(payload@ =~= s.skip(2));
        Ok(SelectGameServer { server_id })
    }

    fn encode(&self, client_version: ClientVersion, to_client: bool, writer: &mut Vec<u8>) -> (r: Result<(), ProtocolError>) {
        writer.write_zeros(1);
        writer.write_u8(self.server_id);
        assert(writer@ =~= old(writer)@ + self.wire(client_version, to_client));
        Ok(())
    }

    proof fn lemma_roundtrip(&self, client_version: ClientVersion, to_client: bool) {
        let w = self.wire(client_version, to_client);
        assert(w.subrange(1, 2) =~= seq![self.server_id]);
    }
}

/// Redirects the client to a game server.
#[derive(Debug, Clone, Default)]
pub struct SwitchServer {
    pub ip: u32,
    pub port: u16,
    pub token: u32,
}

impl Packet for SwitchServer {
    open spec fn spec_packet_kind() -> u8 {
        0x8c
    }

    open spec fn spec_fixed_length(client_version: ClientVersion) -> Option<usize> {
        Some(11)
    }

    open spec fn wire(&self, client_version: ClientVersion, to_client: bool) -> Seq<u8> {
        u32_be(self.ip) + u16_be(self.port) + u32_be(self.token)
    }

    open spec fn can_encode(&self, client_version: ClientVersion, to_client: bool) -> bool {
        true
    }

    open spec fn decode_error(client_version: ClientVersion, from_client: bool, s: Seq<u8>) -> Option<ProtocolError> {
        if s.len() < 10 {
            Some(ProtocolError::UnexpectedEof)
        } else {
            None
        }
    }

    open spec fn decodes_to(client_version: ClientVersion, from_client: bool, s: Seq<u8>, p: Self) -> bool {
        &&& p.ip == be_u32(s, 0)
        &&& p.port == be_u16(s, 4)
        &&& p.token == be_u32(s, 6)
    }

    open spec fn roundtrips(&self, client_version: ClientVersion, to_client: bool) -> bool {
        true
    }

    fn packet_kind() -> (r: u8) {
        0x8c
    }

    fn fixed_length(client_version: ClientVersion) -> (r: Option<usize>) {
        Some(11)
    }

    fn decode(client_version: ClientVersion, from_client: bool, payload: &[u8]) -> (r: Result<Self, ProtocolError>) {
        let ghost s = payload@;
        let mut payload = payload;
        let ip = payload.read_u32()?;
        assert(payload@ =~= s.skip(4));
        let port = payload.read_u16()?;
        assert(payload@ =~= s.skip(6));
        let token = payload.read_u32()?;
        assert(payload@ =~= s.skip(10));
        Ok(SwitchServer { ip, port, token })
    }

    fn encode(&self, client_version: ClientVersion, to_client: bool, writer: &mut Vec<u8>) -> (r: Result<(), ProtocolError>) {
        writer.write_u32(self.ip);
        writer.write_u16(self.port);
        writer.write_u32(self.token);
        assert(writer@ =~= old(writer)@ + self.wire(client_version, to_client));
        Ok(())
    }

    proof fn lemma_roundtrip(&self, client_version: ClientVersion, to_client: bool) {
        let w = self.wire(client_version, to_client);
        assert(w.subrange(0, 4) =~= u32_be(self.ip));
        lemma_be_u32_roundtrip(self.ip, w, 0);
        assert(w.subrange(4, 6) =~= u16_be(self.port));
        lemma_be_u16_roundtrip(self.port, w, 4);
        assert(w.subrange(6, 10) =~= u32_be(self.token));
        lemma_be_u32_roundtrip(self.token, w, 6);
    }
}

/// The first packet sent to a game server.
#[derive(Debug, Clone)]
pub struct GameServerLogin {
    pub token: u32,
    pub username: String,
    pub password: String,
}

impl Packet for GameServerLogin {
    open spec fn spec_packet_kind() -> u8 {
        0x91
    }

    open spec fn spec_fixed_length(client_version: ClientVersion) -> Option<usize> {
        Some(65)
    }

    open spec fn wire(&self, client_version: ClientVersion, to_client: bool) -> Seq<u8> {
        u32_be(self.token) + str_block_bytes(encode_utf8(self.username@), 30) + str_block_bytes(encode_utf8(self.password@), 30)
    }

    open spec fn can_encode(&self, client_version: ClientVersion, to_client: bool) -> bool {
        true
    }

    open spec fn decode_error(client_version: ClientVersion, from_client: bool, s: Seq<u8>) -> Option<ProtocolError> {
        if s.len() < 34 {
            Some(ProtocolError::UnexpectedEof)
        } else if str_block_text(s.subrange(4, 34)) is None {
            Some(ProtocolError::InvalidUtf8)
        } else if s.len() < 64 {
            Some(ProtocolError::UnexpectedEof)
        } else if str_block_text(s.subrange(34, 64)) is None {
            Some(ProtocolError::InvalidUtf8)
        } else if s.len() < 64 {
            Some(ProtocolError::UnexpectedEof)
        } else {
            None
        }
    }

    open spec fn decodes_to(client_version: ClientVersion, from_client: bool, s: Seq<u8>, p: Self) -> bool {
        &&& p.token == be_u32(s, 0)
        &&& Some(p.username@) == str_block_text(s.subrange(4, 34))
        &&& Some(p.password@) == str_block_text(s.subrange(34, 64))
    }

    open spec fn roundtrips(&self, client_version: ClientVersion, to_client: bool) -> bool {
        fits_str_block(self.username@, 30) && fits_str_block(self.password@, 30)
    }

    fn packet_kind() -> (r: u8) {
        0x91
    }

    fn fixed_length(client_version: ClientVersion) -> (r: Option<usize>) {
        Some(65)
    }

    fn decode(client_version: ClientVersion, from_client: bool, payload: &[u8]) -> (r: Result<Self, ProtocolError>) {
        let ghost s = payload@;
        let mut payload = payload;
        let token = payload.read_u32()?;
        assert(payload@ =~= s.skip(4));
        proof {
            if payload@.len() >= 30 {
                assert(payload@.take(30) =~= s.subrange(4, 34));
            }
        }
        let username = payload.read_str_block(30)?;
        assert(payload@ =~= s.skip(34));
        proof {
            if payload@.len() >= 30 {
                assert(payload@.take(30) =~= s.subrange(34, 64));
            }
        }
        let password = payload.read_str_block(30)?;
        assert(payload@ =~= s.skip(64));
        Ok(GameServerLogin { token, username, password })
    }

    fn encode(&self, client_version: ClientVersion, to_client: bool, writer: &mut Vec<u8>) -> (r: Result<(), ProtocolError>) {
        writer.write_u32(self.token);
        writer.write_str_block(self.username.as_str(), 30);
        writer.write_str_block(self.password.as_str(), 30);
        assert(writer@ =~= old(writer)@ + self.wire(client_version, to_client));
        Ok(())
    }

    proof fn lemma_roundtrip(&self, client_version: ClientVersion, to_client: bool) {
        let w = self.wire(client_version, to_client);
        assert(w.subrange(0, 4) =~= u32_be(self.token));
        lemma_be_u32_roundtrip(self.token, w, 0);
        assert(w.subrange(4, 34) =~= str_block_bytes(encode_utf8(self.username@), 30));
        lemma_str_block_roundtrip(self.username@, 30);
        assert(w.subrange(4, 34) == str_block_bytes(encode_utf8(self.username@), 30));
        assert(w.subrange(34, 64) =~= str_block_bytes(encode_utf8(self.password@), 30));
        lemma_str_block_roundtrip(self.password@, 30);
        assert(w.subrange(34, 64) == str_block_bytes(encode_utf8(self.password@), 30));
    }
}

/// Deletes a character from the account.
#[derive(Debug, Clone)]
pub struct DeleteCharacter {
    pub character_index: u32,
    pub ip: u32,
}

impl Packet for DeleteCharacter {
    open spec fn spec_packet_kind() -> u8 {
        0x83
    }

    open spec fn spec_fixed_length(client_version: ClientVersion) -> Option<usize> {
        Some(39)
    }

    open spec fn wire(&self, client_version: ClientVersion, to_client: bool) -> Seq<u8> {
        zeros(30) + u32_be(self.character_index) + u32_be(self.ip)
    }

    open spec fn can_encode(&self, client_version: ClientVersion, to_client: bool) -> bool {
        true
    }

    open spec fn decode_error(client_version: ClientVersion, from_client: bool, s: Seq<u8>) -> Option<ProtocolError> {
        if s.len() < 38 {
            Some(ProtocolError::UnexpectedEof)
        } else {
            None
        }
    }

    open spec fn decodes_to(client_version: ClientVersion, from_client: bool, s: Seq<u8>, p: Self) -> bool {
        &&& p.character_index == be_u32(s, 30)
        &&& p.ip == be_u32(s, 34)
    }

    open spec fn roundtrips(&self, client_version: ClientVersion, to_client: bool) -> bool {
        true
    }

    fn packet_kind() -> (r: u8) {
        0x83
    }

    fn fixed_length(client_version: ClientVersion) -> (r: Option<usize>) {
        Some(39)
    }

    fn decode(client_version: ClientVersion, from_client: bool, payload: &[u8]) -> (r: Result<Self, ProtocolError>) {
        let ghost s = payload@;
        let mut payload = payload;
        payload.skip(30)?;
        assert(payload@ =~= s.skip(30));
        let character_index = payload.read_u32()?;
        assert(payload@ =~= s.skip(34));
        let ip = payload.read_u32()?;
        assert(payload@ =~= s.skip(38));
        Ok(DeleteCharacter { character_index, ip })
    }

    fn encode(&self, client_version: ClientVersion, to_client: bool, writer: &mut Vec<u8>) -> (r: Result<(), ProtocolError>) {
        writer.write_zeros(30);
        writer.write_u32(self.character_index);
        writer.write_u32(self.ip);
        assert(writer@ =~= old(writer)@ + self.wire(client_version, to_client));
        Ok(())
    }

    proof fn lemma_roundtrip(&self, client_version: ClientVersion, to_client: bool) {
        let w = self.wire(client_version, to_client);
        assert(w.subrange(30, 34) =~= u32_be(self.character_index));
        lemma_be_u32_roundtrip(self.character_index, w, 30);
        assert(w.subrange(34, 38) =~= u32_be(self.ip));
        lemma_be_u32_roundtrip(self.ip, w, 34);
    }
}

/// Enters the world with a character from the list.
#[derive(Debug, Clone)]
pub struct SelectCharacter {
    pub client_flags: ClientFlags,
    pub character_index: u32,
    pub name: String,
    pub ip: u32,
}

impl Packet for SelectCharacter {
    open spec fn spec_packet_kind() -> u8 {
        0x5d
    }

    open spec fn spec_fixed_length(client_version: ClientVersion) -> Option<usize> {
        Some(73)
    }

    open spec fn wire(&self, client_version: ClientVersion, to_client: bool) -> Seq<u8> {
        u32_be(0xedededed) + str_block_bytes(encode_utf8(self.name@), 30) + zeros(2) + u32_be(self.client_flags@) + zeros(24) + u32_be(self.character_index) + u32_be(self.ip)
    }

    open spec fn can_encode(&self, client_version: ClientVersion, to_client: bool) -> bool {
        true
    }

    open spec fn decode_error(client_version: ClientVersion, from_client: bool, s: Seq<u8>) -> Option<ProtocolError> {
        if s.len() < 4 {
            Some(ProtocolError::UnexpectedEof)
        } else if be_u32(s, 0) != 0xedededed {
            Some(ProtocolError::InvalidValue)
        } else if s.len() < 34 {
            Some(ProtocolError::UnexpectedEof)
        } else if str_block_text(s.subrange(4, 34)) is None {
            Some(ProtocolError::InvalidUtf8)
        } else if s.len() < 72 {
            Some(ProtocolError::UnexpectedEof)
        } else {
            None
        }
    }

    open spec fn decodes_to(client_version: ClientVersion, from_client: bool, s: Seq<u8>, p: Self) -> bool {
        &&& Some(p.name@) == str_block_text(s.subrange(4, 34))
        &&& p.client_flags@ == (be_u32(s, 36) & ClientFlags::spec_all())
        &&& p.character_index == be_u32(s, 64)
        &&& p.ip == be_u32(s, 68)
    }

    open spec fn roundtrips(&self, client_version: ClientVersion, to_client: bool) -> bool {
        fits_str_block(self.name@, 30) && self.client_flags.spec_is_truncated()
    }

    fn packet_kind() -> (r: u8) {
        0x5d
    }

    fn fixed_length(client_version: ClientVersion) -> (r: Option<usize>) {
        Some(73)
    }

    fn decode(client_version: ClientVersion, from_client: bool, payload: &[u8]) -> (r: Result<Self, ProtocolError>) {
        let ghost s = payload@;
        let mut payload = payload;
        if payload.read_u32()? != 0xedededed {
            return Err(ProtocolError::InvalidValue);
        }
        assert(payload@ =~= s.skip(4));
        proof {
            if payload@.len() >= 30 {
                assert(payload@.take(30) =~= s.subrange(4, 34));
            }
        }
        let name = payload.read_str_block(30)?;
        assert(payload@ =~= s.skip(34));
        payload.skip(2)?;
        assert(payload@ =~= s.skip(36));
        let client_flags = ClientFlags::from_bits_truncate(payload.read_u32()?);
        assert(payload@ =~= s.skip(40));
        payload.skip(24)?;
        assert(payload@ =~= s.skip(64));
        let character_index = payload.read_u32()?;
        assert(payload@ =~= s.skip(68));
        let ip = payload.read_u32()?;
        assert(payload@ =~= s.skip(72));
        Ok(SelectCharacter { client_flags, character_index, name, ip })
    }

    fn encode(&self, client_version: ClientVersion, to_client: bool, writer: &mut Vec<u8>) -> (r: Result<(), ProtocolError>) {
        writer.write_u32(0xedededed);
        writer.write_str_block(self.name.as_str(), 30);
        writer.write_zeros(2);
        writer.write_u32(self.client_flags.bits());
        writer.write_zeros(24);
        writer.write_u32(self.character_index);
        writer.write_u32(self.ip);
        assert(writer@ =~= old(writer)@ + self.wire(client_version, to_client));
        Ok(())
    }

    proof fn lemma_roundtrip(&self, client_version: ClientVersion, to_client: bool) {
        let w = self.wire(client_version, to_client);
        assert(w.subrange(0, 4) =~= u32_be(0xedededed));
        lemma_be_u32_roundtrip(0xedededed, w, 0);
        assert(w.subrange(4, 34) =~= str_block_bytes(encode_utf8(self.name@), 30));
        lemma_str_block_roundtrip(self.name@, 30);
        assert(w.subrange(4, 34) == str_block_bytes(encode_utf8(self.name@), 30));
        assert(w.subrange(36, 40) =~= u32_be(self.client_flags@));
        lemma_be_u32_roundtrip(self.client_flags@, w, 36);
        assert(w.subrange(64, 68) =~= u32_be(self.character_index));
        lemma_be_u32_roundtrip(self.character_index, w, 64);
        assert(w.subrange(68, 72) =~= u32_be(self.ip));
        lemma_be_u32_roundtrip(self.ip, w, 68);
    }
}

/// The start of entering the world: the player's mobile and the map size.
#[derive(Debug, Clone, Default)]
pub struct BeginEnterWorld {
    pub mobile_id: u32,
    pub body: u16,
    pub position: UVec3,
    pub direction: Direction,
    pub map_width: u16,
    pub map_height: u16,
}

impl Packet for BeginEnterWorld {
    open spec fn spec_packet_kind() -> u8 {
        0x1b
    }

    open spec fn spec_fixed_length(client_version: ClientVersion) -> Option<usize> {
        Some(37)
    }

    open spec fn wire(&self, client_version: ClientVersion, to_client: bool) -> Seq<u8> {
        u32_be(self.mobile_id) + zeros(4) + u16_be(self.body) + u16_be(self.position.x as u16) + u16_be(self.position.y as u16) + u16_be(self.position.z as u16) + seq![self.direction.spec_repr()] + seq![0u8] + u32_be(0xffffffff) + u32_be(0) + u16_be(self.map_width) + u16_be(self.map_height) + zeros(6)
    }

    open spec fn can_encode(&self, client_version: ClientVersion, to_client: bool) -> bool {
        true
    }

    open spec fn decode_error(client_version: ClientVersion, from_client: bool, s: Seq<u8>) -> Option<ProtocolError> {
        if s.len() < 17 {
            Some(ProtocolError::UnexpectedEof)
        } else if Direction::spec_from_repr(s[16]) is None {
            Some(ProtocolError::InvalidValue)
        } else if s.len() < 30 {
            Some(ProtocolError::UnexpectedEof)
        } else {
            None
        }
    }

    open spec fn decodes_to(client_version: ClientVersion, from_client: bool, s: Seq<u8>, p: Self) -> bool {
        &&& p.mobile_id == be_u32(s, 0)
        &&& p.body == be_u16(s, 8)
        &&& p.position.x == be_u16(s, 10) as u32
        &&& p.position.y == be_u16(s, 12) as u32
        &&& p.position.z == be_u16(s, 14) as u32
        &&& Some(p.direction) == Direction::spec_from_repr(s[16])
        &&& p.map_width == be_u16(s, 26)
        &&& p.map_height == be_u16(s, 28)
    }

    open spec fn roundtrips(&self, client_version: ClientVersion, to_client: bool) -> bool {
        self.position.x <= 0xffff && self.position.y <= 0xffff && self.position.z <= 0xffff
    }

    fn packet_kind() -> (r: u8) {
        0x1b
    }

    fn fixed_length(client_version: ClientVersion) -> (r: Option<usize>) {
        Some(37)
    }

    fn decode(client_version: ClientVersion, from_client: bool, payload: &[u8]) -> (r: Result<Self, ProtocolError>) {
        let ghost s = payload@;
        let mut payload = payload;
        let mobile_id = payload.read_u32()?;
        assert(payload@ =~= s.skip(4));
        payload.skip(4)?;
        assert(payload@ =~= s.skip(8));
        let body = payload.read_u16()?;
        assert(payload@ =~= s.skip(10));
        let x = payload.read_u16()? as u32;
        assert(payload@ =~= s.skip(12));
        let y = payload.read_u16()? as u32;
        assert(payload@ =~= s.skip(14));
        let z = payload.read_u16()? as u32;
        assert(payload@ =~= s.skip(16));
        let direction = payload.read_direction()?;
        assert(payload@ =~= s.skip(17));
        payload.skip(9)?;
        assert(payload@ =~= s.skip(26));
        let map_width = payload.read_u16()?;
        assert(payload@ =~= s.skip(28));
        let map_height = payload.read_u16()?;
        assert(payload@ =~= s.skip(30));
        Ok(BeginEnterWorld { mobile_id, body, position: UVec3::new(x, y, z), direction, map_width, map_height })
    }

    fn encode(&self, client_version: ClientVersion, to_client: bool, writer: &mut Vec<u8>) -> (r: Result<(), ProtocolError>) {
        writer.write_u32(self.mobile_id);
        writer.write_zeros(4);
        writer.write_u16(self.body);
        writer.write_u16(self.position.x as u16);
        writer.write_u16(self.position.y as u16);
        writer.write_u16(self.position.z as u16);
        writer.write_direction(self.direction);
        writer.write_u8(0);
        writer.write_u32(0xffffffff);
        writer.write_u32(0);
        writer.write_u16(self.map_width);
        writer.write_u16(self.map_height);
        writer.write_zeros(6);
        assert(writer@ =~= old(writer)@ + self.wire(client_version, to_client));
        Ok(())
    }

    proof fn lemma_roundtrip(&self, client_version: ClientVersion, to_client: bool) {
        let w = self.wire(client_version, to_client);
        assert(w.subrange(0, 4) =~= u32_be(self.mobile_id));
        lemma_be_u32_roundtrip(self.mobile_id, w, 0);
        assert(w.subrange(8, 10) =~= u16_be(self.body));
        lemma_be_u16_roundtrip(self.body, w, 8);
        assert(w.subrange(10, 12) =~= u16_be(self.position.x as u16));
        lemma_be_u16_roundtrip(self.position.x as u16, w, 10);
        assert(w.subrange(12, 14) =~= u16_be(self.position.y as u16));
        lemma_be_u16_roundtrip(self.position.y as u16, w, 12);
        assert(w.subrange(14, 16) =~= u16_be(self.position.z as u16));
        lemma_be_u16_roundtrip(self.position.z as u16, w, 14);
        assert(w.subrange(16, 17) =~= seq![self.direction.spec_repr()]);
        assert(w.subrange(26, 28) =~= u16_be(self.map_width));
        lemma_be_u16_roundtrip(self.map_width, w, 26);
        assert(w.subrange(28, 30) =~= u16_be(self.map_height));
        lemma_be_u16_roundtrip(self.map_height, w, 28);
    }
}

/// The end of entering the world.
#[derive(Debug, Clone, Default)]
pub struct EndEnterWorld;

impl Packet for EndEnterWorld {
    open spec fn spec_packet_kind() -> u8 {
        0x55
    }

    open spec fn spec_fixed_length(client_version: ClientVersion) -> Option<usize> {
        Some(1)
    }

    open spec fn wire(&self, client_version: ClientVersion, to_client: bool) -> Seq<u8> {
        Seq::<u8>::empty()
    }

    open spec fn can_encode(&self, client_version: ClientVersion, to_client: bool) -> bool {
        true
    }

    open spec fn decode_error(client_version: ClientVersion, from_client: bool, s: Seq<u8>) -> Option<ProtocolError> {
        if s.len() < 0 {
            Some(ProtocolError::UnexpectedEof)
        } else {
            None
        }
    }

    open spec fn decodes_to(client_version: ClientVersion, from_client: bool, s: Seq<u8>, p: Self) -> bool {
        true
    }

    open spec fn roundtrips(&self, client_version: ClientVersion, to_client: bool) -> bool {
        true
    }

    fn packet_kind() -> (r: u8) {
        0x55
    }

    fn fixed_length(client_version: ClientVersion) -> (r: Option<usize>) {
        Some(1)
    }

    fn decode(client_version: ClientVersion, from_client: bool, payload: &[u8]) -> (r: Result<Self, ProtocolError>) {
        let ghost s = payload@;
        let mut payload = payload;
        Ok(EndEnterWorld)
    }

    fn encode(&self, client_version: ClientVersion, to_client: bool, writer: &mut Vec<u8>) -> (r: Result<(), ProtocolError>) {
        assert(writer@ =~= old(writer)@ + self.wire(client_version, to_client));
        Ok(())
    }

    proof fn lemma_roundtrip(&self, client_version: ClientVersion, to_client: bool) {
        let w = self.wire(client_version, to_client);

    }
}

/// Whether public houses are shown.
#[derive(Debug, Clone)]
pub struct ShowPublicHouses {
    pub show: bool,
}

impl Packet for ShowPublicHouses {
    open spec fn spec_packet_kind() -> u8 {
        0xfb
    }

    open spec fn spec_fixed_length(client_version: ClientVersion) -> Option<usize> {
        Some(2)
    }

    open spec fn wire(&self, client_version: ClientVersion, to_client: bool) -> Seq<u8> {
        seq![if self.show { 1u8 } else { 0u8 }]
    }

    open spec fn can_encode(&self, client_version: ClientVersion, to_client: bool) -> bool {
        true
    }

    open spec fn decode_error(client_version: ClientVersion, from_client: bool, s: Seq<u8>) -> Option<ProtocolError> {
        if s.len() < 1 {
            Some(ProtocolError::UnexpectedEof)
        } else {
            None
        }
    }

    open spec fn decodes_to(client_version: ClientVersion, from_client: bool, s: Seq<u8>, p: Self) -> bool {
        &&& p.show == (s[0] != 0)
    }

    open spec fn roundtrips(&self, client_version: ClientVersion, to_client: bool) -> bool {
        true
    }

    fn packet_kind() -> (r: u8) {
        0xfb
    }

    fn fixed_length(client_version: ClientVersion) -> (r: Option<usize>) {
        Some(2)
    }

    fn decode(client_version: ClientVersion, from_client: bool, payload: &[u8]) -> (r: Result<Self, ProtocolError>) {
        let ghost s = payload@;
        let mut payload = payload;
        let show = payload.read_u8()? != 0;
        assert(payload@ =~= s.skip(1));
        Ok(ShowPublicHouses { show })
    }

    fn encode(&self, client_version: ClientVersion, to_client: bool, writer: &mut Vec<u8>) -> (r: Result<(), ProtocolError>) {
        writer.write_u8(if self.show { 1 } else { 0 });
        assert(writer@ =~= old(writer)@ + self.wire(client_version, to_client));
        Ok(())
    }

    proof fn lemma_roundtrip(&self, client_version: ClientVersion, to_client: bool) {
        let w = self.wire(client_version, to_client);
        assert(w.subrange(0, 1) =~= seq![if self.show { 1u8 } else { 0u8 }]);
    }
}

/// A keep-alive.
#[derive(Debug, Clone)]
pub struct Ping;

impl Packet for Ping {
    open spec fn spec_packet_kind() -> u8 {
        0x73
    }

    open spec fn spec_fixed_length(client_version: ClientVersion) -> Option<usize> {
        Some(2)
    }

    open spec fn wire(&self, client_version: ClientVersion, to_client: bool) -> Seq<u8> {
        Seq::<u8>::empty()
    }

    open spec fn can_encode(&self, client_version: ClientVersion, to_client: bool) -> bool {
        true
    }

    open spec fn decode_error(client_version: ClientVersion, from_client: bool, s: Seq<u8>) -> Option<ProtocolError> {
        if s.len() < 0 {
            Some(ProtocolError::UnexpectedEof)
        } else {
            None
        }
    }

    open spec fn decodes_to(client_version: ClientVersion, from_client: bool, s: Seq<u8>, p: Self) -> bool {
        true
    }

    open spec fn roundtrips(&self, client_version: ClientVersion, to_client: bool) -> bool {
        true
    }

    fn packet_kind() -> (r: u8) {
        0x73
    }

    fn fixed_length(client_version: ClientVersion) -> (r: Option<usize>) {
        Some(2)
    }

    fn decode(client_version: ClientVersion, from_client: bool, payload: &[u8]) -> (r: Result<Self, ProtocolError>) {
        let ghost s = payload@;
        let mut payload = payload;
        Ok(Ping)
    }

    fn encode(&self, client_version: ClientVersion, to_client: bool, writer: &mut Vec<u8>) -> (r: Result<(), ProtocolError>) {
        assert(writer@ =~= old(writer)@ + self.wire(client_version, to_client));
        Ok(())
    }

    proof fn lemma_roundtrip(&self, client_version: ClientVersion, to_client: bool) {
        let w = self.wire(client_version, to_client);

    }
}

/// One entry of the server list.
#[derive(Debug, Clone, Default)]
pub struct GameServer {
    pub server_index: u16,
    pub server_name: String,
    pub load_percent: u8,
    pub timezone: u8,
    pub ip: u32,
}

impl GameServer {
    /// The 40 bytes of this entry.
    pub open spec fn wire(&self) -> Seq<u8> {
        u16_be(self.server_index) + str_block_bytes(encode_utf8(self.server_name@), 32) + seq![
            self.load_percent,
            self.timezone,
        ] + u32_be(self.ip)
    }

    pub open spec fn decode_error(s: Seq<u8>) -> Option<ProtocolError> {
        if s.len() < 34 {
            Some(ProtocolError::UnexpectedEof)
        } else if str_block_text(s.subrange(2, 34)) is None {
            Some(ProtocolError::InvalidUtf8)
        } else if s.len() < 40 {
            Some(ProtocolError::UnexpectedEof)
        } else {
            None
        }
    }

    pub open spec fn decodes_to(s: Seq<u8>, g: GameServer) -> bool {
        &&& g.server_index == be_u16(s, 0)
        &&& Some(g.server_name@) == str_block_text(s.subrange(2, 34))
        &&& g.load_percent == s[34]
        &&& g.timezone == s[35]
        &&& g.ip == be_u32(s, 36)
    }

    pub open spec fn roundtrips(&self) -> bool {
        fits_str_block(self.server_name@, 32)
    }

    fn decode_from(payload: &mut &[u8]) -> (r: Result<GameServer, ProtocolError>)
        ensures
            match r {
                Ok(g) => GameServer::decode_error(old(payload)@) is None && GameServer::decodes_to(
                    old(payload)@,
                    g,
                ) && final(payload)@ == old(payload)@.skip(40),
                Err(e) => GameServer::decode_error(old(payload)@) == Some(e),
            },
    {
        let ghost s = payload@;
        let server_index = payload.read_u16()?;
        assert(payload@ =~= s.skip(2));
        proof {
            if payload@.len() >= 32 {
                assert(payload@.take(32) =~= s.subrange(2, 34));
            }
        }
        let server_name = payload.read_str_block(32)?;
        assert(payload@ =~= s.skip(34));
        let load_percent = payload.read_u8()?;
        assert(payload@ =~= s.skip(35));
        let timezone = payload.read_u8()?;
        assert(payload@ =~= s.skip(36));
        let ip = payload.read_u32()?;
        assert(payload@ =~= s.skip(40));
        Ok(GameServer { server_index, server_name, load_percent, timezone, ip })
    }

    fn encode_to(&self, writer: &mut Vec<u8>)
        ensures
            final(writer)@ == old(writer)@ + self.wire(),
    {
        writer.write_u16(self.server_index);
        writer.write_str_block(self.server_name.as_str(), 32);
        writer.write_u8(self.load_percent);
        writer.write_u8(self.timezone);
        writer.write_u32(self.ip);
        assert(writer@ =~= old(writer)@ + self.wire());
    }

    proof fn lemma_roundtrip(&self, s: Seq<u8>)
        requires
            self.roundtrips(),
            s.take(40) == self.wire(),
            s.len() >= 40,
        ensures
            GameServer::decode_error(s) is None,
            GameServer::decodes_to(s, *self),
    {
        let w = self.wire();
        lemma_str_block_roundtrip(self.server_name@, 32);
        assert(s.take(40) == w);
        assert(w.len() == 40);
        assert(s.subrange(0, 2) =~= w.subrange(0, 2));
        assert(w.subrange(0, 2) =~= u16_be(self.server_index));
        lemma_be_u16_roundtrip(self.server_index, s, 0);
        assert(s.subrange(2, 34) =~= w.subrange(2, 34));
        assert(w.subrange(2, 34) =~= str_block_bytes(encode_utf8(self.server_name@), 32));
        assert(s.subrange(36, 40) =~= w.subrange(36, 40));
        assert(w.subrange(36, 40) =~= u32_be(self.ip));
        lemma_be_u32_roundtrip(self.ip, s, 36);
        assert(s[34] == w[34]);
        assert(s[35] == w[35]);
    }
}

/// The list of game servers offered after login.
#[derive(Debug, Clone, Default)]
pub struct ServerList {
    pub system_info_flags: u8,
    pub game_servers: Vec<GameServer>,
}

impl ServerList {
    /// The error of entry `k`, which starts at `3 + 40 * k`.
    pub open spec fn entry_error(s: Seq<u8>) -> spec_fn(int) -> Option<ProtocolError> {
        |k: int| GameServer::decode_error(s.skip(3 + 40 * k))
    }
}

impl Packet for ServerList {
    open spec fn spec_packet_kind() -> u8 {
        0xa8
    }

    open spec fn spec_fixed_length(client_version: ClientVersion) -> Option<usize> {
        None
    }

    open spec fn wire(&self, client_version: ClientVersion, to_client: bool) -> Seq<u8> {
        seq![self.system_info_flags] + u16_be(self.game_servers@.len() as u16) + concat_map(
            self.game_servers@,
            |g: GameServer| g.wire(),
        )
    }

    open spec fn can_encode(&self, client_version: ClientVersion, to_client: bool) -> bool {
        true
    }

    open spec fn decode_error(client_version: ClientVersion, from_client: bool, s: Seq<u8>) -> Option<ProtocolError> {
        if s.len() < 3 {
            Some(ProtocolError::UnexpectedEof)
        } else {
            first_error(be_u16(s, 1) as int, 0, ServerList::entry_error(s))
        }
    }

    open spec fn decodes_to(client_version: ClientVersion, from_client: bool, s: Seq<u8>, p: Self) -> bool {
        &&& p.system_info_flags == s[0]
        &&& p.game_servers@.len() == be_u16(s, 1)
        &&& forall|k: int|
            0 <= k < p.game_servers@.len() ==> GameServer::decodes_to(
                s.skip(3 + 40 * k),
                #[trigger] p.game_servers@[k],
            )
    }

    open spec fn roundtrips(&self, client_version: ClientVersion, to_client: bool) -> bool {
        &&& self.game_servers@.len() <= 0xffff
        &&& forall|k: int| 0 <= k < self.game_servers@.len() ==> #[trigger] self.game_servers@[k].roundtrips()
    }

    fn packet_kind() -> (r: u8) {
        0xa8
    }

    fn fixed_length(client_version: ClientVersion) -> (r: Option<usize>) {
        None
    }

    fn decode(client_version: ClientVersion, from_client: bool, payload: &[u8]) -> (r: Result<Self, ProtocolError>) {
        let ghost s = payload@;
        let mut rest = payload;
        let system_info_flags = rest.read_u8()?;
        let count = match rest.read_u16() {
            Ok(c) => c as usize,
            Err(e) => return Err(e),
        };
        assert(rest@ =~= s.skip(3));
        let ghost err = ServerList::entry_error(s);
        let mut game_servers: Vec<GameServer> = Vec::new();
        let mut k: usize = 0;
        while k < count
            invariant
                count == be_u16(s, 1),
                s.len() >= 3,
                k <= count,
                err == ServerList::entry_error(s),
                s == payload@,
                rest@ == s.skip(3 + 40 * k),
                3 + 40 * k <= s.len(),
                first_error(count as int, 0, err) == first_error(count as int, k as int, err),
                game_servers@.len() == k,
                forall|j: int| 0 <= j < k ==> GameServer::decodes_to(
                    s.skip(3 + 40 * j),
                    #[trigger] game_servers@[j],
                ),
            decreases count - k,
        {
            let g = match GameServer::decode_from(&mut rest) {
                Ok(g) => g,
                Err(e) => {
                    assert(err(k as int) == Some(e));
                    assert(first_error(count as int, k as int, err) == Some(e));
                    assert(ServerList::decode_error(client_version, from_client, s) == Some(e));
                    return Err(e);
                },
            };
            assert(err(k as int) is None);
            game_servers.push(g);
            assert(rest@ =~= s.skip(3 + 40 * (k + 1)));
            k = k + 1;
        }
        Ok(ServerList { system_info_flags, game_servers })
    }

    fn encode(&self, client_version: ClientVersion, to_client: bool, writer: &mut Vec<u8>) -> (r: Result<(), ProtocolError>) {
        writer.write_u8(self.system_info_flags);
        writer.write_u16(self.game_servers.len() as u16);
        let ghost head = writer@;
        let ghost f = |g: GameServer| g.wire();
        let mut k: usize = 0;
        while k < self.game_servers.len()
            invariant
                k <= self.game_servers@.len(),
                f == (|g: GameServer| g.wire()),
                writer@ == head + concat_map(self.game_servers@.take(k as int), f),
            decreases self.game_servers@.len() - k,
        {
            self.game_servers[k].encode_to(writer);
            assert(self.game_servers@.take(k + 1).drop_last() =~= self.game_servers@.take(k as int));
            k = k + 1;
        }
        assert(self.game_servers@.take(k as int) =~= self.game_servers@);
        assert(writer@ =~= old(writer)@ + self.wire(client_version, to_client));
        Ok(())
    }

    proof fn lemma_roundtrip(&self, client_version: ClientVersion, to_client: bool) {
        let w = self.wire(client_version, to_client);
        let items = self.game_servers@;
        let f = |g: GameServer| g.wire();
        let n = items.len();
        assert forall|i: int| 0 <= i < items.len() implies #[trigger] f(items[i]).len() == 40 by {
            lemma_str_block_len(encode_utf8(items[i].server_name@), 32);
        }
        lemma_concat_map_fixed(items, f, 40);
        assert(w.subrange(1, 3) =~= u16_be(n as u16));
        lemma_be_u16_roundtrip(n as u16, w, 1);
        let err = ServerList::entry_error(w);
        assert forall|k: int| 0 <= k < n implies GameServer::decode_error(w.skip(3 + 40 * k)) is None && GameServer::decodes_to(
            w.skip(3 + 40 * k),
            #[trigger] items[k],
        ) by {
            let t = w.skip(3 + 40 * k);
            assert(concat_map(items, f).subrange(40 * k, 40 * k + 40) == f(items[k]));
            assert(t.take(40) =~= items[k].wire());
            items[k].lemma_roundtrip(t);
        }
        assert forall|k: int| 0 <= k < n implies #[trigger] err(k) is None by {
            assert(GameServer::decodes_to(w.skip(3 + 40 * k), items[k]));
            assert(err(k) == GameServer::decode_error(w.skip(3 + 40 * k)));
        }
        lemma_first_error_none(n as int, 0, err);
    }
}

/// A character slot of the character list.
#[derive(Debug, Clone, Default)]
pub struct CharacterFromList {
    pub name: String,
    pub password: String,
}

impl CharacterFromList {
    /// The 60 bytes of this entry.
    pub open spec fn wire(&self) -> Seq<u8> {
        str_block_bytes(encode_utf8(self.name@), 30) + str_block_bytes(encode_utf8(self.password@), 30)
    }

    pub open spec fn decode_error(s: Seq<u8>) -> Option<ProtocolError> {
        if s.len() < 30 {
            Some(ProtocolError::UnexpectedEof)
        } else if str_block_text(s.subrange(0, 30)) is None {
            Some(ProtocolError::InvalidUtf8)
        } else if s.len() < 60 {
            Some(ProtocolError::UnexpectedEof)
        } else if str_block_text(s.subrange(30, 60)) is None {
            Some(ProtocolError::InvalidUtf8)
        } else if s.len() < 60 {
            Some(ProtocolError::UnexpectedEof)
        } else {
            None
        }
    }

    pub open spec fn decodes_to(s: Seq<u8>, p: CharacterFromList) -> bool {
        &&& Some(p.name@) == str_block_text(s.subrange(0, 30))
        &&& Some(p.password@) == str_block_text(s.subrange(30, 60))
    }

    pub open spec fn roundtrips(&self) -> bool {
        fits_str_block(self.name@, 30) && fits_str_block(self.password@, 30)
    }

    fn decode_from(payload: &mut &[u8]) -> (r: Result<CharacterFromList, ProtocolError>)
        ensures
            match r {
                Ok(p) => CharacterFromList::decode_error(old(payload)@) is None && CharacterFromList::decodes_to(old(payload)@, p)
                    && final(payload)@ == old(payload)@.skip(60),
                Err(e) => CharacterFromList::decode_error(old(payload)@) == Some(e),
            },
    {
        let ghost s = payload@;
        proof {
            if payload@.len() >= 30 {
                assert(payload@.take(30) =~= s.subrange(0, 30));
            }
        }
        let name = payload.read_str_block(30)?;
        assert(payload@ =~= s.skip(30));
        proof {
            if payload@.len() >= 30 {
                assert(payload@.take(30) =~= s.subrange(30, 60));
            }
        }
        let password = payload.read_str_block(30)?;
        assert(payload@ =~= s.skip(60));
        Ok(CharacterFromList { name, password })
    }

    fn encode_to(&self, writer: &mut Vec<u8>)
        ensures
            final(writer)@ == old(writer)@ + self.wire(),
    {
        writer.write_str_block(self.name.as_str(), 30);
        writer.write_str_block(self.password.as_str(), 30);
        assert(writer@ =~= old(writer)@ + self.wire());
    }

    proof fn lemma_wire_len(&self)
        ensures
            self.wire().len() == 60,
    {
        lemma_str_block_len(encode_utf8(self.name@), 30);
        lemma_str_block_len(encode_utf8(self.password@), 30);
    }

    proof fn lemma_roundtrip(&self, s: Seq<u8>)
        requires
            self.roundtrips(),
            s.len() >= 60,
            s.take(60) == self.wire(),
        ensures
            CharacterFromList::decode_error(s) is None,
            CharacterFromList::decodes_to(s, *self),
    {
        let w = self.wire();
        lemma_str_block_len(encode_utf8(self.name@), 30);
        lemma_str_block_len(encode_utf8(self.password@), 30);
        assert(w.len() == 60);
        assert forall|j: int| 0 <= j < 60 implies s[j] == w[j] by {
            assert(s.take(60)[j] == s[j]);
        }
        assert(w.subrange(0, 30) =~= str_block_bytes(encode_utf8(self.name@), 30));
        lemma_str_block_roundtrip(self.name@, 30);
        assert(w.subrange(0, 30) == str_block_bytes(encode_utf8(self.name@), 30));
        assert(w.subrange(30, 60) =~= str_block_bytes(encode_utf8(self.password@), 30));
        lemma_str_block_roundtrip(self.password@, 30);
        assert(w.subrange(30, 60) == str_block_bytes(encode_utf8(self.password@), 30));
        assert(s.subrange(0, 30) =~= w.subrange(0, 30));
        assert(s.subrange(30, 60) =~= w.subrange(30, 60));
    }
}

/// A starting city offered for new characters.
#[derive(Debug, Clone, Default)]
pub struct StartingCity {
    pub index: u8,
    pub city: String,
    pub building: String,
    pub location: UVec3,
    pub map_id: u32,
    pub description_id: u32,
}

impl StartingCity {
    /// The 89 bytes of this entry in the layout of clients from 7.0.13.0 on.
    pub open spec fn wire_new(&self) -> Seq<u8> {
        seq![self.index] + str_block_bytes(encode_utf8(self.city@), 32) + str_block_bytes(encode_utf8(self.building@), 32) + u32_be(self.location.x) + u32_be(self.location.y) + u32_be(self.location.z) + u32_be(self.map_id) + u32_be(self.description_id) + zeros(4)
    }

    pub open spec fn decode_error_new(s: Seq<u8>) -> Option<ProtocolError> {
        if s.len() < 33 {
            Some(ProtocolError::UnexpectedEof)
        } else if str_block_text(s.subrange(1, 33)) is None {
            Some(ProtocolError::InvalidUtf8)
        } else if s.len() < 65 {
            Some(ProtocolError::UnexpectedEof)
        } else if str_block_text(s.subrange(33, 65)) is None {
            Some(ProtocolError::InvalidUtf8)
        } else if s.len() < 89 {
            Some(ProtocolError::UnexpectedEof)
        } else {
            None
        }
    }

    pub open spec fn decodes_to_new(s: Seq<u8>, p: StartingCity) -> bool {
        &&& p.index == s[0]
        &&& Some(p.city@) == str_block_text(s.subrange(1, 33))
        &&& Some(p.building@) == str_block_text(s.subrange(33, 65))
        &&& p.location.x == be_u32(s, 65)
        &&& p.location.y == be_u32(s, 69)
        &&& p.location.z == be_u32(s, 73)
        &&& p.map_id == be_u32(s, 77)
        &&& p.description_id == be_u32(s, 81)
    }

    pub open spec fn roundtrips_new(&self) -> bool {
        fits_str_block(self.city@, 32) && fits_str_block(self.building@, 32)
    }

    fn decode_from_new(payload: &mut &[u8]) -> (r: Result<StartingCity, ProtocolError>)
        ensures
            match r {
                Ok(p) => StartingCity::decode_error_new(old(payload)@) is None && StartingCity::decodes_to_new(old(payload)@, p)
                    && final(payload)@ == old(payload)@.skip(89),
                Err(e) => StartingCity::decode_error_new(old(payload)@) == Some(e),
            },
    {
        let ghost s = payload@;
        let index = payload.read_u8()?;
        assert(payload@ =~= s.skip(1));
        proof {
            if payload@.len() >= 32 {
                assert(payload@.take(32) =~= s.subrange(1, 33));
            }
        }
        let city = payload.read_str_block(32)?;
        assert(payload@ =~= s.skip(33));
        proof {
            if payload@.len() >= 32 {
                assert(payload@.take(32) =~= s.subrange(33, 65));
            }
        }
        let building = payload.read_str_block(32)?;
        assert(payload@ =~= s.skip(65));
        let x = payload.read_u32()?;
        assert(payload@ =~= s.skip(69));
        let y = payload.read_u32()?;
        assert(payload@ =~= s.skip(73));
        let z = payload.read_u32()?;
        assert(payload@ =~= s.skip(77));
        let map_id = payload.read_u32()?;
        assert(payload@ =~= s.skip(81));
        let description_id = payload.read_u32()?;
        assert(payload@ =~= s.skip(85));
        payload.skip(4)?;
        assert(payload@ =~= s.skip(89));
        Ok(StartingCity { index, city, building, location: UVec3::new(x, y, z), map_id, description_id })
    }

    fn encode_to_new(&self, writer: &mut Vec<u8>)
        ensures
            final(writer)@ == old(writer)@ + self.wire_new(),
    {
        writer.write_u8(self.index);
        writer.write_str_block(self.city.as_str(), 32);
        writer.write_str_block(self.building.as_str(), 32);
        writer.write_u32(self.location.x);
        writer.write_u32(self.location.y);
        writer.write_u32(self.location.z);
        writer.write_u32(self.map_id);
        writer.write_u32(self.description_id);
        writer.write_zeros(4);
        assert(writer@ =~= old(writer)@ + self.wire_new());
    }

    proof fn lemma_wire_len_new(&self)
        ensures
            self.wire_new().len() == 89,
    {
        lemma_str_block_len(encode_utf8(self.city@), 32);
        lemma_str_block_len(encode_utf8(self.building@), 32);
    }

    proof fn lemma_roundtrip_new(&self, s: Seq<u8>)
        requires
            self.roundtrips_new(),
            s.len() >= 89,
            s.take(89) == self.wire_new(),
        ensures
            StartingCity::decode_error_new(s) is None,
            StartingCity::decodes_to_new(s, *self),
    {
        let w = self.wire_new();
        lemma_str_block_len(encode_utf8(self.city@), 32);
        lemma_str_block_len(encode_utf8(self.building@), 32);
        assert(w.len() == 89);
        assert forall|j: int| 0 <= j < 89 implies s[j] == w[j] by {
            assert(s.take(89)[j] == s[j]);
        }
        assert(w.subrange(0, 1) =~= seq![self.index]);
        assert(w.subrange(1, 33) =~= str_block_bytes(encode_utf8(self.city@), 32));
        lemma_str_block_roundtrip(self.city@, 32);
        assert(w.subrange(1, 33) == str_block_bytes(encode_utf8(self.city@), 32));
        assert(w.subrange(33, 65) =~= str_block_bytes(encode_utf8(self.building@), 32));
        lemma_str_block_roundtrip(self.building@, 32);
        assert(w.subrange(33, 65) == str_block_bytes(encode_utf8(self.building@), 32));
        assert(w.subrange(65, 69) =~= u32_be(self.location.x));
        lemma_be_u32_roundtrip(self.location.x, w, 65);
        assert(w.subrange(69, 73) =~= u32_be(self.location.y));
        lemma_be_u32_roundtrip(self.location.y, w, 69);
        assert(w.subrange(73, 77) =~= u32_be(self.location.z));
        lemma_be_u32_roundtrip(self.location.z, w, 73);
        assert(w.subrange(77, 81) =~= u32_be(self.map_id));
        lemma_be_u32_roundtrip(self.map_id, w, 77);
        assert(w.subrange(81, 85) =~= u32_be(self.description_id));
        lemma_be_u32_roundtrip(self.description_id, w, 81);
        assert(s.subrange(1, 33) =~= w.subrange(1, 33));
        assert(s.subrange(33, 65) =~= w.subrange(33, 65));
    }
}
impl StartingCity {
    /// The 63 bytes of this entry in the layout of older clients, which carries no location.
    pub open spec fn wire_old(&self) -> Seq<u8> {
        seq![self.index] + str_block_bytes(encode_utf8(self.city@), 31) + str_block_bytes(encode_utf8(self.building@), 31)
    }

    pub open spec fn decode_error_old(s: Seq<u8>) -> Option<ProtocolError> {
        if s.len() < 32 {
            Some(ProtocolError::UnexpectedEof)
        } else if str_block_text(s.subrange(1, 32)) is None {
            Some(ProtocolError::InvalidUtf8)
        } else if s.len() < 63 {
            Some(ProtocolError::UnexpectedEof)
        } else if str_block_text(s.subrange(32, 63)) is None {
            Some(ProtocolError::InvalidUtf8)
        } else if s.len() < 63 {
            Some(ProtocolError::UnexpectedEof)
        } else {
            None
        }
    }

    pub open spec fn decodes_to_old(s: Seq<u8>, p: StartingCity) -> bool {
        &&& p.index == s[0]
        &&& Some(p.city@) == str_block_text(s.subrange(1, 32))
        &&& Some(p.building@) == str_block_text(s.subrange(32, 63))
    }

    pub open spec fn roundtrips_old(&self) -> bool {
        (fits_str_block(self.city@, 31) && fits_str_block(self.building@, 31)) && self.location == UVec3 { x: 0, y: 0, z: 0 } && self.map_id == 0 && self.description_id == 0
    }

    fn decode_from_old(payload: &mut &[u8]) -> (r: Result<StartingCity, ProtocolError>)
        ensures
            match r {
                Ok(p) => StartingCity::decode_error_old(old(payload)@) is None && StartingCity::decodes_to_old(old(payload)@, p)
                    && final(payload)@ == old(payload)@.skip(63),
                Err(e) => StartingCity::decode_error_old(old(payload)@) == Some(e),
            },
    {
        let ghost s = payload@;
        let index = payload.read_u8()?;
        assert(payload@ =~= s.skip(1));
        proof {
            if payload@.len() >= 31 {
                assert(payload@.take(31) =~= s.subrange(1, 32));
            }
        }
        let city = payload.read_str_block(31)?;
        assert(payload@ =~= s.skip(32));
        proof {
            if payload@.len() >= 31 {
                assert(payload@.take(31) =~= s.subrange(32, 63));
            }
        }
        let building = payload.read_str_block(31)?;
        assert(payload@ =~= s.skip(63));
        Ok(StartingCity { index, city, building, location: UVec3::new(0, 0, 0), map_id: 0, description_id: 0 })
    }

    fn encode_to_old(&self, writer: &mut Vec<u8>)
        ensures
            final(writer)@ == old(writer)@ + self.wire_old(),
    {
        writer.write_u8(self.index);
        writer.write_str_block(self.city.as_str(), 31);
        writer.write_str_block(self.building.as_str(), 31);
        assert(writer@ =~= old(writer)@ + self.wire_old());
    }

    proof fn lemma_wire_len_old(&self)
        ensures
            self.wire_old().len() == 63,
    {
        lemma_str_block_len(encode_utf8(self.city@), 31);
        lemma_str_block_len(encode_utf8(self.building@), 31);
    }

    proof fn lemma_roundtrip_old(&self, s: Seq<u8>)
        requires
            self.roundtrips_old(),
            s.len() >= 63,
            s.take(63) == self.wire_old(),
        ensures
            StartingCity::decode_error_old(s) is None,
            StartingCity::decodes_to_old(s, *self),
    {
        let w = self.wire_old();
        lemma_str_block_len(encode_utf8(self.city@), 31);
        lemma_str_block_len(encode_utf8(self.building@), 31);
        assert(w.len() == 63);
        assert forall|j: int| 0 <= j < 63 implies s[j] == w[j] by {
            assert(s.take(63)[j] == s[j]);
        }
        assert(w.subrange(0, 1) =~= seq![self.index]);
        assert(w.subrange(1, 32) =~= str_block_bytes(encode_utf8(self.city@), 31));
        lemma_str_block_roundtrip(self.city@, 31);
        assert(w.subrange(1, 32) == str_block_bytes(encode_utf8(self.city@), 31));
        assert(w.subrange(32, 63) =~= str_block_bytes(encode_utf8(self.building@), 31));
        lemma_str_block_roundtrip(self.building@, 31);
        assert(w.subrange(32, 63) == str_block_bytes(encode_utf8(self.building@), 31));
        assert(s.subrange(1, 32) =~= w.subrange(1, 32));
        assert(s.subrange(32, 63) =~= w.subrange(32, 63));
    }
}

impl StartingCity {
    pub open spec fn wire(&self, new_layout: bool) -> Seq<u8> {
        if new_layout {
            self.wire_new()
        } else {
            self.wire_old()
        }
    }
}

/// The encoding of a character slot: an empty slot is all zeros.
pub open spec fn slot_wire(slot: Option<CharacterFromList>) -> Seq<u8> {
    match slot {
        Some(c) => c.wire(),
        None => zeros(60),
    }
}

/// A slot decodes to a character when its name is not empty.
pub open spec fn slot_decodes_to(s: Seq<u8>, slot: Option<CharacterFromList>) -> bool {
    match slot {
        Some(c) => CharacterFromList::decodes_to(s, c) && c.name@.len() > 0,
        None => str_block_text(s.subrange(0, 30)) == Some(Seq::<char>::empty()) && str_block_text(
            s.subrange(30, 60),
        ) is Some,
    }
}

pub open spec fn slot_roundtrips(slot: Option<CharacterFromList>) -> bool {
    match slot {
        Some(c) => c.roundtrips() && c.name@.len() > 0,
        None => true,
    }
}

/// The flags that end the character list, from the number of slots.
pub open spec fn character_list_flags(slots: nat) -> u32 {
    if slots == 1 {
        0x14
    } else if slots > 6 {
        0x1040
    } else if slots > 5 {
        0x40
    } else {
        0
    }
}

/// The list of an account's characters and of the starting cities.
#[derive(Debug, Clone, Default)]
pub struct CharacterList {
    pub characters: Vec<Option<CharacterFromList>>,
    pub cities: Vec<StartingCity>,
}

impl CharacterList {
    /// Clients from this version on use the longer city layout.
    pub open spec fn spec_new_character_list() -> ClientVersion {
        ClientVersion { major: 7, minor: 0, patch: 13, build: 0 }
    }

    pub open spec fn is_new_layout(client_version: ClientVersion) -> bool {
        client_version.spec_at_least(CharacterList::spec_new_character_list())
    }

    pub open spec fn city_size(new_layout: bool) -> int {
        if new_layout {
            89
        } else {
            63
        }
    }

    pub open spec fn city_error(new_layout: bool, s: Seq<u8>) -> Option<ProtocolError> {
        if new_layout {
            StartingCity::decode_error_new(s)
        } else {
            StartingCity::decode_error_old(s)
        }
    }

    pub open spec fn city_decodes_to(new_layout: bool, s: Seq<u8>, c: StartingCity) -> bool {
        if new_layout {
            StartingCity::decodes_to_new(s, c)
        } else {
            StartingCity::decodes_to_old(s, c)
        }
    }

    pub open spec fn slot_errors(s: Seq<u8>) -> spec_fn(int) -> Option<ProtocolError> {
        |k: int| CharacterFromList::decode_error(s.skip(1 + 60 * k))
    }

    /// Where the city count sits.
    pub open spec fn cities_at(s: Seq<u8>) -> int {
        1 + 60 * s[0]
    }

    pub open spec fn city_errors(new_layout: bool, s: Seq<u8>) -> spec_fn(int) -> Option<ProtocolError> {
        |k: int|
            CharacterList::city_error(
                new_layout,
                s.skip(CharacterList::cities_at(s) + 1 + CharacterList::city_size(new_layout) * k),
            )
    }

    fn decode_slot(payload: &mut &[u8]) -> (r: Result<Option<CharacterFromList>, ProtocolError>)
        ensures
            match r {
                Ok(slot) => CharacterFromList::decode_error(old(payload)@) is None && slot_decodes_to(
                    old(payload)@,
                    slot,
                ) && final(payload)@ == old(payload)@.skip(60),
                Err(e) => CharacterFromList::decode_error(old(payload)@) == Some(e),
            },
    {
        let c = CharacterFromList::decode_from(payload)?;
        if c.name.as_str().is_empty() {
            assert(c.name@ =~= Seq::<char>::empty());
            Ok(None)
        } else {
            Ok(Some(c))
        }
    }

    fn encode_slot(slot: &Option<CharacterFromList>, writer: &mut Vec<u8>)
        ensures
            final(writer)@ == old(writer)@ + slot_wire(*slot),
    {
        match slot {
            Some(c) => c.encode_to(writer),
            None => writer.write_zeros(60),
        }
    }

    fn decode_city(new_layout: bool, payload: &mut &[u8]) -> (r: Result<StartingCity, ProtocolError>)
        ensures
            match r {
                Ok(c) => CharacterList::city_error(new_layout, old(payload)@) is None
                    && CharacterList::city_decodes_to(new_layout, old(payload)@, c) && final(payload)@
                    == old(payload)@.skip(CharacterList::city_size(new_layout)),
                Err(e) => CharacterList::city_error(new_layout, old(payload)@) == Some(e),
            },
    {
        if new_layout {
            StartingCity::decode_from_new(payload)
        } else {
            StartingCity::decode_from_old(payload)
        }
    }

    fn encode_city(new_layout: bool, city: &StartingCity, writer: &mut Vec<u8>)
        ensures
            final(writer)@ == old(writer)@ + city.wire(new_layout),
    {
        if new_layout {
            city.encode_to_new(writer)
        } else {
            city.encode_to_old(writer)
        }
    }

    fn list_flags(slots: usize) -> (r: u32)
        ensures
            r == character_list_flags(slots as nat),
    {
        if slots == 1 {
            0x14
        } else if slots > 6 {
            0x1040
        } else if slots > 5 {
            0x40
        } else {
            0
        }
    }
}

/// The empty slot decodes to `None`.
proof fn lemma_empty_slot(s: Seq<u8>)
    requires
        s.len() >= 60,
        s.take(60) == zeros(60),
    ensures
        CharacterFromList::decode_error(s) is None,
        slot_decodes_to(s, None),
{
    lemma_valid_utf8_zeros(30);
    assert forall|j: int| 0 <= j < 60 implies s[j] == 0 by {
        assert(s.take(60)[j] == s[j]);
    }
    assert(s.subrange(0, 30) =~= zeros(30));
    assert(s.subrange(30, 60) =~= zeros(30));
    assert(is_first_zero(zeros(30), 0));
    lemma_first_zero(zeros(30), 0);
    assert(zeros(30).take(0) =~= Seq::<u8>::empty());
    assert(decode_utf8(Seq::<u8>::empty()) =~= Seq::<char>::empty());
}

impl Packet for CharacterList {
    open spec fn spec_packet_kind() -> u8 {
        0xa9
    }

    open spec fn spec_fixed_length(client_version: ClientVersion) -> Option<usize> {
        None
    }

    open spec fn wire(&self, client_version: ClientVersion, to_client: bool) -> Seq<u8> {
        let new_layout = CharacterList::is_new_layout(client_version);
        seq![self.characters@.len() as u8] + concat_map(self.characters@, |c: Option<CharacterFromList>| slot_wire(c))
            + seq![self.cities@.len() as u8] + concat_map(self.cities@, |c: StartingCity| c.wire(new_layout))
            + u32_be(character_list_flags(self.characters@.len())) + if new_layout {
            u16_be(0xffff)
        } else {
            Seq::<u8>::empty()
        }
    }

    open spec fn can_encode(&self, client_version: ClientVersion, to_client: bool) -> bool {
        true
    }

    open spec fn decode_error(client_version: ClientVersion, from_client: bool, s: Seq<u8>) -> Option<ProtocolError> {
        let new_layout = CharacterList::is_new_layout(client_version);
        if s.len() < 1 {
            Some(ProtocolError::UnexpectedEof)
        } else {
            match first_error(s[0] as int, 0, CharacterList::slot_errors(s)) {
                Some(e) => Some(e),
                None => if s.len() < CharacterList::cities_at(s) + 1 {
                    Some(ProtocolError::UnexpectedEof)
                } else {
                    first_error(s[CharacterList::cities_at(s)] as int, 0, CharacterList::city_errors(new_layout, s))
                },
            }
        }
    }

    open spec fn decodes_to(client_version: ClientVersion, from_client: bool, s: Seq<u8>, p: Self) -> bool {
        let new_layout = CharacterList::is_new_layout(client_version);
        let c0 = CharacterList::cities_at(s);
        &&& p.characters@.len() == s[0]
        &&& forall|k: int| 0 <= k < p.characters@.len() ==> slot_decodes_to(s.skip(1 + 60 * k), #[trigger] p.characters@[k])
        &&& p.cities@.len() == s[c0]
        &&& forall|k: int| 0 <= k < p.cities@.len() ==> CharacterList::city_decodes_to(
            new_layout,
            s.skip(c0 + 1 + CharacterList::city_size(new_layout) * k),
            #[trigger] p.cities@[k],
        )
    }

    open spec fn roundtrips(&self, client_version: ClientVersion, to_client: bool) -> bool {
        let new_layout = CharacterList::is_new_layout(client_version);
        &&& self.characters@.len() <= 0xff
        &&& self.cities@.len() <= 0xff
        &&& forall|k: int| 0 <= k < self.characters@.len() ==> slot_roundtrips(#[trigger] self.characters@[k])
        &&& forall|k: int| 0 <= k < self.cities@.len() ==> (if new_layout {
            (#[trigger] self.cities@[k]).roundtrips_new()
        } else {
            self.cities@[k].roundtrips_old()
        })
    }

    fn packet_kind() -> (r: u8) {
        0xa9
    }

    fn fixed_length(client_version: ClientVersion) -> (r: Option<usize>) {
        None
    }

    fn decode(client_version: ClientVersion, from_client: bool, payload: &[u8]) -> (r: Result<Self, ProtocolError>) {
        let ghost s = payload@;
        let new_layout = client_version.at_least(ClientVersion::new(7, 0, 13, 0));
        let mut rest = payload;
        let slot_count = rest.read_u8()? as usize;
        assert(rest@ =~= s.skip(1));
        let ghost err = CharacterList::slot_errors(s);
        let mut characters: Vec<Option<CharacterFromList>> = Vec::new();
        let mut k: usize = 0;
        while k < slot_count
            invariant
                slot_count == s[0],
                s.len() >= 1,
                s == payload@,
                new_layout == CharacterList::is_new_layout(client_version),
                k <= slot_count,
                err == CharacterList::slot_errors(s),
                rest@ == s.skip(1 + 60 * k),
                1 + 60 * k <= s.len(),
                first_error(slot_count as int, 0, err) == first_error(slot_count as int, k as int, err),
                characters@.len() == k,
                forall|j: int| 0 <= j < k ==> slot_decodes_to(s.skip(1 + 60 * j), #[trigger] characters@[j]),
            decreases slot_count - k,
        {
            let c = match CharacterList::decode_slot(&mut rest) {
                Ok(c) => c,
                Err(e) => {
                    assert(err(k as int) == Some(e));
                    assert(first_error(slot_count as int, k as int, err) == Some(e));
                    return Err(e);
                },
            };
            assert(err(k as int) is None);
            characters.push(c);
            assert(rest@ =~= s.skip(1 + 60 * (k + 1)));
            k = k + 1;
        }
        let ghost c0 = CharacterList::cities_at(s);
        assert(c0 == 1 + 60 * slot_count);
        let city_count = match rest.read_u8() {
            Ok(n) => n as usize,
            Err(e) => return Err(e),
        };
        assert(rest@ =~= s.skip(c0 + 1));
        let ghost size = CharacterList::city_size(new_layout);
        let ghost cerr = CharacterList::city_errors(new_layout, s);
        let mut cities: Vec<StartingCity> = Vec::new();
        let mut k: usize = 0;
        while k < city_count
            invariant
                city_count == s[c0],
                c0 == CharacterList::cities_at(s),
                s.len() >= c0 + 1,
                s == payload@,
                new_layout == CharacterList::is_new_layout(client_version),
                size == CharacterList::city_size(new_layout),
                k <= city_count,
                cerr == CharacterList::city_errors(new_layout, s),
                rest@ == s.skip(c0 + 1 + size * k),
                c0 + 1 + size * k <= s.len(),
                first_error(s[0] as int, 0, CharacterList::slot_errors(s)) is None,
                first_error(city_count as int, 0, cerr) == first_error(city_count as int, k as int, cerr),
                cities@.len() == k,
                forall|j: int| 0 <= j < k ==> CharacterList::city_decodes_to(
                    new_layout,
                    s.skip(c0 + 1 + size * j),
                    #[trigger] cities@[j],
                ),
            decreases city_count - k,
        {
            let c = match CharacterList::decode_city(new_layout, &mut rest) {
                Ok(c) => c,
                Err(e) => {
                    assert(cerr(k as int) == Some(e));
                    assert(first_error(city_count as int, k as int, cerr) == Some(e));
                    return Err(e);
                },
            };
            assert(cerr(k as int) is None);
            cities.push(c);
            assert(rest@ =~= s.skip(c0 + 1 + size * (k + 1)));
            k = k + 1;
        }
        Ok(CharacterList { characters, cities })
    }

    fn encode(&self, client_version: ClientVersion, to_client: bool, writer: &mut Vec<u8>) -> (r: Result<(), ProtocolError>) {
        let new_layout = client_version.at_least(ClientVersion::new(7, 0, 13, 0));
        writer.write_u8(self.characters.len() as u8);
        let ghost head = writer@;
        let ghost f = |c: Option<CharacterFromList>| slot_wire(c);
        let mut k: usize = 0;
        while k < self.characters.len()
            invariant
                k <= self.characters@.len(),
                f == (|c: Option<CharacterFromList>| slot_wire(c)),
                writer@ == head + concat_map(self.characters@.take(k as int), f),
            decreases self.characters@.len() - k,
        {
            CharacterList::encode_slot(&self.characters[k], writer);
            assert(self.characters@.take(k + 1).drop_last() =~= self.characters@.take(k as int));
            k = k + 1;
        }
        assert(self.characters@.take(k as int) =~= self.characters@);
        writer.write_u8(self.cities.len() as u8);
        let ghost head2 = writer@;
        let ghost g = |c: StartingCity| c.wire(new_layout);
        let mut k: usize = 0;
        while k < self.cities.len()
            invariant
                k <= self.cities@.len(),
                g == (|c: StartingCity| c.wire(new_layout)),
                writer@ == head2 + concat_map(self.cities@.take(k as int), g),
            decreases self.cities@.len() - k,
        {
            CharacterList::encode_city(new_layout, &self.cities[k], writer);
            assert(self.cities@.take(k + 1).drop_last() =~= self.cities@.take(k as int));
            k = k + 1;
        }
        assert(self.cities@.take(k as int) =~= self.cities@);
        writer.write_u32(CharacterList::list_flags(self.characters.len()));
        if new_layout {
            writer.write_u16(0xffff);
        }
        assert(writer@ =~= old(writer)@ + self.wire(client_version, to_client));
        Ok(())
    }

    proof fn lemma_roundtrip(&self, client_version: ClientVersion, to_client: bool) {
        let new_layout = CharacterList::is_new_layout(client_version);
        let w = self.wire(client_version, to_client);
        let chars = self.characters@;
        let cities = self.cities@;
        let f = |c: Option<CharacterFromList>| slot_wire(c);
        let g = |c: StartingCity| c.wire(new_layout);
        let size = CharacterList::city_size(new_layout);
        assert forall|i: int| 0 <= i < chars.len() implies #[trigger] f(chars[i]).len() == 60 by {
            match chars[i] {
                Some(c) => c.lemma_wire_len(),
                None => {},
            }
        }
        lemma_concat_map_fixed(chars, f, 60);
        assert forall|i: int| 0 <= i < cities.len() implies #[trigger] g(cities[i]).len() == size by {
            if new_layout {
                cities[i].lemma_wire_len_new();
            } else {
                cities[i].lemma_wire_len_old();
            }
        }
        lemma_concat_map_fixed(cities, g, size as nat);
        let c0: int = 1 + 60 * (chars.len() as int);
        assert(w[0] == chars.len() as u8);
        assert(CharacterList::cities_at(w) == c0);
        assert(w[c0] == cities.len() as u8);
        assert forall|k: int| 0 <= k < chars.len() implies CharacterFromList::decode_error(w.skip(1 + 60 * k)) is None
            && slot_decodes_to(w.skip(1 + 60 * k), #[trigger] chars[k]) by {
            let t = w.skip(1 + 60 * k);
            assert(concat_map(chars, f).subrange(60 * k, 60 * k + 60) == f(chars[k]));
            assert(t.take(60) =~= f(chars[k]));
            match chars[k] {
                Some(c) => c.lemma_roundtrip(t),
                None => lemma_empty_slot(t),
            }
        }
        let serr = CharacterList::slot_errors(w);
        assert forall|k: int| 0 <= k < chars.len() implies #[trigger] serr(k) is None by {
            assert(slot_decodes_to(w.skip(1 + 60 * k), chars[k]));
        }
        lemma_first_error_none(chars.len() as int, 0, serr);
        assert forall|k: int| 0 <= k < cities.len() implies CharacterList::city_error(new_layout, w.skip(c0 + 1 + size * k)) is None
            && CharacterList::city_decodes_to(new_layout, w.skip(c0 + 1 + size * k), #[trigger] cities[k]) by {
            let t = w.skip(c0 + 1 + size * k);
            assert(concat_map(cities, g).subrange(size * k, size * k + size) == g(cities[k]));
            assert(t.take(size) =~= g(cities[k]));
            if new_layout {
                cities[k].lemma_roundtrip_new(t);
            } else {
                cities[k].lemma_roundtrip_old(t);
            }
        }
        let cerr = CharacterList::city_errors(new_layout, w);
        assert forall|k: int| 0 <= k < cities.len() implies #[trigger] cerr(k) is None by {
            assert(CharacterList::city_decodes_to(new_layout, w.skip(c0 + 1 + size * k), cities[k]));
        }
        lemma_first_error_none(cities.len() as int, 0, cerr);
    }
}
/// Game features the server enables.
#[derive(Debug, Clone, Copy, Default, PartialEq, Eq, Structural)]
pub struct FeatureFlags {
    bits: u32,
}

impl View for FeatureFlags {
    type V = u32;

    closed spec fn view(&self) -> u32 {
        self.bits
    }
}

impl FeatureFlags {
    pub const T2A: u32 = 0x1;
    pub const UOR: u32 = 0x2;
    pub const UOTD: u32 = 0x4;
    pub const LBR: u32 = 0x8;
    pub const AOS: u32 = 0x10;
    pub const SIXTH_CHARACTER_SLOT: u32 = 0x20;
    pub const SE: u32 = 0x40;
    pub const ML: u32 = 0x80;
    pub const EIGTH_AGE: u32 = 0x100;
    pub const NINTH_AGE: u32 = 0x200;
    pub const TENTH_AGE: u32 = 0x400;
    pub const INCREASED_STORAGE: u32 = 0x800;
    pub const SEVENTH_CHARACTER_SLOT: u32 = 0x1000;
    pub const ROLEPLAY_FACES: u32 = 0x2000;
    pub const TRIAL_ACCOUNT: u32 = 0x4000;
    pub const LIVE_ACCOUNT: u32 = 0x8000;
    pub const SA: u32 = 0x10000;
    pub const HS: u32 = 0x20000;
    pub const GOTHIC: u32 = 0x40000;
    pub const RUSTIC: u32 = 0x80000;
    pub const JUNGLE: u32 = 0x100000;
    pub const SHADOWGUARD: u32 = 0x200000;
    pub const TOL: u32 = 0x400000;
    pub const EJ: u32 = 0x800000;

    /// The union of all defined flags.
    pub open spec fn spec_all() -> u32 {
        0xffffff
    }

    /// The flags among `bits` that are defined; the others are dropped.
    pub fn from_bits_truncate(bits: u32) -> (r: FeatureFlags)
        ensures
            r@ == bits & FeatureFlags::spec_all(),
    {
        FeatureFlags { bits: bits & 0xffffff }
    }

    pub fn bits(&self) -> (r: u32)
        ensures
            r == self@,
    {
        self.bits
    }

    pub fn empty() -> (r: FeatureFlags)
        ensures
            r@ == 0,
    {
        FeatureFlags { bits: 0 }
    }

    pub fn is_empty(&self) -> (r: bool)
        ensures
            r == (self@ == 0),
    {
        self.bits == 0
    }

    pub fn contains(&self, flag: u32) -> (r: bool)
        ensures
            r == (self@ & flag == flag),
    {
        self.bits & flag == flag
    }

    /// The value holds only defined flags.
    pub open spec fn spec_is_truncated(&self) -> bool {
        self@ & FeatureFlags::spec_all() == self@
    }
}

/// Two flag sets with the same bits are the same.
pub broadcast proof fn lemma_featureflags_view_injective(a: FeatureFlags, b: FeatureFlags)
    ensures
        #![trigger a@, b@]
        a@ == b@ ==> a == b,
{
}

/// The features the server enables for this client.
#[derive(Debug, Clone, Default)]
pub struct SupportedFeatures {
    pub feature_flags: FeatureFlags,
}

impl SupportedFeatures {
    /// From this version on the flags take four bytes instead of two.
    pub open spec fn spec_extended_min_version() -> ClientVersion {
        ClientVersion { major: 6, minor: 0, patch: 14, build: 2 }
    }
}

impl Packet for SupportedFeatures {
    open spec fn spec_packet_kind() -> u8 {
        0xb9
    }

    open spec fn spec_fixed_length(client_version: ClientVersion) -> Option<usize> {
        if client_version.spec_at_least(SupportedFeatures::spec_extended_min_version()) {
            Some(5)
        } else {
            Some(3)
        }
    }

    open spec fn wire(&self, client_version: ClientVersion, to_client: bool) -> Seq<u8> {
        if client_version.spec_at_least(SupportedFeatures::spec_extended_min_version()) {
            u32_be(self.feature_flags@)
        } else {
            u16_be(self.feature_flags@ as u16)
        }
    }

    open spec fn can_encode(&self, client_version: ClientVersion, to_client: bool) -> bool {
        true
    }

    open spec fn decode_error(client_version: ClientVersion, from_client: bool, s: Seq<u8>) -> Option<ProtocolError> {
        if client_version.spec_at_least(SupportedFeatures::spec_extended_min_version()) {
            if s.len() < 4 {
                Some(ProtocolError::UnexpectedEof)
            } else {
                None
            }
        } else {
            if s.len() < 2 {
                Some(ProtocolError::UnexpectedEof)
            } else {
                None
            }
        }
    }

    open spec fn decodes_to(client_version: ClientVersion, from_client: bool, s: Seq<u8>, p: Self) -> bool {
        if client_version.spec_at_least(SupportedFeatures::spec_extended_min_version()) {
            &&& p.feature_flags@ == (be_u32(s, 0) & FeatureFlags::spec_all())
        } else {
            &&& p.feature_flags@ == ((be_u16(s, 0) as u32) & FeatureFlags::spec_all())
        }
    }

    open spec fn roundtrips(&self, client_version: ClientVersion, to_client: bool) -> bool {
        if client_version.spec_at_least(SupportedFeatures::spec_extended_min_version()) {
            self.feature_flags.spec_is_truncated()
        } else {
            self.feature_flags.spec_is_truncated() && self.feature_flags@ <= 0xffff
        }
    }

    fn packet_kind() -> (r: u8) {
        0xb9
    }

    fn fixed_length(client_version: ClientVersion) -> (r: Option<usize>) {
        if client_version.at_least(ClientVersion::new(6, 0, 14, 2)) {
            Some(5)
        } else {
            Some(3)
        }
    }

    fn decode(client_version: ClientVersion, from_client: bool, payload: &[u8]) -> (r: Result<Self, ProtocolError>) {
        let ghost s = payload@;
        let mut payload = payload;
        if client_version.at_least(ClientVersion::new(6, 0, 14, 2)) {
            let feature_flags = FeatureFlags::from_bits_truncate(payload.read_u32()?);
            assert(payload@ =~= s.skip(4));
            Ok(SupportedFeatures { feature_flags })
        } else {
            let feature_flags = FeatureFlags::from_bits_truncate(payload.read_u16()? as u32);
            assert(payload@ =~= s.skip(2));
            Ok(SupportedFeatures { feature_flags })
        }
    }

    fn encode(&self, client_version: ClientVersion, to_client: bool, writer: &mut Vec<u8>) -> (r: Result<(), ProtocolError>) {
        if client_version.at_least(ClientVersion::new(6, 0, 14, 2)) {
            writer.write_u32(self.feature_flags.bits());
        } else {
            writer.write_u16(self.feature_flags.bits() as u16);
        }
        assert(writer@ =~= old(writer)@ + self.wire(client_version, to_client));
        Ok(())
    }

    proof fn lemma_roundtrip(&self, client_version: ClientVersion, to_client: bool) {
        let w = self.wire(client_version, to_client);
        if client_version.spec_at_least(SupportedFeatures::spec_extended_min_version()) {
            assert(w.subrange(0, 4) =~= u32_be(self.feature_flags@));
            lemma_be_u32_roundtrip(self.feature_flags@, w, 0);
        } else {
            assert(w.subrange(0, 2) =~= u16_be(self.feature_flags@ as u16));
            lemma_be_u16_roundtrip(self.feature_flags@ as u16, w, 0);
        }
    }
}

/// A skill chosen for a new character.
#[derive(Debug, Clone, Copy, Default, PartialEq, Eq, Structural)]
pub struct InitialSkill {
    pub skill_id: u8,
    pub points: u8,
}

/// The graphic and hue of hair or a beard.
#[derive(Debug, Clone, Copy, Default, PartialEq, Eq, Structural)]
pub struct InitialCharacterVisual {
    pub graphic: u16,
    pub hue: u16,
}

/// The choices made when creating a character.
#[derive(Debug, Clone)]
pub struct CreateCharacter {
    pub client_flags: ClientFlags,
    pub character_name: String,
    pub profession: u8,
    pub is_female: bool,
    pub race: u8,
    pub str: u8,
    pub dex: u8,
    pub int: u8,
    pub skills: [InitialSkill; 4],
    pub hue: u16,
    pub hair: InitialCharacterVisual,
    pub beard: InitialCharacterVisual,
    pub shirt_hue: u16,
    pub pants_hue: u16,
    pub city_index: u16,
    pub slot: u16,
    pub ip: u32,
}

/// From after this version the race is sent, shifted by one.
pub open spec fn spec_client_min_version_race() -> ClientVersion {
    ClientVersion { major: 4, minor: 0, patch: 11, build: 4 }
}

/// The race carried by the race-and-gender byte.
pub open spec fn decoded_race(client_version: ClientVersion, race_and_gender: u8) -> u8 {
    if client_version.major >= 7 {
        race_and_gender / 2
    } else if client_version.spec_newer_than(spec_client_min_version_race()) {
        if race_and_gender / 2 == 0 {
            255
        } else {
            (race_and_gender / 2 - 1) as u8
        }
    } else {
        0
    }
}

/// The race-and-gender byte sent for a new character.
pub open spec fn encoded_race_and_gender(client_version: ClientVersion, is_female: bool, race: u8) -> u8 {
    let gender: int = if is_female {
        1
    } else {
        0
    };
    if client_version.major >= 7 {
        ((race as int * 2) % 256 + gender) as u8
    } else if client_version.spec_at_least(spec_client_min_version_race()) {
        ((race as int * 2) % 256 + 1) as u8
    } else {
        gender as u8
    }
}

fn race_of(client_version: ClientVersion, race_and_gender: u8) -> (r: u8)
    ensures
        r == decoded_race(client_version, race_and_gender),
{
    if client_version.major >= 7 {
        race_and_gender / 2
    } else if client_version.newer_than(ClientVersion::new(4, 0, 11, 4)) {
        if race_and_gender / 2 == 0 {
            255
        } else {
            race_and_gender / 2 - 1
        }
    } else {
        0
    }
}

fn race_and_gender_of(client_version: ClientVersion, is_female: bool, race: u8) -> (r: u8)
    ensures
        r == encoded_race_and_gender(client_version, is_female, race),
{
    let gender: u16 = if is_female {
        1
    } else {
        0
    };
    if client_version.major >= 7 {
        ((race as u16 * 2) % 256 + gender) as u8
    } else if client_version.at_least(ClientVersion::new(4, 0, 11, 4)) {
        ((race as u16 * 2) % 256 + 1) as u8
    } else {
        gender as u8
    }
}

impl CreateCharacter {
    /// The payload bytes: four skills when `extended`, else three.
    pub open spec fn wire(&self, extended: bool, client_version: ClientVersion) -> Seq<u8> {
        if extended {
            u32_be(0xedededed) + u32_be(0xffffffff) + zeros(1) + str_block_bytes(encode_utf8(self.character_name@), 30) + zeros(2) + u32_be(self.client_flags@) + u32_be(1) + u32_be(0) + seq![self.profession] + zeros(15) + seq![encoded_race_and_gender(client_version, self.is_female, self.race)] + seq![self.str] + seq![self.dex] + seq![self.int] + seq![self.skills@[0].skill_id, self.skills@[0].points] + seq![self.skills@[1].skill_id, self.skills@[1].points] + seq![self.skills@[2].skill_id, self.skills@[2].points] + seq![self.skills@[3].skill_id, self.skills@[3].points] + u16_be(self.hue) + u16_be(self.hair.graphic) + u16_be(self.hair.hue) + u16_be(self.beard.graphic) + u16_be(self.beard.hue) + u16_be(self.city_index) + zeros(2) + u16_be(self.slot) + u32_be(self.ip) + u16_be(self.shirt_hue) + u16_be(self.pants_hue)
        } else {
            u32_be(0xedededed) + u32_be(0xffffffff) + zeros(1) + str_block_bytes(encode_utf8(self.character_name@), 30) + zeros(2) + u32_be(self.client_flags@) + u32_be(1) + u32_be(0) + seq![self.profession] + zeros(15) + seq![encoded_race_and_gender(client_version, self.is_female, self.race)] + seq![self.str] + seq![self.dex] + seq![self.int] + seq![self.skills@[0].skill_id, self.skills@[0].points] + seq![self.skills@[1].skill_id, self.skills@[1].points] + seq![self.skills@[2].skill_id, self.skills@[2].points] + u16_be(self.hue) + u16_be(self.hair.graphic) + u16_be(self.hair.hue) + u16_be(self.beard.graphic) + u16_be(self.beard.hue) + u16_be(self.city_index) + zeros(2) + u16_be(self.slot) + u32_be(self.ip) + u16_be(self.shirt_hue) + u16_be(self.pants_hue)
        }
    }

    pub open spec fn decode_error(extended: bool, s: Seq<u8>) -> Option<ProtocolError> {
        if extended {
            if s.len() < 4 {
                Some(ProtocolError::UnexpectedEof)
            } else if be_u32(s, 0) != 0xedededed {
                Some(ProtocolError::InvalidValue)
            } else if s.len() < 8 {
                Some(ProtocolError::UnexpectedEof)
            } else if be_u32(s, 4) != 0xffffffff {
                Some(ProtocolError::InvalidValue)
            } else if s.len() < 39 {
                Some(ProtocolError::UnexpectedEof)
            } else if str_block_text(s.subrange(9, 39)) is None {
                Some(ProtocolError::InvalidUtf8)
            } else if s.len() < 105 {
                Some(ProtocolError::UnexpectedEof)
            } else {
                None
            }
        } else {
            if s.len() < 4 {
                Some(ProtocolError::UnexpectedEof)
            } else if be_u32(s, 0) != 0xedededed {
                Some(ProtocolError::InvalidValue)
            } else if s.len() < 8 {
                Some(ProtocolError::UnexpectedEof)
            } else if be_u32(s, 4) != 0xffffffff {
                Some(ProtocolError::InvalidValue)
            } else if s.len() < 39 {
                Some(ProtocolError::UnexpectedEof)
            } else if str_block_text(s.subrange(9, 39)) is None {
                Some(ProtocolError::InvalidUtf8)
            } else if s.len() < 103 {
                Some(ProtocolError::UnexpectedEof)
            } else {
                None
            }
        }
    }

    pub open spec fn decodes_to(extended: bool, client_version: ClientVersion, s: Seq<u8>, p: CreateCharacter) -> bool {
        if extended {
            &&& Some(p.character_name@) == str_block_text(s.subrange(9, 39))
            &&& p.client_flags@ == (be_u32(s, 41) & ClientFlags::spec_all())
            &&& p.profession == s[53]
            &&& p.is_female == (s[69] % 2 == 1)
            &&& p.race == decoded_race(client_version, s[69])
            &&& p.str == s[70]
            &&& p.dex == s[71]
            &&& p.int == s[72]
            &&& p.skills@[0].skill_id == s[73]
            &&& p.skills@[0].points == s[74]
            &&& p.skills@[1].skill_id == s[75]
            &&& p.skills@[1].points == s[76]
            &&& p.skills@[2].skill_id == s[77]
            &&& p.skills@[2].points == s[78]
            &&& p.skills@[3].skill_id == s[79]
            &&& p.skills@[3].points == s[80]
            &&& p.hue == be_u16(s, 81)
            &&& p.hair.graphic == be_u16(s, 83)
            &&& p.hair.hue == be_u16(s, 85)
            &&& p.beard.graphic == be_u16(s, 87)
            &&& p.beard.hue == be_u16(s, 89)
            &&& p.city_index == be_u16(s, 91)
            &&& p.slot == be_u16(s, 95)
            &&& p.ip == be_u32(s, 97)
            &&& p.shirt_hue == be_u16(s, 101)
            &&& p.pants_hue == be_u16(s, 103)
        } else {
            &&& Some(p.character_name@) == str_block_text(s.subrange(9, 39))
            &&& p.client_flags@ == (be_u32(s, 41) & ClientFlags::spec_all())
            &&& p.profession == s[53]
            &&& p.is_female == (s[69] % 2 == 1)
            &&& p.race == decoded_race(client_version, s[69])
            &&& p.str == s[70]
            &&& p.dex == s[71]
            &&& p.int == s[72]
            &&& p.skills@[0].skill_id == s[73]
            &&& p.skills@[0].points == s[74]
            &&& p.skills@[1].skill_id == s[75]
            &&& p.skills@[1].points == s[76]
            &&& p.skills@[2].skill_id == s[77]
            &&& p.skills@[2].points == s[78]
            &&& p.hue == be_u16(s, 79)
            &&& p.hair.graphic == be_u16(s, 81)
            &&& p.hair.hue == be_u16(s, 83)
            &&& p.beard.graphic == be_u16(s, 85)
            &&& p.beard.hue == be_u16(s, 87)
            &&& p.city_index == be_u16(s, 89)
            &&& p.slot == be_u16(s, 93)
            &&& p.ip == be_u32(s, 95)
            &&& p.shirt_hue == be_u16(s, 99)
            &&& p.pants_hue == be_u16(s, 101)
            &&& p.skills@[3] == InitialSkill { skill_id: 0, points: 0 }
        }
    }

    pub open spec fn roundtrips(&self, extended: bool, client_version: ClientVersion) -> bool {
        &&& extended || self.skills@[3] == InitialSkill { skill_id: 0, points: 0 }
        &&& fits_str_block(self.character_name@, 30)
        &&& self.client_flags.spec_is_truncated()
        &&& (client_version.major >= 7 && self.race < 128 || !client_version.spec_at_least(spec_client_min_version_race()) && self.race == 0)
    }

    pub fn decode(extended: bool, client_version: ClientVersion, payload: &[u8]) -> (r: Result<CreateCharacter, ProtocolError>)
        ensures
            match r {
                Ok(p) => CreateCharacter::decode_error(extended, payload@) is None
                    && CreateCharacter::decodes_to(extended, client_version, payload@, p),
                Err(e) => CreateCharacter::decode_error(extended, payload@) == Some(e),
            },
    {
        if extended {
            CreateCharacter::decode_with_four_skills(client_version, payload)
        } else {
            CreateCharacter::decode_with_three_skills(client_version, payload)
        }
    }

    #[verifier::rlimit(60)]
    fn decode_with_four_skills(client_version: ClientVersion, payload: &[u8]) -> (r: Result<CreateCharacter, ProtocolError>)
        ensures
            match r {
                Ok(p) => CreateCharacter::decode_error(true, payload@) is None
                    && CreateCharacter::decodes_to(true, client_version, payload@, p),
                Err(e) => CreateCharacter::decode_error(true, payload@) == Some(e),
            },
    {
        let ghost s = payload@;
        let mut payload = payload;
        if payload.read_u32()? != 0xedededed {
            return Err(ProtocolError::InvalidValue);
        }
        assert(payload@ =~= s.skip(4));
        if payload.read_u32()? != 0xffffffff {
            return Err(ProtocolError::InvalidValue);
        }
        assert(payload@ =~= s.skip(8));
        payload.skip(1)?;
        assert(payload@ =~= s.skip(9));
        proof {
            if payload@.len() >= 30 {
                assert(payload@.take(30) =~= s.subrange(9, 39));
            }
        }
        let character_name = payload.read_str_block(30)?;
        assert(payload@ =~= s.skip(39));
        payload.skip(2)?;
        assert(payload@ =~= s.skip(41));
        let client_flags = ClientFlags::from_bits_truncate(payload.read_u32()?);
        assert(payload@ =~= s.skip(45));
        payload.skip(8)?;
        assert(payload@ =~= s.skip(53));
        let profession = payload.read_u8()?;
        assert(payload@ =~= s.skip(54));
        payload.skip(15)?;
        assert(payload@ =~= s.skip(69));
        let race_and_gender = payload.read_u8()?;
        assert(payload@ =~= s.skip(70));
        let str = payload.read_u8()?;
        assert(payload@ =~= s.skip(71));
        let dex = payload.read_u8()?;
        assert(payload@ =~= s.skip(72));
        let intelligence = payload.read_u8()?;
        assert(payload@ =~= s.skip(73));
        let skill_0 = InitialSkill { skill_id: payload.read_u8()?, points: 0 };
        let skill_0 = InitialSkill { points: payload.read_u8()?, ..skill_0 };
        assert(payload@ =~= s.skip(75));
        let skill_1 = InitialSkill { skill_id: payload.read_u8()?, points: 0 };
        let skill_1 = InitialSkill { points: payload.read_u8()?, ..skill_1 };
        assert(payload@ =~= s.skip(77));
        let skill_2 = InitialSkill { skill_id: payload.read_u8()?, points: 0 };
        let skill_2 = InitialSkill { points: payload.read_u8()?, ..skill_2 };
        assert(payload@ =~= s.skip(79));
        let skill_3 = InitialSkill { skill_id: payload.read_u8()?, points: 0 };
        let skill_3 = InitialSkill { points: payload.read_u8()?, ..skill_3 };
        assert(payload@ =~= s.skip(81));
        let hue = payload.read_u16()?;
        assert(payload@ =~= s.skip(83));
        let hair_graphic = payload.read_u16()?;
        assert(payload@ =~= s.skip(85));
        let hair_hue = payload.read_u16()?;
        assert(payload@ =~= s.skip(87));
        let beard_graphic = payload.read_u16()?;
        assert(payload@ =~= s.skip(89));
        let beard_hue = payload.read_u16()?;
        assert(payload@ =~= s.skip(91));
        let city_index = payload.read_u16()?;
        assert(payload@ =~= s.skip(93));
        payload.skip(2)?;
        assert(payload@ =~= s.skip(95));
        let slot = payload.read_u16()?;
        assert(payload@ =~= s.skip(97));
        let ip = payload.read_u32()?;
        assert(payload@ =~= s.skip(101));
        let shirt_hue = payload.read_u16()?;
        assert(payload@ =~= s.skip(103));
        let pants_hue = payload.read_u16()?;
        assert(payload@ =~= s.skip(105));
        Ok(CreateCharacter {
            client_flags,
                character_name,
                profession,
                is_female: race_and_gender % 2 == 1,
                race: race_of(client_version, race_and_gender),
                str,
                dex,
                int: intelligence,
                skills: [skill_0, skill_1, skill_2, skill_3],
                hue,
                hair: InitialCharacterVisual { graphic: hair_graphic, hue: hair_hue },
                beard: InitialCharacterVisual { graphic: beard_graphic, hue: beard_hue },
                shirt_hue,
                pants_hue,
                city_index,
                slot,
                ip,
        })
    }

    #[verifier::rlimit(60)]
    fn decode_with_three_skills(client_version: ClientVersion, payload: &[u8]) -> (r: Result<CreateCharacter, ProtocolError>)
        ensures
            match r {
                Ok(p) => CreateCharacter::decode_error(false, payload@) is None
                    && CreateCharacter::decodes_to(false, client_version, payload@, p),
                Err(e) => CreateCharacter::decode_error(false, payload@) == Some(e),
            },
    {
        let ghost s = payload@;
        let mut payload = payload;
        if payload.read_u32()? != 0xedededed {
            return Err(ProtocolError::InvalidValue);
        }
        assert(payload@ =~= s.skip(4));
        if payload.read_u32()? != 0xffffffff {
            return Err(ProtocolError::InvalidValue);
        }
        assert(payload@ =~= s.skip(8));
        payload.skip(1)?;
        assert(payload@ =~= s.skip(9));
        proof {
            if payload@.len() >= 30 {
                assert(payload@.take(30) =~= s.subrange(9, 39));
            }
        }
        let character_name = payload.read_str_block(30)?;
        assert(payload@ =~= s.skip(39));
        payload.skip(2)?;
        assert(payload@ =~= s.skip(41));
        let client_flags = ClientFlags::from_bits_truncate(payload.read_u32()?);
        assert(payload@ =~= s.skip(45));
        payload.skip(8)?;
        assert(payload@ =~= s.skip(53));
        let profession = payload.read_u8()?;
        assert(payload@ =~= s.skip(54));
        payload.skip(15)?;
        assert(payload@ =~= s.skip(69));
        let race_and_gender = payload.read_u8()?;
        assert(payload@ =~= s.skip(70));
        let str = payload.read_u8()?;
        assert(payload@ =~= s.skip(71));
        let dex = payload.read_u8()?;
        assert(payload@ =~= s.skip(72));
        let intelligence = payload.read_u8()?;
        assert(payload@ =~= s.skip(73));
        let skill_0 = InitialSkill { skill_id: payload.read_u8()?, points: 0 };
        let skill_0 = InitialSkill { points: payload.read_u8()?, ..skill_0 };
        assert(payload@ =~= s.skip(75));
        let skill_1 = InitialSkill { skill_id: payload.read_u8()?, points: 0 };
        let skill_1 = InitialSkill { points: payload.read_u8()?, ..skill_1 };
        assert(payload@ =~= s.skip(77));
        let skill_2 = InitialSkill { skill_id: payload.read_u8()?, points: 0 };
        let skill_2 = InitialSkill { points: payload.read_u8()?, ..skill_2 };
        assert(payload@ =~= s.skip(79));
        let hue = payload.read_u16()?;
        assert(payload@ =~= s.skip(81));
        let hair_graphic = payload.read_u16()?;
        assert(payload@ =~= s.skip(83));
        let hair_hue = payload.read_u16()?;
        assert(payload@ =~= s.skip(85));
        let beard_graphic = payload.read_u16()?;
        assert(payload@ =~= s.skip(87));
        let beard_hue = payload.read_u16()?;
        assert(payload@ =~= s.skip(89));
        let city_index = payload.read_u16()?;
        assert(payload@ =~= s.skip(91));
        payload.skip(2)?;
        assert(payload@ =~= s.skip(93));
        let slot = payload.read_u16()?;
        assert(payload@ =~= s.skip(95));
        let ip = payload.read_u32()?;
        assert(payload@ =~= s.skip(99));
        let shirt_hue = payload.read_u16()?;
        assert(payload@ =~= s.skip(101));
        let pants_hue = payload.read_u16()?;
        assert(payload@ =~= s.skip(103));
        Ok(CreateCharacter {
            client_flags,
                character_name,
                profession,
                is_female: race_and_gender % 2 == 1,
                race: race_of(client_version, race_and_gender),
                str,
                dex,
                int: intelligence,
                skills: [skill_0, skill_1, skill_2, InitialSkill { skill_id: 0, points: 0 }],
                hue,
                hair: InitialCharacterVisual { graphic: hair_graphic, hue: hair_hue },
                beard: InitialCharacterVisual { graphic: beard_graphic, hue: beard_hue },
                shirt_hue,
                pants_hue,
                city_index,
                slot,
                ip,
        })
    }

    pub fn encode(&self, extended: bool, client_version: ClientVersion, writer: &mut Vec<u8>)
        ensures
            final(writer)@ == old(writer)@ + self.wire(extended, client_version),
    {
        if extended {
            self.encode_with_four_skills(client_version, writer);
        } else {
            self.encode_with_three_skills(client_version, writer);
        }
    }

    #[verifier::rlimit(60)]
    fn encode_with_four_skills(&self, client_version: ClientVersion, writer: &mut Vec<u8>)
        ensures
            final(writer)@ == old(writer)@ + self.wire(true, client_version),
    {
        writer.write_u32(0xedededed);
        writer.write_u32(0xffffffff);
        writer.write_zeros(1);
        writer.write_str_block(self.character_name.as_str(), 30);
        writer.write_zeros(2);
        writer.write_u32(self.client_flags.bits());
        writer.write_u32(1);
        writer.write_u32(0);
        writer.write_u8(self.profession);
        writer.write_zeros(15);
        writer.write_u8(race_and_gender_of(client_version, self.is_female, self.race));
        writer.write_u8(self.str);
        writer.write_u8(self.dex);
        writer.write_u8(self.int);
        writer.write_u8(self.skills[0].skill_id);
        writer.write_u8(self.skills[0].points);
        writer.write_u8(self.skills[1].skill_id);
        writer.write_u8(self.skills[1].points);
        writer.write_u8(self.skills[2].skill_id);
        writer.write_u8(self.skills[2].points);
        writer.write_u8(self.skills[3].skill_id);
        writer.write_u8(self.skills[3].points);
        writer.write_u16(self.hue);
        writer.write_u16(self.hair.graphic);
        writer.write_u16(self.hair.hue);
        writer.write_u16(self.beard.graphic);
        writer.write_u16(self.beard.hue);
        writer.write_u16(self.city_index);
        writer.write_zeros(2);
        writer.write_u16(self.slot);
        writer.write_u32(self.ip);
        writer.write_u16(self.shirt_hue);
        writer.write_u16(self.pants_hue);
        assert(writer@ =~= old(writer)@ + self.wire(true, client_version));
    }

    #[verifier::rlimit(60)]
    fn encode_with_three_skills(&self, client_version: ClientVersion, writer: &mut Vec<u8>)
        ensures
            final(writer)@ == old(writer)@ + self.wire(false, client_version),
    {
        writer.write_u32(0xedededed);
        writer.write_u32(0xffffffff);
        writer.write_zeros(1);
        writer.write_str_block(self.character_name.as_str(), 30);
        writer.write_zeros(2);
        writer.write_u32(self.client_flags.bits());
        writer.write_u32(1);
        writer.write_u32(0);
        writer.write_u8(self.profession);
        writer.write_zeros(15);
        writer.write_u8(race_and_gender_of(client_version, self.is_female, self.race));
        writer.write_u8(self.str);
        writer.write_u8(self.dex);
        writer.write_u8(self.int);
        writer.write_u8(self.skills[0].skill_id);
        writer.write_u8(self.skills[0].points);
        writer.write_u8(self.skills[1].skill_id);
        writer.write_u8(self.skills[1].points);
        writer.write_u8(self.skills[2].skill_id);
        writer.write_u8(self.skills[2].points);
        writer.write_u16(self.hue);
        writer.write_u16(self.hair.graphic);
        writer.write_u16(self.hair.hue);
        writer.write_u16(self.beard.graphic);
        writer.write_u16(self.beard.hue);
        writer.write_u16(self.city_index);
        writer.write_zeros(2);
        writer.write_u16(self.slot);
        writer.write_u32(self.ip);
        writer.write_u16(self.shirt_hue);
        writer.write_u16(self.pants_hue);
        assert(writer@ =~= old(writer)@ + self.wire(false, client_version));
    }

    #[verifier::rlimit(40)]
    #[verifier::spinoff_prover]
    proof fn lemma_roundtrip_enhanced(&self, client_version: ClientVersion)
        requires
            self.roundtrips(true, client_version),
        ensures
            CreateCharacter::decode_error(true, self.wire(true, client_version)) is None,
            CreateCharacter::decodes_to(true, client_version, self.wire(true, client_version), *self),
    {
        let w = self.wire(true, client_version);
        assert(w.subrange(0, 4) =~= u32_be(0xedededed));
        lemma_be_u32_roundtrip(0xedededed, w, 0);
        assert(w.subrange(4, 8) =~= u32_be(0xffffffff));
        lemma_be_u32_roundtrip(0xffffffff, w, 4);
        assert(w.subrange(9, 39) =~= str_block_bytes(encode_utf8(self.character_name@), 30));
        lemma_str_block_roundtrip(self.character_name@, 30);
        assert(w.subrange(9, 39) == str_block_bytes(encode_utf8(self.character_name@), 30));
        assert(w.subrange(41, 45) =~= u32_be(self.client_flags@));
        lemma_be_u32_roundtrip(self.client_flags@, w, 41);
        assert(w.subrange(53, 54) =~= seq![self.profession]);
        assert(w.subrange(69, 70) =~= seq![encoded_race_and_gender(client_version, self.is_female, self.race)]);
        assert(w.subrange(70, 71) =~= seq![self.str]);
        assert(w.subrange(71, 72) =~= seq![self.dex]);
        assert(w.subrange(72, 73) =~= seq![self.int]);
        assert(w.subrange(73, 75) =~= seq![self.skills@[0].skill_id, self.skills@[0].points]);
        assert(w.subrange(75, 77) =~= seq![self.skills@[1].skill_id, self.skills@[1].points]);
        assert(w.subrange(77, 79) =~= seq![self.skills@[2].skill_id, self.skills@[2].points]);
        assert(w.subrange(79, 81) =~= seq![self.skills@[3].skill_id, self.skills@[3].points]);
        assert(w.subrange(81, 83) =~= u16_be(self.hue));
        lemma_be_u16_roundtrip(self.hue, w, 81);
        assert(w.subrange(83, 85) =~= u16_be(self.hair.graphic));
        lemma_be_u16_roundtrip(self.hair.graphic, w, 83);
        assert(w.subrange(85, 87) =~= u16_be(self.hair.hue));
        lemma_be_u16_roundtrip(self.hair.hue, w, 85);
        assert(w.subrange(87, 89) =~= u16_be(self.beard.graphic));
        lemma_be_u16_roundtrip(self.beard.graphic, w, 87);
        assert(w.subrange(89, 91) =~= u16_be(self.beard.hue));
        lemma_be_u16_roundtrip(self.beard.hue, w, 89);
        assert(w.subrange(91, 93) =~= u16_be(self.city_index));
        lemma_be_u16_roundtrip(self.city_index, w, 91);
        assert(w.subrange(95, 97) =~= u16_be(self.slot));
        lemma_be_u16_roundtrip(self.slot, w, 95);
        assert(w.subrange(97, 101) =~= u32_be(self.ip));
        lemma_be_u32_roundtrip(self.ip, w, 97);
        assert(w.subrange(101, 103) =~= u16_be(self.shirt_hue));
        lemma_be_u16_roundtrip(self.shirt_hue, w, 101);
        assert(w.subrange(103, 105) =~= u16_be(self.pants_hue));
        lemma_be_u16_roundtrip(self.pants_hue, w, 103);
    }

    #[verifier::rlimit(40)]
    #[verifier::spinoff_prover]
    proof fn lemma_roundtrip_classic(&self, client_version: ClientVersion)
        requires
            self.roundtrips(false, client_version),
        ensures
            CreateCharacter::decode_error(false, self.wire(false, client_version)) is None,
            CreateCharacter::decodes_to(false, client_version, self.wire(false, client_version), *self),
    {
        let w = self.wire(false, client_version);
        assert(w.subrange(0, 4) =~= u32_be(0xedededed));
        lemma_be_u32_roundtrip(0xedededed, w, 0);
        assert(w.subrange(4, 8) =~= u32_be(0xffffffff));
        lemma_be_u32_roundtrip(0xffffffff, w, 4);
        assert(w.subrange(9, 39) =~= str_block_bytes(encode_utf8(self.character_name@), 30));
        lemma_str_block_roundtrip(self.character_name@, 30);
        assert(w.subrange(9, 39) == str_block_bytes(encode_utf8(self.character_name@), 30));
        assert(w.subrange(41, 45) =~= u32_be(self.client_flags@));
        lemma_be_u32_roundtrip(self.client_flags@, w, 41);
        assert(w.subrange(53, 54) =~= seq![self.profession]);
        assert(w.subrange(69, 70) =~= seq![encoded_race_and_gender(client_version, self.is_female, self.race)]);
        assert(w.subrange(70, 71) =~= seq![self.str]);
        assert(w.subrange(71, 72) =~= seq![self.dex]);
        assert(w.subrange(72, 73) =~= seq![self.int]);
        assert(w.subrange(73, 75) =~= seq![self.skills@[0].skill_id, self.skills@[0].points]);
        assert(w.subrange(75, 77) =~= seq![self.skills@[1].skill_id, self.skills@[1].points]);
        assert(w.subrange(77, 79) =~= seq![self.skills@[2].skill_id, self.skills@[2].points]);
        assert(w.subrange(79, 81) =~= u16_be(self.hue));
        lemma_be_u16_roundtrip(self.hue, w, 79);
        assert(w.subrange(81, 83) =~= u16_be(self.hair.graphic));
        lemma_be_u16_roundtrip(self.hair.graphic, w, 81);
        assert(w.subrange(83, 85) =~= u16_be(self.hair.hue));
        lemma_be_u16_roundtrip(self.hair.hue, w, 83);
        assert(w.subrange(85, 87) =~= u16_be(self.beard.graphic));
        lemma_be_u16_roundtrip(self.beard.graphic, w, 85);
        assert(w.subrange(87, 89) =~= u16_be(self.beard.hue));
        lemma_be_u16_roundtrip(self.beard.hue, w, 87);
        assert(w.subrange(89, 91) =~= u16_be(self.city_index));
        lemma_be_u16_roundtrip(self.city_index, w, 89);
        assert(w.subrange(93, 95) =~= u16_be(self.slot));
        lemma_be_u16_roundtrip(self.slot, w, 93);
        assert(w.subrange(95, 99) =~= u32_be(self.ip));
        lemma_be_u32_roundtrip(self.ip, w, 95);
        assert(w.subrange(99, 101) =~= u16_be(self.shirt_hue));
        lemma_be_u16_roundtrip(self.shirt_hue, w, 99);
        assert(w.subrange(101, 103) =~= u16_be(self.pants_hue));
        lemma_be_u16_roundtrip(self.pants_hue, w, 101);
    }

    pub proof fn lemma_roundtrip(&self, extended: bool, client_version: ClientVersion)
        requires
            self.roundtrips(extended, client_version),
        ensures
            CreateCharacter::decode_error(extended, self.wire(extended, client_version)) is None,
            CreateCharacter::decodes_to(extended, client_version, self.wire(extended, client_version), *self),
    {
        if extended {
            self.lemma_roundtrip_enhanced(client_version);
        } else {
            self.lemma_roundtrip_classic(client_version);
        }
    }
}

/// Character creation as sent by the classic client.
#[derive(Debug, Clone)]
pub struct CreateCharacterClassic(pub CreateCharacter);

/// Character creation as sent by the enhanced client, with a fourth skill.
#[derive(Debug, Clone)]
pub struct CreateCharacterEnhanced(pub CreateCharacter);

impl Packet for CreateCharacterClassic {
    open spec fn spec_packet_kind() -> u8 {
        0
    }

    open spec fn spec_fixed_length(client_version: ClientVersion) -> Option<usize> {
        Some(104)
    }

    open spec fn wire(&self, client_version: ClientVersion, to_client: bool) -> Seq<u8> {
        self.0.wire(false, client_version)
    }

    open spec fn can_encode(&self, client_version: ClientVersion, to_client: bool) -> bool {
        true
    }

    open spec fn decode_error(client_version: ClientVersion, from_client: bool, s: Seq<u8>) -> Option<ProtocolError> {
        CreateCharacter::decode_error(false, s)
    }

    open spec fn decodes_to(client_version: ClientVersion, from_client: bool, s: Seq<u8>, p: Self) -> bool {
        CreateCharacter::decodes_to(false, client_version, s, p.0)
    }

    open spec fn roundtrips(&self, client_version: ClientVersion, to_client: bool) -> bool {
        self.0.roundtrips(false, client_version)
    }

    fn packet_kind() -> (r: u8) {
        0
    }

    fn fixed_length(client_version: ClientVersion) -> (r: Option<usize>) {
        Some(104)
    }

    fn decode(client_version: ClientVersion, from_client: bool, payload: &[u8]) -> (r: Result<Self, ProtocolError>) {
        match CreateCharacter::decode(false, client_version, payload) {
            Ok(c) => Ok(CreateCharacterClassic(c)),
            Err(e) => Err(e),
        }
    }

    fn encode(&self, client_version: ClientVersion, to_client: bool, writer: &mut Vec<u8>) -> (r: Result<(), ProtocolError>) {
        self.0.encode(false, client_version, writer);
        Ok(())
    }

    proof fn lemma_roundtrip(&self, client_version: ClientVersion, to_client: bool) {
        let w = self.wire(client_version, to_client);
        self.0.lemma_roundtrip(false, client_version);
    }
}
impl Packet for CreateCharacterEnhanced {
    open spec fn spec_packet_kind() -> u8 {
        0xf8
    }

    open spec fn spec_fixed_length(client_version: ClientVersion) -> Option<usize> {
        Some(106)
    }

    open spec fn wire(&self, client_version: ClientVersion, to_client: bool) -> Seq<u8> {
        self.0.wire(true, client_version)
    }

    open spec fn can_encode(&self, client_version: ClientVersion, to_client: bool) -> bool {
        true
    }

    open spec fn decode_error(client_version: ClientVersion, from_client: bool, s: Seq<u8>) -> Option<ProtocolError> {
        CreateCharacter::decode_error(true, s)
    }

    open spec fn decodes_to(client_version: ClientVersion, from_client: bool, s: Seq<u8>, p: Self) -> bool {
        CreateCharacter::decodes_to(true, client_version, s, p.0)
    }

    open spec fn roundtrips(&self, client_version: ClientVersion, to_client: bool) -> bool {
        self.0.roundtrips(true, client_version)
    }

    fn packet_kind() -> (r: u8) {
        0xf8
    }

    fn fixed_length(client_version: ClientVersion) -> (r: Option<usize>) {
        Some(106)
    }

    fn decode(client_version: ClientVersion, from_client: bool, payload: &[u8]) -> (r: Result<Self, ProtocolError>) {
        match CreateCharacter::decode(true, client_version, payload) {
            Ok(c) => Ok(CreateCharacterEnhanced(c)),
            Err(e) => Err(e),
        }
    }

    fn encode(&self, client_version: ClientVersion, to_client: bool, writer: &mut Vec<u8>) -> (r: Result<(), ProtocolError>) {
        self.0.encode(true, client_version, writer);
        Ok(())
    }

    proof fn lemma_roundtrip(&self, client_version: ClientVersion, to_client: bool) {
        let w = self.wire(client_version, to_client);
        self.0.lemma_roundtrip(true, client_version);
    }
}

/// The client's version, as text.
#[derive(Debug, Clone, Default)]
pub struct ClientVersionRequest {
    pub version: String,
}

impl Packet for ClientVersionRequest {
    open spec fn spec_packet_kind() -> u8 {
        0xbd
    }

    open spec fn spec_fixed_length(client_version: ClientVersion) -> Option<usize> {
        None
    }

    open spec fn wire(&self, client_version: ClientVersion, to_client: bool) -> Seq<u8> {
        encode_utf8(self.version@) + seq![0u8]
    }

    open spec fn can_encode(&self, client_version: ClientVersion, to_client: bool) -> bool {
        true
    }

    open spec fn decode_error(client_version: ClientVersion, from_client: bool, s: Seq<u8>) -> Option<ProtocolError> {
        str_nul_error(s)
    }

    open spec fn decodes_to(client_version: ClientVersion, from_client: bool, s: Seq<u8>, p: Self) -> bool {
        str_nul_text(s) == Some(p.version@)
    }

    open spec fn roundtrips(&self, client_version: ClientVersion, to_client: bool) -> bool {
        no_nul_chars(self.version@)
    }

    fn packet_kind() -> (r: u8) {
        0xbd
    }

    fn fixed_length(client_version: ClientVersion) -> (r: Option<usize>) {
        None
    }

    fn decode(client_version: ClientVersion, from_client: bool, payload: &[u8]) -> (r: Result<Self, ProtocolError>) {
        let mut payload = payload;
        let version = payload.read_str_nul()?;
        Ok(ClientVersionRequest { version })
    }

    fn encode(&self, client_version: ClientVersion, to_client: bool, writer: &mut Vec<u8>) -> (r: Result<(), ProtocolError>) {
        writer.write_str_nul(self.version.as_str());
        Ok(())
    }

    proof fn lemma_roundtrip(&self, client_version: ClientVersion, to_client: bool) {
        lemma_str_nul_roundtrip(self.version@, Seq::<u8>::empty());
        assert(encode_utf8(self.version@) + seq![0u8] =~= encode_utf8(self.version@) + seq![0u8] + Seq::<u8>::empty());
    }
}

/// The connection seed message is twenty bytes: the seed, then the client
/// version's major, minor, patch and build numbers, each as a 32-bit number
/// most significant byte first.
pub proof fn lemma_seed_layout(p: Seed, client_version: ClientVersion, to_client: bool)
    ensures
        ({
            let w = p.wire(client_version, to_client);
            &&& w.len() == 20
            &&& be_u32(w, 0) == p.seed
            &&& be_u32(w, 4) == p.client_version.major as u32
            &&& be_u32(w, 8) == p.client_version.minor as u32
            &&& be_u32(w, 12) == p.client_version.patch as u32
            &&& be_u32(w, 16) == p.client_version.build as u32
        }),
{
    let w = p.wire(client_version, to_client);
    assert(w.subrange(0, 4) =~= u32_be(p.seed));
    lemma_be_u32_roundtrip(p.seed, w, 0);
    assert(w.subrange(4, 8) =~= u32_be(p.client_version.major as u32));
    lemma_be_u32_roundtrip(p.client_version.major as u32, w, 4);
    assert(w.subrange(8, 12) =~= u32_be(p.client_version.minor as u32));
    lemma_be_u32_roundtrip(p.client_version.minor as u32, w, 8);
    assert(w.subrange(12, 16) =~= u32_be(p.client_version.patch as u32));
    lemma_be_u32_roundtrip(p.client_version.patch as u32, w, 12);
    assert(w.subrange(16, 20) =~= u32_be(p.client_version.build as u32));
    lemma_be_u32_roundtrip(p.client_version.build as u32, w, 16);
}

/// An account login is sixty-one bytes: the user name in the first thirty,
/// the password in the next thirty, each padded with zeros, then the next
/// login key.
pub proof fn lemma_account_login_layout(p: AccountLogin, client_version: ClientVersion, to_client: bool)
    ensures
        ({
            let w = p.wire(client_version, to_client);
            &&& w.len() == 61
            &&& fits_str_block(p.username@, 30) ==> str_block_text(w.subrange(0, 30)) == Some(p.username@)
            &&& fits_str_block(p.password@, 30) ==> str_block_text(w.subrange(30, 60)) == Some(p.password@)
            &&& w[60] == p.next_login_key
        }),
{
    let w = p.wire(client_version, to_client);
    lemma_str_block_len(encode_utf8(p.username@), 30);
    lemma_str_block_len(encode_utf8(p.password@), 30);
    assert(w.subrange(0, 30) =~= str_block_bytes(encode_utf8(p.username@), 30));
    assert(w.subrange(30, 60) =~= str_block_bytes(encode_utf8(p.password@), 30));
    if fits_str_block(p.username@, 30) {
        lemma_str_block_roundtrip(p.username@, 30);
    }
    if fits_str_block(p.password@, 30) {
        lemma_str_block_roundtrip(p.password@, 30);
    }
}

/// A server switch is ten bytes: the address, the port and the token, each
/// most significant byte first.
pub proof fn lemma_switch_server_layout(p: SwitchServer, client_version: ClientVersion, to_client: bool)
    ensures
        ({
            let w = p.wire(client_version, to_client);
            &&& w.len() == 10
            &&& be_u32(w, 0) == p.ip
            &&& be_u16(w, 4) == p.port
            &&& be_u32(w, 6) == p.token
        }),
{
    let w = p.wire(client_version, to_client);
    assert(w.subrange(0, 4) =~= u32_be(p.ip));
    lemma_be_u32_roundtrip(p.ip, w, 0);
    assert(w.subrange(4, 6) =~= u16_be(p.port));
    lemma_be_u16_roundtrip(p.port, w, 4);
    assert(w.subrange(6, 10) =~= u32_be(p.token));
    lemma_be_u32_roundtrip(p.token, w, 6);
}

/// A game server login is sixty-four bytes: the token, most significant
/// byte first, then the user name and the password in thirty bytes each,
/// padded with zeros.
pub proof fn lemma_game_server_login_layout(p: GameServerLogin, client_version: ClientVersion, to_client: bool)
    ensures
        ({
            let w = p.wire(client_version, to_client);
            &&& w.len() == 64
            &&& be_u32(w, 0) == p.token
            &&& fits_str_block(p.username@, 30) ==> str_block_text(w.subrange(4, 34)) == Some(p.username@)
            &&& fits_str_block(p.password@, 30) ==> str_block_text(w.subrange(34, 64)) == Some(p.password@)
        }),
{
    let w = p.wire(client_version, to_client);
    lemma_str_block_len(encode_utf8(p.username@), 30);
    lemma_str_block_len(encode_utf8(p.password@), 30);
    assert(w.subrange(0, 4) =~= u32_be(p.token));
    lemma_be_u32_roundtrip(p.token, w, 0);
    assert(w.subrange(4, 34) =~= str_block_bytes(encode_utf8(p.username@), 30));
    assert(w.subrange(34, 64) =~= str_block_bytes(encode_utf8(p.password@), 30));
    if fits_str_block(p.username@, 30) {
        lemma_str_block_roundtrip(p.username@, 30);
    }
    if fits_str_block(p.password@, 30) {
        lemma_str_block_roundtrip(p.password@, 30);
    }
}

/// A character deletion is thirty-eight bytes: thirty zero bytes where a
/// password would go, then the character's index and the client address,
/// most significant byte first.
pub proof fn lemma_delete_character_layout(p: DeleteCharacter, client_version: ClientVersion, to_client: bool)
    ensures
        ({
            let w = p.wire(client_version, to_client);
            &&& w.len() == 38
            &&& forall|k: int| 0 <= k < 30 ==> #[trigger] w[k] == 0
            &&& be_u32(w, 30) == p.character_index
            &&& be_u32(w, 34) == p.ip
        }),
{
    let w = p.wire(client_version, to_client);
    assert(w.subrange(30, 34) =~= u32_be(p.character_index));
    lemma_be_u32_roundtrip(p.character_index, w, 30);
    assert(w.subrange(34, 38) =~= u32_be(p.ip));
    lemma_be_u32_roundtrip(p.ip, w, 34);
}

/// Entering the world is thirty-six bytes: the player's id, four zero bytes,
/// the body, the x, y and z coordinates, the direction, a zero byte, all
/// ones and all zeros in four bytes each, the map's width and height, and
/// six zero bytes; numbers most significant byte first.
pub proof fn lemma_begin_enter_world_layout(p: BeginEnterWorld, client_version: ClientVersion, to_client: bool)
    ensures
        ({
            let w = p.wire(client_version, to_client);
            &&& w.len() == 36
            &&& be_u32(w, 0) == p.mobile_id
            &&& be_u32(w, 4) == 0
            &&& be_u16(w, 8) == p.body
            &&& be_u16(w, 10) == p.position.x as u16
            &&& be_u16(w, 12) == p.position.y as u16
            &&& be_u16(w, 14) == p.position.z as u16
            &&& w[16] == p.direction.spec_repr()
            &&& w[17] == 0
            &&& be_u32(w, 18) == 0xffffffffu32
            &&& be_u32(w, 22) == 0
            &&& be_u16(w, 26) == p.map_width
            &&& be_u16(w, 28) == p.map_height
            &&& forall|k: int| 30 <= k < 36 ==> #[trigger] w[k] == 0
        }),
{
    let w = p.wire(client_version, to_client);
    assert(w.subrange(0, 4) =~= u32_be(p.mobile_id));
    lemma_be_u32_roundtrip(p.mobile_id, w, 0);
    assert(w.subrange(4, 8) =~= u32_be(0));
    lemma_be_u32_roundtrip(0, w, 4);
    assert(w.subrange(8, 10) =~= u16_be(p.body));
    lemma_be_u16_roundtrip(p.body, w, 8);
    assert(w.subrange(10, 12) =~= u16_be(p.position.x as u16));
    lemma_be_u16_roundtrip(p.position.x as u16, w, 10);
    assert(w.subrange(12, 14) =~= u16_be(p.position.y as u16));
    lemma_be_u16_roundtrip(p.position.y as u16, w, 12);
    assert(w.subrange(14, 16) =~= u16_be(p.position.z as u16));
    lemma_be_u16_roundtrip(p.position.z as u16, w, 14);
    assert(w.subrange(18, 22) =~= u32_be(0xffffffff));
    lemma_be_u32_roundtrip(0xffffffff, w, 18);
    assert(w.subrange(22, 26) =~= u32_be(0));
    lemma_be_u32_roundtrip(0, w, 22);
    assert(w.subrange(26, 28) =~= u16_be(p.map_width));
    lemma_be_u16_roundtrip(p.map_width, w, 26);
    assert(w.subrange(28, 30) =~= u16_be(p.map_height));
    lemma_be_u16_roundtrip(p.map_height, w, 28);
}

} // verus!
