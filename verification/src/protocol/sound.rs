//! Music and sound effects.

use vstd::prelude::*;
use vstd::utf8::*;

use crate::protocol::format::{
    be_u16, be_u32, concat_map, first_error, fits_str_block, lemma_concat_map_fixed,
    lemma_first_error_none, lemma_str_block_len, lemma_valid_utf8_zeros, is_first_zero, lemma_first_zero, str_nul_error, str_nul_text, str_nul_len, no_nul_chars, lemma_str_nul_roundtrip, lemma_be_u16_roundtrip, lemma_be_u32_roundtrip,
    lemma_i32_u32_cast, lemma_str_block_roundtrip, str_block_bytes, str_block_text, u16_be, u32_be,
    zeros, PacketReadExt, PacketWriteExt,
};
use crate::protocol::{ClientFlags, ClientVersion, Packet, ProtocolError};
use crate::vector::{IVec2, IVec3, UVec3};
use crate::{Direction, EntityId, EntityKind, Notoriety};

verus! {

broadcast use crate::lemma_entity_id_view_injective;

/// Starts a music track.
#[derive(Debug, Clone)]
pub struct PlayMusic {
    pub track_id: u16,
}

impl Packet for PlayMusic {
    open spec fn spec_packet_kind() -> u8 {
        0x6d
    }

    open spec fn spec_fixed_length(client_version: ClientVersion) -> Option<usize> {
        Some(3)
    }

    open spec fn wire(&self, client_version: ClientVersion, to_client: bool) -> Seq<u8> {
        u16_be(self.track_id)
    }

    open spec fn can_encode(&self, client_version: ClientVersion, to_client: bool) -> bool {
        true
    }

    open spec fn decode_error(client_version: ClientVersion, from_client: bool, s: Seq<u8>) -> Option<ProtocolError> {
        if s.len() < 2 {
            Some(ProtocolError::UnexpectedEof)
        } else {
            None
        }
    }

    open spec fn decodes_to(client_version: ClientVersion, from_client: bool, s: Seq<u8>, p: Self) -> bool {
        &&& p.track_id == be_u16(s, 0)
    }

    open spec fn roundtrips(&self, client_version: ClientVersion, to_client: bool) -> bool {
        true
    }

    fn packet_kind() -> (r: u8) {
        0x6d
    }

    fn fixed_length(client_version: ClientVersion) -> (r: Option<usize>) {
        Some(3)
    }

    fn decode(client_version: ClientVersion, from_client: bool, payload: &[u8]) -> (r: Result<Self, ProtocolError>) {
        let ghost s = payload@;
        let mut payload = payload;
        let track_id = payload.read_u16()?;
        assert(payload@ =~= s.skip(2));
        Ok(PlayMusic { track_id })
    }

    fn encode(&self, client_version: ClientVersion, to_client: bool, writer: &mut Vec<u8>) -> (r: Result<(), ProtocolError>) {
        writer.write_u16(self.track_id);
        assert(writer@ =~= old(writer)@ + self.wire(client_version, to_client));
        Ok(())
    }

    proof fn lemma_roundtrip(&self, client_version: ClientVersion, to_client: bool) {
        let w = self.wire(client_version, to_client);
        assert(w.subrange(0, 2) =~= u16_be(self.track_id));
        lemma_be_u16_roundtrip(self.track_id, w, 0);
    }
}

/// Whether a sound repeats.
#[derive(Debug, Clone, Copy, PartialEq, Eq, Structural, Default)]
pub enum SoundEffectKind {
    Ambiance,
    #[default]
    OneShot,
}

impl SoundEffectKind {
    pub open spec fn spec_from_repr(v: u8) -> Option<SoundEffectKind> {
        if v == 0 {
            Some(SoundEffectKind::Ambiance)
        } else if v == 1 {
            Some(SoundEffectKind::OneShot)
        } else {
            None
        }
    }

    pub open spec fn spec_repr(&self) -> u8 {
        match self {
            SoundEffectKind::Ambiance => 0,
            SoundEffectKind::OneShot => 1,
        }
    }

    /// The value with the given wire representation, if there is one.
    pub fn from_repr(v: u8) -> (r: Option<SoundEffectKind>)
        ensures
            r == SoundEffectKind::spec_from_repr(v),
    {
        match v {
            0 => Some(SoundEffectKind::Ambiance),
            1 => Some(SoundEffectKind::OneShot),
            _ => None,
        }
    }

    /// The wire representation of this value.
    pub fn repr(&self) -> (r: u8)
        ensures
            r == self.spec_repr(),
            SoundEffectKind::spec_from_repr(r) == Some(*self),
    {
        match self {
            SoundEffectKind::Ambiance => 0,
            SoundEffectKind::OneShot => 1,
        }
    }
}

/// Plays a sound effect at a place.
#[derive(Debug, Clone)]
pub struct PlaySoundEffect {
    pub kind: SoundEffectKind,
    pub sound_effect_id: u16,
    pub position: IVec3,
}

impl Packet for PlaySoundEffect {
    open spec fn spec_packet_kind() -> u8 {
        0x54
    }

    open spec fn spec_fixed_length(client_version: ClientVersion) -> Option<usize> {
        Some(12)
    }

    open spec fn wire(&self, client_version: ClientVersion, to_client: bool) -> Seq<u8> {
        seq![self.kind.spec_repr()] + u16_be(self.sound_effect_id) + u16_be(0) + u16_be(self.position.x as u16) + u16_be(self.position.y as u16) + u16_be(self.position.z as u16)
    }

    open spec fn can_encode(&self, client_version: ClientVersion, to_client: bool) -> bool {
        true
    }

    open spec fn decode_error(client_version: ClientVersion, from_client: bool, s: Seq<u8>) -> Option<ProtocolError> {
        if s.len() < 1 {
            Some(ProtocolError::UnexpectedEof)
        } else if SoundEffectKind::spec_from_repr(s[0]) is None {
            Some(ProtocolError::InvalidValue)
        } else if s.len() < 11 {
            Some(ProtocolError::UnexpectedEof)
        } else {
            None
        }
    }

    open spec fn decodes_to(client_version: ClientVersion, from_client: bool, s: Seq<u8>, p: Self) -> bool {
        &&& Some(p.kind) == SoundEffectKind::spec_from_repr(s[0])
        &&& p.sound_effect_id == be_u16(s, 1)
        &&& p.position.x == be_u16(s, 5) as i32
        &&& p.position.y == be_u16(s, 7) as i32
        &&& p.position.z == be_u16(s, 9) as i32
    }

    open spec fn roundtrips(&self, client_version: ClientVersion, to_client: bool) -> bool {
        0 <= self.position.x <= 0xffff && 0 <= self.position.y <= 0xffff && 0 <= self.position.z <= 0xffff
    }

    fn packet_kind() -> (r: u8) {
        0x54
    }

    fn fixed_length(client_version: ClientVersion) -> (r: Option<usize>) {
        Some(12)
    }

    fn decode(client_version: ClientVersion, from_client: bool, payload: &[u8]) -> (r: Result<Self, ProtocolError>) {
        let ghost s = payload@;
        let mut payload = payload;
        let kind = match SoundEffectKind::from_repr(payload.read_u8()?) {
            Some(v) => v,
            None => return Err(ProtocolError::InvalidValue),
        };
        assert(payload@ =~= s.skip(1));
        let sound_effect_id = payload.read_u16()?;
        assert(payload@ =~= s.skip(3));
        payload.skip(2)?;
        assert(payload@ =~= s.skip(5));
        let x = payload.read_u16()? as i32;
        assert(payload@ =~= s.skip(7));
        let y = payload.read_u16()? as i32;
        assert(payload@ =~= s.skip(9));
        let z = payload.read_u16()? as i32;
        assert(payload@ =~= s.skip(11));
        Ok(PlaySoundEffect { kind, sound_effect_id, position: IVec3::new(x, y, z) })
    }

    fn encode(&self, client_version: ClientVersion, to_client: bool, writer: &mut Vec<u8>) -> (r: Result<(), ProtocolError>) {
        writer.write_u8(self.kind.repr());
        writer.write_u16(self.sound_effect_id);
        writer.write_u16(0);
        writer.write_u16(self.position.x as u16);
        writer.write_u16(self.position.y as u16);
        writer.write_u16(self.position.z as u16);
        assert(writer@ =~= old(writer)@ + self.wire(client_version, to_client));
        Ok(())
    }

    proof fn lemma_roundtrip(&self, client_version: ClientVersion, to_client: bool) {
        let w = self.wire(client_version, to_client);
        assert(w.subrange(0, 1) =~= seq![self.kind.spec_repr()]);
        assert(w.subrange(1, 3) =~= u16_be(self.sound_effect_id));
        lemma_be_u16_roundtrip(self.sound_effect_id, w, 1);
        assert(w.subrange(5, 7) =~= u16_be(self.position.x as u16));
        lemma_be_u16_roundtrip(self.position.x as u16, w, 5);
        assert(w.subrange(7, 9) =~= u16_be(self.position.y as u16));
        lemma_be_u16_roundtrip(self.position.y as u16, w, 7);
        assert(w.subrange(9, 11) =~= u16_be(self.position.z as u16));
        lemma_be_u16_roundtrip(self.position.z as u16, w, 9);
    }
}

/// Music is its track number, most significant byte first.
pub proof fn lemma_play_music_layout(p: PlayMusic, client_version: ClientVersion, to_client: bool)
    ensures
        ({
            let w = p.wire(client_version, to_client);
            &&& w.len() == 2
            &&& be_u16(w, 0) == p.track_id
        }),
{
    let w = p.wire(client_version, to_client);
    assert(w.subrange(0, 2) =~= u16_be(p.track_id));
    lemma_be_u16_roundtrip(p.track_id, w, 0);
}

/// A sound effect is eleven bytes: its kind, the effect number, a zero
/// 16-bit field, and the x, y and z coordinates, numbers most significant byte
/// first.
pub proof fn lemma_play_sound_effect_layout(p: PlaySoundEffect, client_version: ClientVersion, to_client: bool)
    ensures
        ({
            let w = p.wire(client_version, to_client);
            &&& w.len() == 11
            &&& w[0] == p.kind.spec_repr()
            &&& be_u16(w, 1) == p.sound_effect_id
            &&& be_u16(w, 3) == 0u16
            &&& be_u16(w, 5) == p.position.x as u16
            &&& be_u16(w, 7) == p.position.y as u16
            &&& be_u16(w, 9) == p.position.z as u16
        }),
{
    let w = p.wire(client_version, to_client);
    assert(w.subrange(1, 3) =~= u16_be(p.sound_effect_id));
    lemma_be_u16_roundtrip(p.sound_effect_id, w, 1);
    assert(w.subrange(3, 5) =~= u16_be(0u16));
    lemma_be_u16_roundtrip(0u16, w, 3);
    assert(w.subrange(5, 7) =~= u16_be(p.position.x as u16));
    lemma_be_u16_roundtrip(p.position.x as u16, w, 5);
    assert(w.subrange(7, 9) =~= u16_be(p.position.y as u16));
    lemma_be_u16_roundtrip(p.position.y as u16, w, 7);
    assert(w.subrange(9, 11) =~= u16_be(p.position.z as u16));
    lemma_be_u16_roundtrip(p.position.z as u16, w, 9);
}

} // verus!
