//! Packets about the world: time of day, season and view range.

use vstd::prelude::*;
use vstd::utf8::*;

use crate::protocol::format::{
    be_u16, be_u32, concat_map, first_error, fits_str_block, lemma_concat_map_fixed,
    lemma_first_error_none, lemma_str_block_len, lemma_valid_utf8_zeros, is_first_zero, lemma_first_zero, str_nul_error, str_nul_text, str_nul_len, no_nul_chars, lemma_str_nul_roundtrip, lemma_be_u16_roundtrip, lemma_be_u32_roundtrip,
    lemma_i32_u32_cast, lemma_str_block_roundtrip, str_block_bytes, str_block_text, u16_be, u32_be,
    zeros, PacketReadExt, PacketWriteExt,
};
use crate::protocol::{ClientFlags, ClientVersion, Packet, ProtocolError};
use crate::vector::{IVec2, IVec3, UVec3};
use crate::{Direction, EntityId, EntityKind, Notoriety};

verus! {

broadcast use crate::lemma_entity_id_view_injective;

/// The time of day.
#[derive(Debug, Clone)]
pub struct SetTime {
    pub hour: u8,
    pub minute: u8,
    pub second: u8,
}

impl Packet for SetTime {
    open spec fn spec_packet_kind() -> u8 {
        0x5b
    }

    open spec fn spec_fixed_length(client_version: ClientVersion) -> Option<usize> {
        Some(4)
    }

    open spec fn wire(&self, client_version: ClientVersion, to_client: bool) -> Seq<u8> {
        seq![self.hour] + seq![self.minute] + seq![self.second]
    }

    open spec fn can_encode(&self, client_version: ClientVersion, to_client: bool) -> bool {
        true
    }

    open spec fn decode_error(client_version: ClientVersion, from_client: bool, s: Seq<u8>) -> Option<ProtocolError> {
        if s.len() < 3 {
            Some(ProtocolError::UnexpectedEof)
        } else {
            None
        }
    }

    open spec fn decodes_to(client_version: ClientVersion, from_client: bool, s: Seq<u8>, p: Self) -> bool {
        &&& p.hour == s[0]
        &&& p.minute == s[1]
        &&& p.second == s[2]
    }

    open spec fn roundtrips(&self, client_version: ClientVersion, to_client: bool) -> bool {
        true
    }

    fn packet_kind() -> (r: u8) {
        0x5b
    }

    fn fixed_length(client_version: ClientVersion) -> (r: Option<usize>) {
        Some(4)
    }

    fn decode(client_version: ClientVersion, from_client: bool, payload: &[u8]) -> (r: Result<Self, ProtocolError>) {
        let ghost s = payload@;
        let mut payload = payload;
        let hour = payload.read_u8()?;
        assert(payload@ =~= s.skip(1));
        let minute = payload.read_u8()?;
        assert(payload@ =~= s.skip(2));
        let second = payload.read_u8()?;
        assert(payload@ =~= s.skip(3));
        Ok(SetTime { hour, minute, second })
    }

    fn encode(&self, client_version: ClientVersion, to_client: bool, writer: &mut Vec<u8>) -> (r: Result<(), ProtocolError>) {
        writer.write_u8(self.hour);
        writer.write_u8(self.minute);
        writer.write_u8(self.second);
        assert(writer@ =~= old(writer)@ + self.wire(client_version, to_client));
        Ok(())
    }

    proof fn lemma_roundtrip(&self, client_version: ClientVersion, to_client: bool) {
        let w = self.wire(client_version, to_client);
        assert(w.subrange(0, 1) =~= seq![self.hour]);
        assert(w.subrange(1, 2) =~= seq![self.minute]);
        assert(w.subrange(2, 3) =~= seq![self.second]);
    }
}

/// A change of season.
#[derive(Debug, Clone)]
pub struct ChangeSeason {
    pub season: u8,
    pub play_sound: bool,
}

impl Packet for ChangeSeason {
    open spec fn spec_packet_kind() -> u8 {
        0xbc
    }

    open spec fn spec_fixed_length(client_version: ClientVersion) -> Option<usize> {
        Some(3)
    }

    open spec fn wire(&self, client_version: ClientVersion, to_client: bool) -> Seq<u8> {
        seq![self.season] + seq![if self.play_sound { 1u8 } else { 0u8 }]
    }

    open spec fn can_encode(&self, client_version: ClientVersion, to_client: bool) -> bool {
        true
    }

    open spec fn decode_error(client_version: ClientVersion, from_client: bool, s: Seq<u8>) -> Option<ProtocolError> {
        if s.len() < 2 {
            Some(ProtocolError::UnexpectedEof)
        } else {
            None
        }
    }

    open spec fn decodes_to(client_version: ClientVersion, from_client: bool, s: Seq<u8>, p: Self) -> bool {
        &&& p.season == s[0]
        &&& p.play_sound == (s[1] != 0)
    }

    open spec fn roundtrips(&self, client_version: ClientVersion, to_client: bool) -> bool {
        true
    }

    fn packet_kind() -> (r: u8) {
        0xbc
    }

    fn fixed_length(client_version: ClientVersion) -> (r: Option<usize>) {
        Some(3)
    }

    fn decode(client_version: ClientVersion, from_client: bool, payload: &[u8]) -> (r: Result<Self, ProtocolError>) {
        let ghost s = payload@;
        let mut payload = payload;
        let season = payload.read_u8()?;
        assert(payload@ =~= s.skip(1));
        let play_sound = payload.read_u8()? != 0;
        assert(payload@ =~= s.skip(2));
        Ok(ChangeSeason { season, play_sound })
    }

    fn encode(&self, client_version: ClientVersion, to_client: bool, writer: &mut Vec<u8>) -> (r: Result<(), ProtocolError>) {
        writer.write_u8(self.season);
        writer.write_u8(if self.play_sound { 1 } else { 0 });
        assert(writer@ =~= old(writer)@ + self.wire(client_version, to_client));
        Ok(())
    }

    proof fn lemma_roundtrip(&self, client_version: ClientVersion, to_client: bool) {
        let w = self.wire(client_version, to_client);
        assert(w.subrange(0, 1) =~= seq![self.season]);
        assert(w.subrange(1, 2) =~= seq![if self.play_sound { 1u8 } else { 0u8 }]);
    }
}

/// How far the client sees, in tiles.
#[derive(Debug, Clone)]
pub struct ViewRange(pub u8);

impl Packet for ViewRange {
    open spec fn spec_packet_kind() -> u8 {
        0xc8
    }

    open spec fn spec_fixed_length(client_version: ClientVersion) -> Option<usize> {
        Some(2)
    }

    open spec fn wire(&self, client_version: ClientVersion, to_client: bool) -> Seq<u8> {
        seq![self.0]
    }

    open spec fn can_encode(&self, client_version: ClientVersion, to_client: bool) -> bool {
        true
    }

    open spec fn decode_error(client_version: ClientVersion, from_client: bool, s: Seq<u8>) -> Option<ProtocolError> {
        if s.len() < 1 {
            Some(ProtocolError::UnexpectedEof)
        } else {
            None
        }
    }

    open spec fn decodes_to(client_version: ClientVersion, from_client: bool, s: Seq<u8>, p: Self) -> bool {
        &&& p.0 == s[0]
    }

    open spec fn roundtrips(&self, client_version: ClientVersion, to_client: bool) -> bool {
        true
    }

    fn packet_kind() -> (r: u8) {
        0xc8
    }

    fn fixed_length(client_version: ClientVersion) -> (r: Option<usize>) {
        Some(2)
    }

    fn decode(client_version: ClientVersion, from_client: bool, payload: &[u8]) -> (r: Result<Self, ProtocolError>) {
        let ghost s = payload@;
        let mut payload = payload;
        let range = payload.read_u8()?;
        assert(payload@ =~= s.skip(1));
        Ok(ViewRange(range))
    }

    fn encode(&self, client_version: ClientVersion, to_client: bool, writer: &mut Vec<u8>) -> (r: Result<(), ProtocolError>) {
        writer.write_u8(self.0);
        assert(writer@ =~= old(writer)@ + self.wire(client_version, to_client));
        Ok(())
    }

    proof fn lemma_roundtrip(&self, client_version: ClientVersion, to_client: bool) {
        let w = self.wire(client_version, to_client);
        assert(w.subrange(0, 1) =~= seq![self.0]);
    }
}

/// The time of day is three bytes: hour, minute, second.
pub proof fn lemma_set_time_layout(p: SetTime, client_version: ClientVersion, to_client: bool)
    ensures
        ({
            let w = p.wire(client_version, to_client);
            &&& w.len() == 3
            &&& w[0] == p.hour
            &&& w[1] == p.minute
            &&& w[2] == p.second
        }),
{
    let w = p.wire(client_version, to_client);

}

/// A season change is two bytes: the season, then one when a sound plays
/// and zero when none does.
pub proof fn lemma_change_season_layout(p: ChangeSeason, client_version: ClientVersion, to_client: bool)
    ensures
        ({
            let w = p.wire(client_version, to_client);
            &&& w.len() == 2
            &&& w[0] == p.season
            &&& w[1] == (if p.play_sound { 1u8 } else { 0u8 })
        }),
{
    let w = p.wire(client_version, to_client);

}

} // verus!
