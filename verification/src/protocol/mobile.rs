//! Requests about a mobile.

use vstd::prelude::*;
use vstd::utf8::*;

use crate::protocol::format::{
    be_u16, be_u32, concat_map, first_error, fits_str_block, lemma_concat_map_fixed,
    lemma_first_error_none, lemma_str_block_len, lemma_valid_utf8_zeros, is_first_zero, lemma_first_zero, str_nul_error, str_nul_text, str_nul_len, no_nul_chars, lemma_str_nul_roundtrip, lemma_be_u16_roundtrip, lemma_be_u32_roundtrip,
    lemma_i32_u32_cast, lemma_str_block_roundtrip, str_block_bytes, str_block_text, u16_be, u32_be,
    zeros, PacketReadExt, PacketWriteExt,
};
use crate::protocol::{ClientFlags, ClientVersion, Packet, ProtocolError};
use crate::vector::{IVec2, IVec3, UVec3};
use crate::{Direction, EntityId, EntityKind, Notoriety};

verus! {

broadcast use crate::lemma_entity_id_view_injective;

/// The request kind for a mobile's status.
pub const REQUEST_MOBILE_STATUS: u8 = 4;

/// The request kind for a mobile's skills.
pub const REQUEST_MOBILE_SKILLS: u8 = 4;

/// Asks for information about a mobile.
#[derive(Debug, Clone)]
pub struct MobileRequest {
    pub kind: u8,
    pub target: u32,
}

impl Packet for MobileRequest {
    open spec fn spec_packet_kind() -> u8 {
        0x34
    }

    open spec fn spec_fixed_length(client_version: ClientVersion) -> Option<usize> {
        Some(10)
    }

    open spec fn wire(&self, client_version: ClientVersion, to_client: bool) -> Seq<u8> {
        u32_be(0xedededed) + seq![self.kind] + u32_be(self.target)
    }

    open spec fn can_encode(&self, client_version: ClientVersion, to_client: bool) -> bool {
        true
    }

    open spec fn decode_error(client_version: ClientVersion, from_client: bool, s: Seq<u8>) -> Option<ProtocolError> {
        if s.len() < 9 {
            Some(ProtocolError::UnexpectedEof)
        } else {
            None
        }
    }

    open spec fn decodes_to(client_version: ClientVersion, from_client: bool, s: Seq<u8>, p: Self) -> bool {
        &&& p.kind == s[4]
        &&& p.target == be_u32(s, 5)
    }

    open spec fn roundtrips(&self, client_version: ClientVersion, to_client: bool) -> bool {
        true
    }

    fn packet_kind() -> (r: u8) {
        0x34
    }

    fn fixed_length(client_version: ClientVersion) -> (r: Option<usize>) {
        Some(10)
    }

    fn decode(client_version: ClientVersion, from_client: bool, payload: &[u8]) -> (r: Result<Self, ProtocolError>) {
        let ghost s = payload@;
        let mut payload = payload;
        payload.skip(4)?;
        assert(payload@ =~= s.skip(4));
        let kind = payload.read_u8()?;
        assert(payload@ =~= s.skip(5));
        let target = payload.read_u32()?;
        assert(payload@ =~= s.skip(9));
        Ok(MobileRequest { kind, target })
    }

    fn encode(&self, client_version: ClientVersion, to_client: bool, writer: &mut Vec<u8>) -> (r: Result<(), ProtocolError>) {
        writer.write_u32(0xedededed);
        writer.write_u8(self.kind);
        writer.write_u32(self.target);
        assert(writer@ =~= old(writer)@ + self.wire(client_version, to_client));
        Ok(())
    }

    proof fn lemma_roundtrip(&self, client_version: ClientVersion, to_client: bool) {
        let w = self.wire(client_version, to_client);
        assert(w.subrange(4, 5) =~= seq![self.kind]);
        assert(w.subrange(5, 9) =~= u32_be(self.target));
        lemma_be_u32_roundtrip(self.target, w, 5);
    }
}

/// A mobile request is nine bytes: the marker 0xedededed, the request kind and
/// the target, numbers most significant byte first.
pub proof fn lemma_mobile_request_layout(p: MobileRequest, client_version: ClientVersion, to_client: bool)
    ensures
        ({
            let w = p.wire(client_version, to_client);
            &&& w.len() == 9
            &&& be_u32(w, 0) == 0xededededu32
            &&& w[4] == p.kind
            &&& be_u32(w, 5) == p.target
        }),
{
    let w = p.wire(client_version, to_client);
    assert(w.subrange(0, 4) =~= u32_be(0xededededu32));
    lemma_be_u32_roundtrip(0xededededu32, w, 0);
    assert(w.subrange(5, 9) =~= u32_be(p.target));
    lemma_be_u32_roundtrip(p.target, w, 5);
}

} // verus!
