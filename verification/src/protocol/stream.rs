//! Packets on a connection: the bytes a packet goes out as, the writer's
//! compression and encryption of them, and reading packets back out of the
//! bytes received.

use vstd::prelude::*;

use crate::protocol::any::{lemma_any_roundtrip, AnyPacket, OutgoingPacket, PacketRegistration};
use crate::protocol::compression::{huffman_compress, huffman_compressed};
use crate::protocol::encryption::{client_to_server_crypted, server_to_client_crypted, Encryption};
use crate::protocol::format::{be_u16, lemma_be_u16_roundtrip, u16_be, u32_be, PacketWriteExt};
use crate::protocol::{ClientVersion, ProtocolError};

verus! {

/// The length field of a packet without fixed length: the whole length, kind
/// byte and field included, kept to its low 16 bits.
pub open spec fn frame_length_field(payload_len: nat) -> u16 {
    ((payload_len + 3) % 0x10000) as u16
}

/// The bytes a packet goes out as: its kind byte, the length field when the
/// length is not fixed, then the payload.
pub open spec fn frame_bytes(kind: u8, fixed: Option<usize>, payload: Seq<u8>) -> Seq<u8> {
    match fixed {
        Some(_) => seq![kind] + payload,
        None => seq![kind] + u16_be(frame_length_field(payload.len())) + payload,
    }
}

/// The packet encodes, and when its length is fixed, to that length.
pub open spec fn frame_fits<P: OutgoingPacket>(packet: &P, client_version: ClientVersion, to_client: bool) -> bool {
    &&& packet.spec_outgoing_can_encode(client_version, to_client)
    &&& packet.spec_outgoing_fixed_length(client_version) matches Some(n) ==> n == packet.spec_outgoing_wire(
        client_version,
        to_client,
    ).len() + 1
}

/// The frame of a packet.
pub open spec fn packet_frame<P: OutgoingPacket>(packet: &P, client_version: ClientVersion, to_client: bool) -> Seq<u8> {
    frame_bytes(
        packet.spec_outgoing_kind(),
        packet.spec_outgoing_fixed_length(client_version),
        packet.spec_outgoing_wire(client_version, to_client),
    )
}

/// Appends the frame of `packet` to `buffer`. A packet whose length is fixed
/// but that encodes to another length is refused.
pub fn write_frame<P: OutgoingPacket>(
    buffer: &mut Vec<u8>,
    client_version: ClientVersion,
    to_client: bool,
    packet: &P,
) -> (r: Result<(), ProtocolError>)
    ensures
        r is Ok <==> frame_fits(packet, client_version, to_client),
        r is Ok ==> final(buffer)@ == old(buffer)@ + packet_frame(packet, client_version, to_client),
        r is Err ==> final(buffer)@ == old(buffer)@,
        packet.spec_outgoing_can_encode(client_version, to_client) && r is Err ==> r == Err::<(), ProtocolError>(
            ProtocolError::InvalidValue,
        ),
{
    let kind = packet.packet_kind();
    let mut payload: Vec<u8> = Vec::new();
    match packet.encode(client_version, to_client, &mut payload) {
        Ok(()) => {},
        Err(e) => return Err(e),
    }
    assert(payload@ =~= packet.spec_outgoing_wire(client_version, to_client));
    match packet.fixed_length(client_version) {
        Some(n) => {
            if n == 0 || n - 1 != payload.len() {
                return Err(ProtocolError::InvalidValue);
            }
            buffer.push(kind);
        },
        None => {
            let field = (((payload.len() % 0x10000) + 3) % 0x10000) as u16;
            proof {
                vstd::arithmetic::div_mod::lemma_add_mod_noop(payload@.len() as int, 3, 0x10000);
            }
            buffer.push(kind);
            buffer.write_u16(field);
        },
    }
    buffer.write_bytes(payload.as_slice());
    assert(buffer@ =~= old(buffer)@ + packet_frame(packet, client_version, to_client));
    Ok(())
}

/// How reading a packet from the front of `data` goes: `Ok(None)` while more
/// bytes are needed, else the packet type with the range of its payload, or
/// the error. An unknown kind byte is unsupported; a length field below three
/// is invalid.
pub open spec fn frame_extent(client_version: ClientVersion, data: Seq<u8>) -> Result<
    Option<(PacketRegistration, int, int)>,
    ProtocolError,
> {
    if data.len() < 1 {
        Ok(None)
    } else {
        match PacketRegistration::spec_for_kind(data[0]) {
            None => Err(ProtocolError::Unsupported),
            Some(reg) => match reg.spec_fixed_length(client_version) {
                Some(n) => if n == 0 {
                    Err(ProtocolError::InvalidValue)
                } else if data.len() < n {
                    Ok(None)
                } else {
                    Ok(Some((reg, 1, n as int)))
                },
                None => if data.len() < 3 {
                    Ok(None)
                } else if be_u16(data, 1) < 3 {
                    Err(ProtocolError::InvalidValue)
                } else if data.len() < be_u16(data, 1) {
                    Ok(None)
                } else {
                    Ok(Some((reg, 3, be_u16(data, 1) as int)))
                },
            },
        }
    }
}

/// Reads the packet at the front of `data`: `Ok(None)` when more bytes are
/// needed, else the packet and the number of bytes its frame takes.
pub fn decode_frame(client_version: ClientVersion, from_client: bool, data: &[u8]) -> (r: Result<
    Option<(AnyPacket, usize)>,
    ProtocolError,
>)
    ensures
        match frame_extent(client_version, data@) {
            Err(e) => r == Err::<Option<(AnyPacket, usize)>, ProtocolError>(e),
            Ok(None) => r == Ok::<Option<(AnyPacket, usize)>, ProtocolError>(None),
            Ok(Some((reg, start, end))) => match r {
                Ok(Some((p, n))) => {
                    &&& n == end
                    &&& reg.spec_decode_error(client_version, from_client, data@.subrange(start, end)) is None
                    &&& reg.spec_decodes_to(client_version, from_client, data@.subrange(start, end), p)
                },
                Err(e) => reg.spec_decode_error(client_version, from_client, data@.subrange(start, end)) == Some(e),
                Ok(None) => false,
            },
        },
{
    if data.len() < 1 {
        return Ok(None);
    }
    let reg = match AnyPacket::registration_for(data[0]) {
        Some(reg) => reg,
        None => return Err(ProtocolError::Unsupported),
    };
    let (start, end) = match reg.fixed_length(client_version) {
        Some(n) => {
            if n == 0 {
                return Err(ProtocolError::InvalidValue);
            }
            if data.len() < n {
                return Ok(None);
            }
            (1usize, n)
        },
        None => {
            if data.len() < 3 {
                return Ok(None);
            }
            let length = (data[1] as usize) * 0x100 + (data[2] as usize);
            if length < 3 {
                return Err(ProtocolError::InvalidValue);
            }
            if data.len() < length {
                return Ok(None);
            }
            (3usize, length)
        },
    };
    let payload = vstd::slice::slice_subrange(data, start, end);
    match reg.decode(client_version, from_client, payload) {
        Ok(p) => Ok(Some((p, end))),
        Err(e) => Err(e),
    }
}

/// What a frame holds, a reader reads back: the frame of a packet that
/// encodes and reads back under its own type, followed by any bytes, gives a
/// frame of the same length whose payload decodes without error to that
/// packet.
pub proof fn lemma_frame_roundtrip(a: AnyPacket, client_version: ClientVersion, to_client: bool, rest: Seq<u8>)
    requires
        frame_fits(&a, client_version, to_client),
        a.spec_roundtrips(client_version, to_client),
        PacketRegistration::spec_for_kind(a.spec_packet_kind()) == Some(a.spec_registration()),
        a.spec_fixed_length(client_version) is None ==> a.spec_wire(client_version, to_client).len() + 3 <= 0xffff,
    ensures
        ({
            let data = packet_frame(&a, client_version, to_client) + rest;
            let start: int = if a.spec_fixed_length(client_version) is Some { 1 } else { 3 };
            &&& frame_extent(client_version, data) == Ok::<Option<(PacketRegistration, int, int)>, ProtocolError>(
                Some((a.spec_registration(), start, packet_frame(&a, client_version, to_client).len() as int)),
            )
            &&& a.spec_registration().spec_decode_error(client_version, !to_client, data.subrange(start, packet_frame(&a, client_version, to_client).len() as int)) is None
            &&& a.spec_registration().spec_decodes_to(client_version, !to_client, data.subrange(start, packet_frame(&a, client_version, to_client).len() as int), a)
        }),
{
    lemma_any_roundtrip(a, client_version, to_client);
    let w = a.spec_wire(client_version, to_client);
    let f = packet_frame(&a, client_version, to_client);
    let data = f + rest;
    assert(data[0] == a.spec_packet_kind());
    match a.spec_fixed_length(client_version) {
        Some(n) => {
            assert(data.subrange(1, f.len() as int) =~= w);
        },
        None => {
            let field = frame_length_field(w.len());
            assert(field == w.len() + 3);
            assert(data.subrange(1, 3) =~= u16_be(field));
            lemma_be_u16_roundtrip(field, data, 1);
            assert(data.subrange(3, f.len() as int) =~= w);
        },
    }
}

/// What a writer keeps between packets, apart from its connection.
pub struct WriterState {
    has_sent: bool,
    to_client: bool,
    compress: bool,
    encryption: Option<Encryption>,
}

impl WriterState {
    pub closed spec fn spec_has_sent(&self) -> bool {
        self.has_sent
    }

    pub closed spec fn spec_to_client(&self) -> bool {
        self.to_client
    }

    pub closed spec fn spec_compress(&self) -> bool {
        self.compress
    }

    pub closed spec fn spec_encryption(&self) -> Option<Encryption> {
        self.encryption
    }

    /// A writer towards the client, or towards the server. A writer towards
    /// the client never sends the legacy seed.
    pub fn new(to_client: bool) -> (r: WriterState)
        ensures
            r.spec_has_sent() == to_client,
            r.spec_to_client() == to_client,
            !r.spec_compress(),
            r.spec_encryption() is None,
    {
        WriterState { has_sent: to_client, to_client, compress: false, encryption: None }
    }

    /// Compresses every packet from now on.
    pub fn enable_compression(&mut self)
        ensures
            final(self).spec_compress(),
            final(self).spec_has_sent() == old(self).spec_has_sent(),
            final(self).spec_to_client() == old(self).spec_to_client(),
            final(self).spec_encryption() == old(self).spec_encryption(),
    {
        self.compress = true;
    }

    /// Encrypts every packet from now on with this cipher, or with none.
    pub fn set_encryption(&mut self, encryption: Option<Encryption>)
        ensures
            final(self).spec_encryption() == encryption,
            final(self).spec_has_sent() == old(self).spec_has_sent(),
            final(self).spec_to_client() == old(self).spec_to_client(),
            final(self).spec_compress() == old(self).spec_compress(),
    {
        self.encryption = encryption;
    }

    /// The four bytes of the legacy seed, sent before any packet; refused
    /// once something was sent.
    pub fn send_legacy_seed(&mut self, seed: u32) -> (r: Result<Vec<u8>, ProtocolError>)
        ensures
            old(self).spec_has_sent() ==> r == Err::<Vec<u8>, ProtocolError>(ProtocolError::Unsupported)
                && *final(self) == *old(self),
            !old(self).spec_has_sent() ==> (r matches Ok(bytes) && bytes@ == u32_be(seed)),
            final(self).spec_has_sent(),
            final(self).spec_to_client() == old(self).spec_to_client(),
            final(self).spec_compress() == old(self).spec_compress(),
            final(self).spec_encryption() == old(self).spec_encryption(),
    {
        if self.has_sent {
            return Err(ProtocolError::Unsupported);
        }
        self.has_sent = true;
        let mut bytes: Vec<u8> = Vec::new();
        bytes.write_u32(seed);
        Ok(bytes)
    }

    /// The bytes that carry `packet`: its frame, compressed when compression
    /// is on, then encrypted with the cipher in place. Nothing changes when
    /// the packet cannot be framed, or when the cipher's stream position
    /// would pass `usize::MAX`.
    pub fn send<P: OutgoingPacket>(&mut self, client_version: ClientVersion, packet: &P) -> (r: Result<
        Vec<u8>,
        ProtocolError,
    >)
        ensures
            r is Err ==> *final(self) == *old(self),
            r matches Ok(bytes) ==> {
                let frame = packet_frame(packet, client_version, old(self).spec_to_client());
                let plain = if old(self).spec_compress() {
                    huffman_compressed(frame)
                } else {
                    frame
                };
                &&& frame_fits(packet, client_version, old(self).spec_to_client())
                &&& final(self).spec_has_sent()
                &&& final(self).spec_to_client() == old(self).spec_to_client()
                &&& final(self).spec_compress() == old(self).spec_compress()
                &&& match (old(self).spec_encryption(), final(self).spec_encryption()) {
                    (None, None) => bytes@ == plain,
                    (Some(e0), Some(e1)) => if old(self).spec_to_client() {
                        server_to_client_crypted(e0, e1, plain, bytes@)
                    } else {
                        client_to_server_crypted(e0, e1, plain, bytes@)
                    },
                    _ => false,
                }
            },
            !frame_fits(packet, client_version, old(self).spec_to_client()) ==> r is Err,
    {
        let mut frame: Vec<u8> = Vec::new();
        match write_frame(&mut frame, client_version, self.to_client, packet) {
            Ok(()) => {},
            Err(e) => return Err(e),
        }
        assert(frame@ =~= packet_frame(packet, client_version, self.to_client));
        let mut bytes = if self.compress {
            let mut out: Vec<u8> = Vec::new();
            huffman_compress(frame.as_slice(), &mut out);
            assert(out@ =~= huffman_compressed(frame@));
            out
        } else {
            frame
        };
        let ghost plain = bytes@;
        match &mut self.encryption {
            None => {},
            Some(encryption) => {
                if self.to_client {
                    if !encryption.room_to_client(bytes.len()) {
                        return Err(ProtocolError::InvalidValue);
                    }
                    encryption.crypt_server_to_client(bytes.as_mut_slice());
                } else {
                    encryption.crypt_client_to_server(bytes.as_mut_slice());
                }
            },
        }
        self.has_sent = true;
        Ok(bytes)
    }
}

} // verus!
