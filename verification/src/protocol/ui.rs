//! Packets that open windows on the client: paper dolls, containers,
//! chat and gumps, and the player's answers to gumps.

use vstd::prelude::*;
use vstd::utf8::*;

use crate::protocol::format::{
    str_from_utf8,
    be_u16, be_u32, concat_map, first_error, first_zero, fits_str_block, lemma_concat_map_fixed,
    lemma_first_error_none, lemma_str_block_len, lemma_valid_utf8_zeros, is_first_zero, lemma_first_zero, str_nul_error, str_nul_text, str_nul_len, no_nul_chars, lemma_str_nul_roundtrip, read_str_fixed, write_str_fixed, fixed_text_valid, lemma_fixed_roundtrip,
    nul2_index, utf16_decode_lossy, be_units, le_units, units_be, units_le, utf16_encode, utf16_pascal_bytes, fits_utf16_pascal,
    lemma_utf16_pascal_roundtrip, lemma_be_u16_roundtrip, lemma_be_u32_roundtrip,
    lemma_i32_u32_cast, lemma_str_block_roundtrip, str_block_bytes, str_block_text, u16_be, u32_be,
    zeros, PacketReadExt, PacketWriteExt, be_u16_at, be_u32_at, optional_id_field, optional_id_of, write_optional_id,
};
use crate::zlib::{zlib_compress_fast, zlib_decompress, zlib_deflate_fast, zlib_inflate};
use crate::protocol::entity::EntityFlags;
use crate::protocol::client_version::{spec_version_high_seas, version_high_seas};
use crate::protocol::{ClientFlags, ClientVersion, Packet, ProtocolError};
use crate::types::FixedString;
use crate::vector::{IVec2, IVec3, UVec3};
use crate::{Direction, EntityId, EntityKind, Notoriety};

verus! {

broadcast use crate::lemma_entity_id_view_injective;

/// Opens the chat window.
#[derive(Debug, Clone)]
pub struct OpenChatWindow;

impl Packet for OpenChatWindow {
    open spec fn spec_packet_kind() -> u8 {
        0xb5
    }

    open spec fn spec_fixed_length(client_version: ClientVersion) -> Option<usize> {
        Some(64)
    }

    open spec fn wire(&self, client_version: ClientVersion, to_client: bool) -> Seq<u8> {
        zeros(63)
    }

    open spec fn can_encode(&self, client_version: ClientVersion, to_client: bool) -> bool {
        true
    }

    open spec fn decode_error(client_version: ClientVersion, from_client: bool, s: Seq<u8>) -> Option<ProtocolError> {
        None
    }

    open spec fn decodes_to(client_version: ClientVersion, from_client: bool, s: Seq<u8>, p: Self) -> bool {
        true
    }

    open spec fn roundtrips(&self, client_version: ClientVersion, to_client: bool) -> bool {
        true
    }

    fn packet_kind() -> (r: u8) {
        0xb5
    }

    fn fixed_length(client_version: ClientVersion) -> (r: Option<usize>) {
        Some(64)
    }

    fn decode(client_version: ClientVersion, from_client: bool, payload: &[u8]) -> (r: Result<Self, ProtocolError>) {
        Ok(OpenChatWindow)
    }

    fn encode(&self, client_version: ClientVersion, to_client: bool, writer: &mut Vec<u8>) -> (r: Result<(), ProtocolError>) {
        writer.write_zeros(63);
        Ok(())
    }

    proof fn lemma_roundtrip(&self, client_version: ClientVersion, to_client: bool) {
    }
}

/// Opens a character's paper doll.
#[derive(Debug, Clone)]
pub struct OpenPaperDoll {
    pub id: EntityId,
    pub text: FixedString<60>,
    pub flags: EntityFlags,
}

impl Packet for OpenPaperDoll {
    open spec fn spec_packet_kind() -> u8 {
        0x88
    }

    open spec fn spec_fixed_length(client_version: ClientVersion) -> Option<usize> {
        Some(66)
    }

    open spec fn wire(&self, client_version: ClientVersion, to_client: bool) -> Seq<u8> {
        u32_be(self.id@) + self.text.spec_contents() + seq![self.flags@]
    }

    open spec fn can_encode(&self, client_version: ClientVersion, to_client: bool) -> bool {
        true
    }

    open spec fn decode_error(client_version: ClientVersion, from_client: bool, s: Seq<u8>) -> Option<ProtocolError> {
        if s.len() < 64 {
            Some(ProtocolError::UnexpectedEof)
        } else if !fixed_text_valid(s.subrange(4, 64)) {
            Some(ProtocolError::InvalidUtf8)
        } else if s.len() < 65 {
            Some(ProtocolError::UnexpectedEof)
        } else {
            None
        }
    }

    open spec fn decodes_to(client_version: ClientVersion, from_client: bool, s: Seq<u8>, p: Self) -> bool {
        &&& p.id@ == be_u32(s, 0)
        &&& p.text.wf() && p.text.spec_bytes() == s.subrange(4, 64).take(first_zero(s.subrange(4, 64)))
        &&& p.flags@ == (s[64] & EntityFlags::spec_all())
    }

    open spec fn roundtrips(&self, client_version: ClientVersion, to_client: bool) -> bool {
        self.text.wf() && self.text.spec_no_nul() && self.flags.spec_is_truncated()
    }

    fn packet_kind() -> (r: u8) {
        0x88
    }

    fn fixed_length(client_version: ClientVersion) -> (r: Option<usize>) {
        Some(66)
    }

    fn decode(client_version: ClientVersion, from_client: bool, payload: &[u8]) -> (r: Result<Self, ProtocolError>) {
        let ghost s = payload@;
        let mut payload = payload;
        let id = payload.read_entity_id()?;
        assert(payload@ =~= s.skip(4));
        proof {
            if payload@.len() >= 60 {
                assert(payload@.take(60) =~= s.subrange(4, 64));
            }
        }
        let text = read_str_fixed::<60>(&mut payload)?;
        assert(payload@ =~= s.skip(64));
        let flags = EntityFlags::from_bits_truncate(payload.read_u8()?);
        assert(payload@ =~= s.skip(65));
        Ok(OpenPaperDoll { id, text, flags })
    }

    fn encode(&self, client_version: ClientVersion, to_client: bool, writer: &mut Vec<u8>) -> (r: Result<(), ProtocolError>) {
        writer.write_entity_id(self.id);
        write_str_fixed(writer, &self.text);
        writer.write_u8(self.flags.bits());
        assert(writer@ =~= old(writer)@ + self.wire(client_version, to_client));
        Ok(())
    }

    proof fn lemma_roundtrip(&self, client_version: ClientVersion, to_client: bool) {
        let w = self.wire(client_version, to_client);
        assert(w.subrange(0, 4) =~= u32_be(self.id@));
        lemma_be_u32_roundtrip(self.id@, w, 0);
        lemma_fixed_roundtrip(self.text);
        assert(w.subrange(4, 64) =~= self.text.spec_contents());
        assert(w.subrange(4, 64) == self.text.spec_contents());
        assert(w.subrange(64, 65) =~= seq![self.flags@]);
    }
}

/// Opens a container's gump.
#[derive(Debug, Clone)]
pub struct OpenContainer {
    pub id: EntityId,
    pub gump_id: u16,
}

impl Packet for OpenContainer {
    open spec fn spec_packet_kind() -> u8 {
        0x24
    }

    open spec fn spec_fixed_length(client_version: ClientVersion) -> Option<usize> {
        if client_version.spec_newer_than(spec_version_high_seas()) {
            Some(9)
        } else {
            Some(7)
        }
    }

    open spec fn wire(&self, client_version: ClientVersion, to_client: bool) -> Seq<u8> {
        if client_version.spec_newer_than(spec_version_high_seas()) {
            u32_be(self.id@) + u16_be(self.gump_id) + u16_be(0x7d)
        } else {
            u32_be(self.id@) + u16_be(self.gump_id)
        }
    }

    open spec fn can_encode(&self, client_version: ClientVersion, to_client: bool) -> bool {
        true
    }

    open spec fn decode_error(client_version: ClientVersion, from_client: bool, s: Seq<u8>) -> Option<ProtocolError> {
        if client_version.spec_newer_than(spec_version_high_seas()) {
            if s.len() < 8 {
                Some(ProtocolError::UnexpectedEof)
            } else {
                None
            }
        } else {
            if s.len() < 6 {
                Some(ProtocolError::UnexpectedEof)
            } else {
                None
            }
        }
    }

    open spec fn decodes_to(client_version: ClientVersion, from_client: bool, s: Seq<u8>, p: Self) -> bool {
        if client_version.spec_newer_than(spec_version_high_seas()) {
            &&& p.id@ == be_u32(s, 0)
            &&& p.gump_id == be_u16(s, 4)
        } else {
            &&& p.id@ == be_u32(s, 0)
            &&& p.gump_id == be_u16(s, 4)
        }
    }

    open spec fn roundtrips(&self, client_version: ClientVersion, to_client: bool) -> bool {
        true
    }

    fn packet_kind() -> (r: u8) {
        0x24
    }

    fn fixed_length(client_version: ClientVersion) -> (r: Option<usize>) {
        if client_version.newer_than(version_high_seas()) {
            Some(9)
        } else {
            Some(7)
        }
    }

    fn decode(client_version: ClientVersion, from_client: bool, payload: &[u8]) -> (r: Result<Self, ProtocolError>) {
        let ghost s = payload@;
        let mut payload = payload;
        if client_version.newer_than(version_high_seas()) {
            let id = payload.read_entity_id()?;
            assert(payload@ =~= s.skip(4));
            let gump_id = payload.read_u16()?;
            assert(payload@ =~= s.skip(6));
            payload.skip(2)?;
            assert(payload@ =~= s.skip(8));
            Ok(OpenContainer { id, gump_id })
        } else {
            let id = payload.read_entity_id()?;
            assert(payload@ =~= s.skip(4));
            let gump_id = payload.read_u16()?;
            assert(payload@ =~= s.skip(6));
            Ok(OpenContainer { id, gump_id })
        }
    }

    fn encode(&self, client_version: ClientVersion, to_client: bool, writer: &mut Vec<u8>) -> (r: Result<(), ProtocolError>) {
        if client_version.newer_than(version_high_seas()) {
            writer.write_entity_id(self.id);
            writer.write_u16(self.gump_id);
            writer.write_u16(0x7d);
        } else {
            writer.write_entity_id(self.id);
            writer.write_u16(self.gump_id);
        }
        assert(writer@ =~= old(writer)@ + self.wire(client_version, to_client));
        Ok(())
    }

    proof fn lemma_roundtrip(&self, client_version: ClientVersion, to_client: bool) {
        let w = self.wire(client_version, to_client);
        if client_version.spec_newer_than(spec_version_high_seas()) {
            assert(w.subrange(0, 4) =~= u32_be(self.id@));
            lemma_be_u32_roundtrip(self.id@, w, 0);
            assert(w.subrange(4, 6) =~= u16_be(self.gump_id));
            lemma_be_u16_roundtrip(self.gump_id, w, 4);
        } else {
            assert(w.subrange(0, 4) =~= u32_be(self.id@));
            lemma_be_u32_roundtrip(self.id@, w, 0);
            assert(w.subrange(4, 6) =~= u16_be(self.gump_id));
            lemma_be_u16_roundtrip(self.gump_id, w, 4);
        }
    }
}

/// The text of each line.
pub open spec fn lines_view(v: Seq<String>) -> Seq<Seq<char>> {
    v.map_values(|t: String| t@)
}

/// Lines as length-prefixed big-endian UTF-16, one after the other.
pub open spec fn pascal_lines_wire(ls: Seq<Seq<char>>) -> Seq<u8> {
    concat_map(ls, |l: Seq<char>| utf16_pascal_bytes(l))
}

/// Reads `count` length-prefixed big-endian UTF-16 lines from `pos`: the
/// lines and the position after them, or `None` when the bytes run out.
pub open spec fn pascal_lines(s: Seq<u8>, pos: int, count: nat) -> Option<(Seq<Seq<char>>, int)>
    decreases count,
{
    if count == 0 {
        Some((Seq::empty(), pos))
    } else {
        match pascal_lines(s, pos, (count - 1) as nat) {
            None => None,
            Some((ls, at)) => if at < 0 || s.len() < at + 2 || s.len() < at + 2 + 2 * be_u16(s, at) {
                None
            } else {
                let n = be_u16(s, at) as int;
                Some((ls.push(utf16_decode_lossy(be_units(s.subrange(at + 2, at + 2 + 2 * n)))), at + 2 + 2 * n))
            },
        }
    }
}

/// Once the bytes run out for some lines, they run out for more.
proof fn lemma_pascal_lines_none_grows(s: Seq<u8>, pos: int, k: nat, count: nat)
    requires
        k <= count,
        pascal_lines(s, pos, k) is None,
    ensures
        pascal_lines(s, pos, count) is None,
    decreases count - k,
{
    if k < count {
        lemma_pascal_lines_none_grows(s, pos, k, (count - 1) as nat);
    }
}

/// Reading lines at `pos` is reading them at the start of what follows `pos`.
proof fn lemma_pascal_lines_shift(s: Seq<u8>, pos: int, count: nat)
    requires
        0 <= pos <= s.len(),
    ensures
        match pascal_lines(s.skip(pos), 0, count) {
            None => pascal_lines(s, pos, count) is None,
            Some((ls, end)) => pascal_lines(s, pos, count) == Some((ls, end + pos)),
        },
    decreases count,
{
    if count > 0 {
        lemma_pascal_lines_shift(s, pos, (count - 1) as nat);
        let t = s.skip(pos);
        match pascal_lines(t, 0, (count - 1) as nat) {
            None => {},
            Some((ls, at)) => {
                if at >= 0 && t.len() >= at + 2 {
                    assert(be_u16(t, at) == be_u16(s, at + pos));
                    let n = be_u16(t, at) as int;
                    if t.len() >= at + 2 + 2 * n {
                        assert(t.subrange(at + 2, at + 2 + 2 * n) =~= s.subrange(at + pos + 2, at + pos + 2 + 2 * n));
                    }
                }
            },
        }
    }
}

/// Every line is short enough for its 16-bit length.
pub open spec fn lines_fit(ls: Seq<Seq<char>>) -> bool {
    forall|i: int| 0 <= i < ls.len() ==> #[trigger] fits_utf16_pascal(ls[i])
}

/// Written lines read back as themselves, ending where their bytes end.
pub proof fn lemma_pascal_lines_roundtrip(ls: Seq<Seq<char>>, rest: Seq<u8>)
    requires
        lines_fit(ls),
    ensures
        pascal_lines(pascal_lines_wire(ls) + rest, 0, ls.len()) == Some((ls, pascal_lines_wire(ls).len() as int)),
    decreases ls.len(),
{
    if ls.len() == 0 {
        assert(ls =~= Seq::<Seq<char>>::empty());
    } else {
        let init = ls.drop_last();
        let last = ls.last();
        assert(fits_utf16_pascal(ls[ls.len() - 1]));
        let wi = pascal_lines_wire(init);
        let pb = utf16_pascal_bytes(last);
        assert(pascal_lines_wire(ls) == wi + pb);
        let s = pascal_lines_wire(ls) + rest;
        assert(s =~= wi + (pb + rest));
        assert forall|i: int| 0 <= i < init.len() implies #[trigger] fits_utf16_pascal(init[i]) by {
            assert(init[i] == ls[i]);
        }
        lemma_pascal_lines_roundtrip(init, pb + rest);
        let at = wi.len() as int;
        let t = pb + rest;
        lemma_utf16_pascal_roundtrip(last, rest);
        let n = be_u16(t, 0) as int;
        assert(s.skip(at) =~= t);
        assert(be_u16(s, at) == be_u16(t, 0));
        assert(s.subrange(at + 2, at + 2 + 2 * n) =~= t.subrange(2, 2 + 2 * n));
        assert(init.push(last) =~= ls);
        assert(pb.len() == 2 + 2 * n) by {
            assert(t.skip(2 + 2 * n) == rest);
        }
    }
}

/// Reads `count` lines from the front of `payload`.
fn read_pascal_lines(payload: &mut &[u8], count: usize) -> (r: Result<Vec<String>, ProtocolError>)
    ensures
        match pascal_lines(old(payload)@, 0, count as nat) {
            None => r == Err::<Vec<String>, ProtocolError>(ProtocolError::UnexpectedEof),
            Some((ls, end)) => (r matches Ok(v) && lines_view(v@) == ls && final(payload)@ == old(payload)@.skip(end)),
        },
{
    let ghost t = payload@;
    let mut lines: Vec<String> = Vec::new();
    let mut k: usize = 0;
    proof {
        assert(lines_view(lines@) =~= Seq::<Seq<char>>::empty());
        assert(payload@ =~= t.skip(0));
    }
    while k < count
        invariant
            k <= count,
            t == old(payload)@,
            lines@.len() == k,
            payload@.len() <= t.len(),
            payload@ == t.skip(t.len() - payload@.len()),
            pascal_lines(t, 0, k as nat) == Some((lines_view(lines@), t.len() - payload@.len())),
        decreases count - k,
    {
        let ghost at = t.len() - payload@.len();
        let ghost p0 = payload@;
        proof {
            if p0.len() < 2 {
                lemma_pascal_lines_none_grows(t, 0, (k + 1) as nat, count as nat);
            } else if p0.len() < 2 + 2 * be_u16(p0, 0) {
                assert(be_u16(p0, 0) == be_u16(t, at));
                lemma_pascal_lines_none_grows(t, 0, (k + 1) as nat, count as nat);
            }
        }
        let line = match payload.read_utf16_pascal() {
            Ok(v) => v,
            Err(e) => {
                return Err(e);
            },
        };
        proof {
            let n = be_u16(p0, 0) as int;
            assert(be_u16(p0, 0) == be_u16(t, at));
            assert(p0.subrange(2, 2 + 2 * n) =~= t.subrange(at + 2, at + 2 + 2 * n));
            assert(payload@ =~= t.skip(at + 2 + 2 * n));
        }
        let ghost before = lines_view(lines@);
        lines.push(line);
        proof {
            assert(lines_view(lines@) =~= before.push(line@));
        }
        k += 1;
    }
    Ok(lines)
}

/// Writes the lines one after the other.
fn write_pascal_lines(writer: &mut Vec<u8>, lines: &Vec<String>)
    ensures
        final(writer)@ == old(writer)@ + pascal_lines_wire(lines_view(lines@)),
{
    let mut i: usize = 0;
    proof {
        assert(lines_view(lines@).take(0) =~= Seq::<Seq<char>>::empty());
        assert(writer@ =~= old(writer)@ + pascal_lines_wire(lines_view(lines@).take(0)));
    }
    while i < lines.len()
        invariant
            i <= lines@.len(),
            writer@ == old(writer)@ + pascal_lines_wire(lines_view(lines@).take(i as int)),
        decreases lines@.len() - i,
    {
        let ghost before = writer@;
        writer.write_utf16_pascal(lines[i].as_str());
        proof {
            let lv = lines_view(lines@);
            assert(lv.take(i + 1).drop_last() =~= lv.take(i as int));
            assert(lv.take(i + 1).last() == lines@[i as int]@);
            assert(writer@ =~= old(writer)@ + pascal_lines_wire(lv.take(i + 1)));
        }
        i += 1;
    }
    proof {
        assert(lines_view(lines@).take(lines@.len() as int) =~= lines_view(lines@));
    }
}

/// A gump's layout commands and its text lines.
#[derive(Debug, Clone)]
pub struct GumpLayout {
    pub layout: String,
    pub text: Vec<String>,
}

/// Opens a gump whose layout travels uncompressed.
#[derive(Debug, Clone)]
pub struct OpenGump {
    pub id: u32,
    pub type_id: u32,
    pub position: IVec2,
    pub layout: GumpLayout,
}

impl Packet for OpenGump {
    open spec fn spec_packet_kind() -> u8 {
        0xb0
    }

    open spec fn spec_fixed_length(client_version: ClientVersion) -> Option<usize> {
        None
    }

    /// The layout's byte length and the line count keep their low 16 bits.
    open spec fn wire(&self, client_version: ClientVersion, to_client: bool) -> Seq<u8> {
        u32_be(self.id) + u32_be(self.type_id) + u32_be(self.position.x as u32) + u32_be(self.position.y as u32)
            + u16_be(encode_utf8(self.layout.layout@).len() as u16) + encode_utf8(self.layout.layout@)
            + u16_be(self.layout.text@.len() as u16) + pascal_lines_wire(lines_view(self.layout.text@))
    }

    open spec fn can_encode(&self, client_version: ClientVersion, to_client: bool) -> bool {
        true
    }

    /// The line count is read from the two bytes right after the layout's
    /// length, that is from the start of the layout text itself.
    open spec fn decode_error(client_version: ClientVersion, from_client: bool, s: Seq<u8>) -> Option<ProtocolError> {
        if s.len() < 18 {
            Some(ProtocolError::UnexpectedEof)
        } else if s.len() < 18 + be_u16(s, 16) {
            Some(ProtocolError::UnexpectedEof)
        } else if !valid_utf8(s.subrange(18, 18 + be_u16(s, 16))) {
            Some(ProtocolError::InvalidUtf8)
        } else if s.len() < 20 {
            Some(ProtocolError::UnexpectedEof)
        } else if pascal_lines(s, 20, be_u16(s, 18) as nat) is None {
            Some(ProtocolError::UnexpectedEof)
        } else {
            None
        }
    }

    open spec fn decodes_to(client_version: ClientVersion, from_client: bool, s: Seq<u8>, p: Self) -> bool {
        &&& p.id == be_u32(s, 0)
        &&& p.type_id == be_u32(s, 4)
        &&& p.position.x == be_u32(s, 8) as i32
        &&& p.position.y == be_u32(s, 12) as i32
        &&& p.layout.layout@ == decode_utf8(s.subrange(18, 18 + be_u16(s, 16)))
        &&& pascal_lines(s, 20, be_u16(s, 18) as nat) matches Some((ls, _end)) && lines_view(p.layout.text@) == ls
    }

    /// Only a gump without layout text reads back, as the line count is read
    /// where the layout text starts.
    open spec fn roundtrips(&self, client_version: ClientVersion, to_client: bool) -> bool {
        &&& self.layout.layout@.len() == 0
        &&& self.layout.text@.len() <= 0xffff
        &&& lines_fit(lines_view(self.layout.text@))
    }

    fn packet_kind() -> (r: u8) {
        0xb0
    }

    fn fixed_length(client_version: ClientVersion) -> (r: Option<usize>) {
        None
    }

    fn decode(client_version: ClientVersion, from_client: bool, payload: &[u8]) -> (r: Result<Self, ProtocolError>) {
        let ghost s = payload@;
        let mut payload = payload;
        let id = payload.read_u32()?;
        let type_id = payload.read_u32()?;
        let x = payload.read_i32()?;
        let y = payload.read_i32()?;
        let len = payload.read_u16()? as usize;
        assert(payload@ =~= s.skip(18));
        if payload.len() < len {
            return Err(ProtocolError::UnexpectedEof);
        }
        let bytes = vstd::slice::slice_subrange(payload, 0, len);
        assert(bytes@ =~= s.subrange(18, 18 + be_u16(s, 16)));
        let layout = match str_from_utf8(bytes) {
            Some(text) => text.to_string(),
            None => return Err(ProtocolError::InvalidUtf8),
        };
        let text_count = payload.read_u16()? as usize;
        assert(payload@ =~= s.skip(20));
        proof {
            lemma_pascal_lines_shift(s, 20, text_count as nat);
        }
        let text = read_pascal_lines(&mut payload, text_count)?;
        Ok(OpenGump { id, type_id, position: IVec2::new(x, y), layout: GumpLayout { layout, text } })
    }

    fn encode(&self, client_version: ClientVersion, to_client: bool, writer: &mut Vec<u8>) -> (r: Result<(), ProtocolError>) {
        writer.write_u32(self.id);
        writer.write_u32(self.type_id);
        writer.write_i32(self.position.x);
        writer.write_i32(self.position.y);
        let bytes = self.layout.layout.as_str().as_bytes();
        writer.write_u16(bytes.len() as u16);
        writer.write_bytes(bytes);
        writer.write_u16(self.layout.text.len() as u16);
        write_pascal_lines(writer, &self.layout.text);
        assert(bytes@ == encode_utf8(self.layout.layout@));
        assert(writer@ =~= old(writer)@ + self.wire(client_version, to_client));
        Ok(())
    }

    #[verifier::rlimit(40)]
    proof fn lemma_roundtrip(&self, client_version: ClientVersion, to_client: bool) {
        let w = self.wire(client_version, to_client);
        let ls = lines_view(self.layout.text@);
        assert(w.subrange(0, 4) =~= u32_be(self.id));
        lemma_be_u32_roundtrip(self.id, w, 0);
        assert(w.subrange(4, 8) =~= u32_be(self.type_id));
        lemma_be_u32_roundtrip(self.type_id, w, 4);
        assert(w.subrange(8, 12) =~= u32_be(self.position.x as u32));
        lemma_be_u32_roundtrip(self.position.x as u32, w, 8);
        lemma_i32_u32_cast(self.position.x);
        assert(w.subrange(12, 16) =~= u32_be(self.position.y as u32));
        lemma_be_u32_roundtrip(self.position.y as u32, w, 12);
        lemma_i32_u32_cast(self.position.y);
        assert(self.layout.layout@ =~= Seq::<char>::empty());
        assert(encode_utf8(self.layout.layout@).len() == 0);
        assert(w.subrange(16, 18) =~= u16_be(0));
        lemma_be_u16_roundtrip(0, w, 16);
        assert(w.subrange(18, 20) =~= u16_be(self.layout.text@.len() as u16));
        lemma_be_u16_roundtrip(self.layout.text@.len() as u16, w, 18);
        assert(w.subrange(18, 18) =~= Seq::<u8>::empty());
        assert(decode_utf8(Seq::<u8>::empty()) =~= Seq::<char>::empty());
        lemma_pascal_lines_roundtrip(ls, Seq::<u8>::empty());
        assert(w.skip(20) =~= pascal_lines_wire(ls) + Seq::<u8>::empty());
        lemma_pascal_lines_shift(w, 20, ls.len());
    }
}

/// `n` big-endian `u32` values from `pos`.
pub open spec fn u32_list(s: Seq<u8>, pos: int, n: nat) -> Seq<u32> {
    Seq::new(n, |i: int| be_u32(s, pos + 4 * i))
}

/// Big-endian `u32` values, one after the other.
pub open spec fn u32_list_wire(v: Seq<u32>) -> Seq<u8> {
    concat_map(v, |x: u32| u32_be(x))
}

/// Written values read back as themselves.
proof fn lemma_u32_list_roundtrip(v: Seq<u32>, s: Seq<u8>, pos: int)
    requires
        0 <= pos,
        s.len() >= pos + 4 * v.len(),
        s.subrange(pos, pos + 4 * v.len()) == u32_list_wire(v),
    ensures
        u32_list(s, pos, v.len()) == v,
{
    let f = |x: u32| u32_be(x);
    lemma_concat_map_fixed(v, f, 4);
    let w = u32_list_wire(v);
    assert forall|k: int| 0 <= k < v.len() implies #[trigger] u32_list(s, pos, v.len())[k] == v[k] by {
        assert(w.subrange(4 * k, 4 * k + 4) == f(v[k]));
        assert(s.subrange(pos + 4 * k, pos + 4 * k + 4) =~= w.subrange(4 * k, 4 * k + 4));
        lemma_be_u32_roundtrip(v[k], s, pos + 4 * k);
    }
    assert(u32_list(s, pos, v.len()) =~= v);
}

/// The player's answer to a gump: the button pressed, the switches that are
/// on and the text typed in the fields.
#[derive(Debug, Clone)]
pub struct GumpResult {
    pub id: u32,
    pub type_id: u32,
    pub button_id: u32,
    pub on_switches: Vec<u32>,
    pub text_fields: Vec<String>,
}

impl Packet for GumpResult {
    open spec fn spec_packet_kind() -> u8 {
        0xb1
    }

    open spec fn spec_fixed_length(client_version: ClientVersion) -> Option<usize> {
        None
    }

    /// The two counts keep their low 32 bits.
    open spec fn wire(&self, client_version: ClientVersion, to_client: bool) -> Seq<u8> {
        u32_be(self.id) + u32_be(self.type_id) + u32_be(self.button_id) + u32_be(self.on_switches@.len() as u32)
            + u32_list_wire(self.on_switches@) + u32_be(self.text_fields@.len() as u32)
            + pascal_lines_wire(lines_view(self.text_fields@))
    }

    open spec fn can_encode(&self, client_version: ClientVersion, to_client: bool) -> bool {
        true
    }

    open spec fn decode_error(client_version: ClientVersion, from_client: bool, s: Seq<u8>) -> Option<ProtocolError> {
        if s.len() < 16 {
            Some(ProtocolError::UnexpectedEof)
        } else if s.len() < 20 + 4 * be_u32(s, 12) {
            Some(ProtocolError::UnexpectedEof)
        } else if pascal_lines(s, 20 + 4 * be_u32(s, 12), be_u32(s, 16 + 4 * be_u32(s, 12)) as nat) is None {
            Some(ProtocolError::UnexpectedEof)
        } else {
            None
        }
    }

    open spec fn decodes_to(client_version: ClientVersion, from_client: bool, s: Seq<u8>, p: Self) -> bool {
        let n = be_u32(s, 12) as int;
        &&& p.id == be_u32(s, 0)
        &&& p.type_id == be_u32(s, 4)
        &&& p.button_id == be_u32(s, 8)
        &&& p.on_switches@ == u32_list(s, 16, n as nat)
        &&& pascal_lines(s, 20 + 4 * n, be_u32(s, 16 + 4 * n) as nat) matches Some((ls, _end))
            && lines_view(p.text_fields@) == ls
    }

    open spec fn roundtrips(&self, client_version: ClientVersion, to_client: bool) -> bool {
        &&& self.on_switches@.len() <= u32::MAX
        &&& self.text_fields@.len() <= u32::MAX
        &&& lines_fit(lines_view(self.text_fields@))
    }

    fn packet_kind() -> (r: u8) {
        0xb1
    }

    fn fixed_length(client_version: ClientVersion) -> (r: Option<usize>) {
        None
    }

    fn decode(client_version: ClientVersion, from_client: bool, payload: &[u8]) -> (r: Result<Self, ProtocolError>) {
        let ghost s = payload@;
        let mut payload = payload;
        let id = payload.read_u32()?;
        let type_id = payload.read_u32()?;
        let button_id = payload.read_u32()?;
        let switch_count = payload.read_u32()? as usize;
        assert(payload@ =~= s.skip(16));
        let mut on_switches: Vec<u32> = Vec::new();
        let mut k: usize = 0;
        #[verifier::loop_isolation(false)]
        while k < switch_count
            invariant
                k <= switch_count,
                switch_count == be_u32(s, 12),
                s.len() >= 16 + 4 * k,
                payload@ == s.skip(16 + 4 * k),
                on_switches@ == u32_list(s, 16, k as nat),
            decreases switch_count - k,
        {
            let v = match payload.read_u32() {
                Ok(v) => v,
                Err(e) => {
                    return Err(e);
                },
            };
            proof {
                assert(v == be_u32(s, 16 + 4 * k));
                assert(payload@ =~= s.skip(16 + 4 * (k + 1)));
            }
            on_switches.push(v);
            k += 1;
            proof {
                assert(on_switches@ =~= u32_list(s, 16, k as nat));
            }
        }
        let text_field_count = payload.read_u32()? as usize;
        let ghost at = 20 + 4 * switch_count;
        assert(payload@ =~= s.skip(at));
        proof {
            lemma_pascal_lines_shift(s, at, text_field_count as nat);
        }
        let text_fields = read_pascal_lines(&mut payload, text_field_count)?;
        Ok(GumpResult { id, type_id, button_id, on_switches, text_fields })
    }

    fn encode(&self, client_version: ClientVersion, to_client: bool, writer: &mut Vec<u8>) -> (r: Result<(), ProtocolError>) {
        writer.write_u32(self.id);
        writer.write_u32(self.type_id);
        writer.write_u32(self.button_id);
        writer.write_u32(self.on_switches.len() as u32);
        let ghost start = writer@;
        let mut i: usize = 0;
        proof {
            assert(self.on_switches@.take(0) =~= Seq::<u32>::empty());
            assert(writer@ =~= start + u32_list_wire(self.on_switches@.take(0)));
        }
        while i < self.on_switches.len()
            invariant
                i <= self.on_switches@.len(),
                writer@ == start + u32_list_wire(self.on_switches@.take(i as int)),
            decreases self.on_switches@.len() - i,
        {
            writer.write_u32(self.on_switches[i]);
            proof {
                let v = self.on_switches@;
                assert(v.take(i + 1).drop_last() =~= v.take(i as int));
                assert(writer@ =~= start + u32_list_wire(v.take(i + 1)));
            }
            i += 1;
        }
        assert(self.on_switches@.take(self.on_switches@.len() as int) =~= self.on_switches@);
        writer.write_u32(self.text_fields.len() as u32);
        write_pascal_lines(writer, &self.text_fields);
        assert(writer@ =~= old(writer)@ + self.wire(client_version, to_client));
        Ok(())
    }

    #[verifier::rlimit(40)]
    proof fn lemma_roundtrip(&self, client_version: ClientVersion, to_client: bool) {
        let w = self.wire(client_version, to_client);
        let v = self.on_switches@;
        let n = v.len() as int;
        let ls = lines_view(self.text_fields@);
        assert(w.subrange(0, 4) =~= u32_be(self.id));
        lemma_be_u32_roundtrip(self.id, w, 0);
        assert(w.subrange(4, 8) =~= u32_be(self.type_id));
        lemma_be_u32_roundtrip(self.type_id, w, 4);
        assert(w.subrange(8, 12) =~= u32_be(self.button_id));
        lemma_be_u32_roundtrip(self.button_id, w, 8);
        assert(w.subrange(12, 16) =~= u32_be(n as u32));
        lemma_be_u32_roundtrip(n as u32, w, 12);
        let f = |x: u32| u32_be(x);
        lemma_concat_map_fixed(v, f, 4);
        assert(w.subrange(16, 16 + 4 * n) =~= u32_list_wire(v));
        lemma_u32_list_roundtrip(v, w, 16);
        assert(w.subrange(16 + 4 * n, 20 + 4 * n) =~= u32_be(ls.len() as u32));
        lemma_be_u32_roundtrip(ls.len() as u32, w, 16 + 4 * n);
        lemma_pascal_lines_roundtrip(ls, Seq::<u8>::empty());
        assert(w.skip(20 + 4 * n) =~= pascal_lines_wire(ls) + Seq::<u8>::empty());
        lemma_pascal_lines_shift(w, 20 + 4 * n, ls.len());
    }
}

/// A gump layout as it travels compressed: each part a zlib stream, with the
/// sizes it had before compression.
#[derive(Debug, Clone)]
pub struct CompressedGumpLayout {
    pub layout_length: usize,
    pub layout: Vec<u8>,
    pub text_count: usize,
    pub text_length: usize,
    pub text: Vec<u8>,
}

/// What a compressed layout inflates to: the layout text and the lines, or
/// the error. The text stream is only read when there are lines to read.
pub open spec fn gump_layout_of(c: CompressedGumpLayout) -> Result<(Seq<char>, Seq<Seq<char>>), ProtocolError> {
    match zlib_inflate(c.layout@) {
        None => Err(ProtocolError::InvalidValue),
        Some(b) => if !valid_utf8(b) {
            Err(ProtocolError::InvalidUtf8)
        } else if c.text_count == 0 {
            Ok((decode_utf8(b), Seq::empty()))
        } else {
            match zlib_inflate(c.text@) {
                None => Err(ProtocolError::InvalidValue),
                Some(t) => match pascal_lines(t, 0, c.text_count as nat) {
                    None => Err(ProtocolError::UnexpectedEof),
                    Some((ls, _end)) => Ok((decode_utf8(b), ls)),
                },
            }
        },
    }
}

impl GumpLayout {
    /// Inflates a compressed layout.
    pub fn try_from(compressed: CompressedGumpLayout) -> (r: Result<GumpLayout, ProtocolError>)
        ensures
            match gump_layout_of(compressed) {
                Ok((layout, text)) => (r matches Ok(g) && g.layout@ == layout && lines_view(g.text@) == text),
                Err(e) => r == Err::<GumpLayout, ProtocolError>(e),
            },
    {
        let bytes = match zlib_decompress(compressed.layout.as_slice()) {
            Some(b) => b,
            None => return Err(ProtocolError::InvalidValue),
        };
        let layout = match str_from_utf8(bytes.as_slice()) {
            Some(s) => s.to_owned(),
            None => return Err(ProtocolError::InvalidUtf8),
        };
        if compressed.text_count == 0 {
            proof {
                assert(lines_view(Seq::<String>::empty()) =~= Seq::<Seq<char>>::empty());
            }
            return Ok(GumpLayout { layout, text: Vec::new() });
        }
        let data = match zlib_decompress(compressed.text.as_slice()) {
            Some(t) => t,
            None => return Err(ProtocolError::InvalidValue),
        };
        let mut reader = data.as_slice();
        let text = read_pascal_lines(&mut reader, compressed.text_count)?;
        Ok(GumpLayout { layout, text })
    }
}

impl CompressedGumpLayout {
    /// Compresses a layout; this always succeeds. What comes out inflates back
    /// to the layout when every line fits its 16-bit length.
    pub fn try_from(source: GumpLayout) -> (r: Result<CompressedGumpLayout, ProtocolError>)
        ensures
            r is Ok,
            r matches Ok(c) ==> {
                &&& c.layout_length == encode_utf8(source.layout@).len()
                &&& c.layout@ == zlib_deflate_fast(encode_utf8(source.layout@))
                &&& c.text_count == source.text@.len()
                &&& c.text_length == pascal_lines_wire(lines_view(source.text@)).len()
                &&& c.text@ == zlib_deflate_fast(pascal_lines_wire(lines_view(source.text@)))
                &&& lines_fit(lines_view(source.text@)) ==> gump_layout_of(c) == Ok::<
                    (Seq<char>, Seq<Seq<char>>),
                    ProtocolError,
                >((source.layout@, lines_view(source.text@)))
            },
    {
        let bytes = source.layout.as_str().as_bytes();
        let layout = match zlib_compress_fast(bytes) {
            Some(v) => v,
            None => return Err(ProtocolError::InvalidValue),
        };
        let mut lines: Vec<u8> = Vec::new();
        write_pascal_lines(&mut lines, &source.text);
        assert(lines@ =~= pascal_lines_wire(lines_view(source.text@)));
        let text = match zlib_compress_fast(lines.as_slice()) {
            Some(v) => v,
            None => return Err(ProtocolError::InvalidValue),
        };
        let c = CompressedGumpLayout {
            layout_length: bytes.len(),
            layout,
            text_count: source.text.len(),
            text_length: lines.len(),
            text,
        };
        proof {
            let ls = lines_view(source.text@);
            encode_utf8_valid_utf8(source.layout@);
            encode_utf8_decode_utf8(source.layout@);
            if lines_fit(ls) {
                lemma_pascal_lines_roundtrip(ls, Seq::<u8>::empty());
                assert(pascal_lines_wire(ls) + Seq::<u8>::empty() =~= pascal_lines_wire(ls));
                if source.text@.len() == 0 {
                    assert(ls =~= Seq::<Seq<char>>::empty());
                }
            }
        }
        Ok(c)
    }
}

/// Opens a gump whose layout travels compressed.
#[derive(Debug, Clone)]
pub struct OpenGumpCompressed {
    pub id: u32,
    pub type_id: u32,
    pub position: IVec2,
    pub layout: CompressedGumpLayout,
}

impl Packet for OpenGumpCompressed {
    open spec fn spec_packet_kind() -> u8 {
        0xdd
    }

    open spec fn spec_fixed_length(client_version: ClientVersion) -> Option<usize> {
        None
    }

    /// Each compressed part is preceded by its length plus four; the sizes
    /// before compression and the line count keep their low bits.
    open spec fn wire(&self, client_version: ClientVersion, to_client: bool) -> Seq<u8> {
        let c = self.layout;
        u32_be(self.id) + u32_be(self.type_id) + u32_be(self.position.x as u32) + u32_be(self.position.y as u32)
            + u32_be((c.layout@.len() + 4) as u32) + u32_be(c.layout_length as u32) + c.layout@
            + u16_be(c.text_count as u16) + u32_be((c.text@.len() + 4) as u32) + u32_be(c.text_length as u32) + c.text@
    }

    /// Each compressed part's length plus four must fit in 32 bits.
    open spec fn can_encode(&self, client_version: ClientVersion, to_client: bool) -> bool {
        &&& self.layout.layout@.len() + 4 <= u32::MAX
        &&& self.layout.text@.len() + 4 <= u32::MAX
    }

    open spec fn decode_error(client_version: ClientVersion, from_client: bool, s: Seq<u8>) -> Option<ProtocolError> {
        if s.len() < 24 {
            Some(ProtocolError::UnexpectedEof)
        } else if be_u32(s, 16) < 4 || s.len() < 20 + be_u32(s, 16) {
            Some(ProtocolError::UnexpectedEof)
        } else if s.len() < 30 + be_u32(s, 16) {
            Some(ProtocolError::UnexpectedEof)
        } else if be_u32(s, 22 + be_u32(s, 16)) < 4 || s.len() < 26 + be_u32(s, 16) + be_u32(s, 22 + be_u32(s, 16)) {
            Some(ProtocolError::UnexpectedEof)
        } else {
            None
        }
    }

    open spec fn decodes_to(client_version: ClientVersion, from_client: bool, s: Seq<u8>, p: Self) -> bool {
        let n = be_u32(s, 16) - 4;
        let at = 24 + n;
        let m = be_u32(s, at + 2) - 4;
        &&& p.id == be_u32(s, 0)
        &&& p.type_id == be_u32(s, 4)
        &&& p.position.x == be_u32(s, 8) as i32
        &&& p.position.y == be_u32(s, 12) as i32
        &&& p.layout.layout_length == be_u32(s, 20)
        &&& p.layout.layout@ == s.subrange(24, at)
        &&& p.layout.text_count == be_u16(s, at)
        &&& p.layout.text_length == be_u32(s, at + 6)
        &&& p.layout.text@ == s.subrange(at + 10, at + 10 + m)
    }

    open spec fn roundtrips(&self, client_version: ClientVersion, to_client: bool) -> bool {
        &&& self.layout.layout_length <= u32::MAX
        &&& self.layout.text_count <= u16::MAX
        &&& self.layout.text_length <= u32::MAX
    }

    fn packet_kind() -> (r: u8) {
        0xdd
    }

    fn fixed_length(client_version: ClientVersion) -> (r: Option<usize>) {
        None
    }

    #[verifier::rlimit(40)]
    fn decode(client_version: ClientVersion, from_client: bool, payload: &[u8]) -> (r: Result<Self, ProtocolError>) {
        let ghost s = payload@;
        let mut payload = payload;
        let id = payload.read_u32()?;
        let type_id = payload.read_u32()?;
        let x = payload.read_i32()?;
        let y = payload.read_i32()?;
        let layout_size = payload.read_u32()?;
        let layout_length = payload.read_u32()? as usize;
        assert(payload@ =~= s.skip(24));
        if layout_size < 4 || payload.len() < (layout_size - 4) as usize {
            return Err(ProtocolError::UnexpectedEof);
        }
        let n = (layout_size - 4) as usize;
        let layout = vstd::slice::slice_to_vec(vstd::slice::slice_subrange(payload, 0, n));
        payload = vstd::slice::slice_subrange(payload, n, payload.len());
        let ghost at = 24 + n;
        assert(layout@ =~= s.subrange(24, at));
        assert(payload@ =~= s.skip(at));
        let text_count = payload.read_u16()? as usize;
        let text_size = payload.read_u32()?;
        let text_length = payload.read_u32()? as usize;
        assert(payload@ =~= s.skip(at + 10));
        if text_size < 4 || payload.len() < (text_size - 4) as usize {
            return Err(ProtocolError::UnexpectedEof);
        }
        let m = (text_size - 4) as usize;
        let text = vstd::slice::slice_to_vec(vstd::slice::slice_subrange(payload, 0, m));
        assert(text@ =~= s.subrange(at + 10, at + 10 + m));
        Ok(OpenGumpCompressed {
            id,
            type_id,
            position: IVec2::new(x, y),
            layout: CompressedGumpLayout { layout_length, layout, text_count, text_length, text },
        })
    }

    fn encode(&self, client_version: ClientVersion, to_client: bool, writer: &mut Vec<u8>) -> (r: Result<(), ProtocolError>) {
        if self.layout.layout.len() > 0xffff_fffb || self.layout.text.len() > 0xffff_fffb {
            return Err(ProtocolError::InvalidValue);
        }
        writer.write_u32(self.id);
        writer.write_u32(self.type_id);
        writer.write_i32(self.position.x);
        writer.write_i32(self.position.y);
        writer.write_u32(self.layout.layout.len() as u32 + 4);
        writer.write_u32(self.layout.layout_length as u32);
        writer.write_bytes(self.layout.layout.as_slice());
        writer.write_u16(self.layout.text_count as u16);
        writer.write_u32(self.layout.text.len() as u32 + 4);
        writer.write_u32(self.layout.text_length as u32);
        writer.write_bytes(self.layout.text.as_slice());
        assert(writer@ =~= old(writer)@ + self.wire(client_version, to_client));
        Ok(())
    }

    #[verifier::rlimit(40)]
    proof fn lemma_roundtrip(&self, client_version: ClientVersion, to_client: bool) {
        let w = self.wire(client_version, to_client);
        let c = self.layout;
        let n = c.layout@.len() as int;
        let m = c.text@.len() as int;
        let at = 24 + n;
        assert(w.subrange(0, 4) =~= u32_be(self.id));
        lemma_be_u32_roundtrip(self.id, w, 0);
        assert(w.subrange(4, 8) =~= u32_be(self.type_id));
        lemma_be_u32_roundtrip(self.type_id, w, 4);
        assert(w.subrange(8, 12) =~= u32_be(self.position.x as u32));
        lemma_be_u32_roundtrip(self.position.x as u32, w, 8);
        lemma_i32_u32_cast(self.position.x);
        assert(w.subrange(12, 16) =~= u32_be(self.position.y as u32));
        lemma_be_u32_roundtrip(self.position.y as u32, w, 12);
        lemma_i32_u32_cast(self.position.y);
        assert(w.subrange(16, 20) =~= u32_be((n + 4) as u32));
        lemma_be_u32_roundtrip((n + 4) as u32, w, 16);
        assert(w.subrange(20, 24) =~= u32_be(c.layout_length as u32));
        lemma_be_u32_roundtrip(c.layout_length as u32, w, 20);
        assert(w.subrange(24, at) =~= c.layout@);
        assert(w.subrange(at, at + 2) =~= u16_be(c.text_count as u16));
        lemma_be_u16_roundtrip(c.text_count as u16, w, at);
        assert(w.subrange(at + 2, at + 6) =~= u32_be((m + 4) as u32));
        lemma_be_u32_roundtrip((m + 4) as u32, w, at + 2);
        assert(w.subrange(at + 6, at + 10) =~= u32_be(c.text_length as u32));
        lemma_be_u32_roundtrip(c.text_length as u32, w, at + 6);
        assert(w.subrange(at + 10, at + 10 + m) =~= c.text@);
    }
}

} // verus!
