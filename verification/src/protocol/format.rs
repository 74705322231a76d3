//! Field encodings shared by all packets: big-endian integers, fixed-size
//! and NUL-terminated strings, and UTF-16 text.

use vstd::prelude::*;
use vstd::utf8::*;
use vstd::string::StringSliceAdditionalSpecFns;
use encode_unicode::IterExt;

use crate::protocol::ProtocolError;
use crate::types::{lemma_no_nul_bytes, FixedString};
use crate::{Direction, EntityId};

verus! {

broadcast use vstd::utf8::group_utf8_lib;

// ---------------------------------------------------------------------------
// Integers

/// The big-endian `u16` stored at `s[i..i + 2]`.
pub open spec fn be_u16(s: Seq<u8>, i: int) -> u16 {
    (s[i] as int * 0x100 + s[i + 1] as int) as u16
}

/// The big-endian `u32` stored at `s[i..i + 4]`.
pub open spec fn be_u32(s: Seq<u8>, i: int) -> u32 {
    (s[i] as int * 0x1000000 + s[i + 1] as int * 0x10000 + s[i + 2] as int * 0x100 + s[i
        + 3] as int) as u32
}

/// The little-endian `u16` stored at `s[i..i + 2]`.
pub open spec fn le_u16(s: Seq<u8>, i: int) -> u16 {
    (s[i + 1] as int * 0x100 + s[i] as int) as u16
}

/// The little-endian `u32` stored at `s[i..i + 4]`.
pub open spec fn le_u32(s: Seq<u8>, i: int) -> u32 {
    (s[i + 3] as int * 0x1000000 + s[i + 2] as int * 0x10000 + s[i + 1] as int * 0x100 + s[i
        + 0] as int) as u32
}

/// The little-endian `u64` stored at `s[i..i + 8]`.
pub open spec fn le_u64(s: Seq<u8>, i: int) -> u64 {
    (le_u32(s, i + 4) as int * 0x100000000 + le_u32(s, i) as int) as u64
}

/// The big-endian bytes of `v`.
pub open spec fn u16_be(v: u16) -> Seq<u8> {
    seq![(v / 0x100) as u8, (v % 0x100) as u8]
}

/// The little-endian bytes of `v`.
pub open spec fn u16_le(v: u16) -> Seq<u8> {
    seq![(v % 0x100) as u8, (v / 0x100) as u8]
}

/// The big-endian bytes of `v`.
pub open spec fn u32_be(v: u32) -> Seq<u8> {
    seq![
        (v / 0x1000000) as u8,
        ((v / 0x10000) % 0x100) as u8,
        ((v / 0x100) % 0x100) as u8,
        (v % 0x100) as u8,
    ]
}

/// `n` zero bytes.
pub open spec fn zeros(n: nat) -> Seq<u8> {
    Seq::new(n, |_i: int| 0u8)
}

/// Reading a big-endian `u16` gives back the value whose bytes were written.
pub proof fn lemma_be_u16_roundtrip(v: u16, s: Seq<u8>, i: int)
    requires
        0 <= i,
        i + 2 <= s.len(),
        s.subrange(i, i + 2) == u16_be(v),
    ensures
        be_u16(s, i) == v,
{
    assert(s[i] == s.subrange(i, i + 2)[0]);
    assert(s[i + 1] == s.subrange(i, i + 2)[1]);
}

/// Reading a big-endian `u32` gives back the value whose bytes were written.
pub proof fn lemma_be_u32_roundtrip(v: u32, s: Seq<u8>, i: int)
    requires
        0 <= i,
        i + 4 <= s.len(),
        s.subrange(i, i + 4) == u32_be(v),
    ensures
        be_u32(s, i) == v,
{
    assert(s[i] == s.subrange(i, i + 4)[0]);
    assert(s[i + 1] == s.subrange(i, i + 4)[1]);
    assert(s[i + 2] == s.subrange(i, i + 4)[2]);
    assert(s[i + 3] == s.subrange(i, i + 4)[3]);
}

// ---------------------------------------------------------------------------
// Text

/// The index of the first zero byte of `s`, or its length when it has none.
pub open spec fn first_zero(s: Seq<u8>) -> int
    decreases s.len(),
{
    if s.len() == 0 {
        0
    } else if s[0] == 0 {
        0
    } else {
        1 + first_zero(s.drop_first())
    }
}

/// `i` is the position of the first zero byte, or the length.
pub open spec fn is_first_zero(s: Seq<u8>, i: int) -> bool {
    &&& 0 <= i <= s.len()
    &&& i < s.len() ==> s[i] == 0
    &&& forall|j: int| 0 <= j < i ==> s[j] != 0
}

pub proof fn lemma_first_zero(s: Seq<u8>, i: int)
    requires
        is_first_zero(s, i),
    ensures
        first_zero(s) == i,
    decreases s.len(),
{
    if s.len() > 0 && s[0] != 0 {
        assert(is_first_zero(s.drop_first(), i - 1));
        lemma_first_zero(s.drop_first(), i - 1);
    }
}

pub proof fn lemma_first_zero_bounds(s: Seq<u8>)
    ensures
        is_first_zero(s, first_zero(s)),
    decreases s.len(),
{
    if s.len() > 0 && s[0] != 0 {
        lemma_first_zero_bounds(s.drop_first());
        assert forall|j: int| 0 <= j < first_zero(s) implies s[j] != 0 by {
            if j > 0 {
                assert(s[j] == s.drop_first()[j - 1]);
            }
        }
    }
}

/// The text of a zero-padded string field: the field must be valid UTF-8 as a
/// whole, and the text ends at the first zero byte.
pub open spec fn str_block_text(block: Seq<u8>) -> Option<Seq<char>> {
    if valid_utf8(block) {
        Some(decode_utf8(block.take(first_zero(block))))
    } else {
        None
    }
}

/// The bytes of a string field of `size` bytes holding `bytes`: cut to the
/// size, or padded with zeros.
pub open spec fn str_block_bytes(bytes: Seq<u8>, size: nat) -> Seq<u8> {
    if bytes.len() >= size {
        bytes.take(size as int)
    } else {
        bytes + zeros((size - bytes.len()) as nat)
    }
}

/// The position of the first zero byte, if any.
pub open spec fn nul_index(s: Seq<u8>) -> Option<int> {
    if first_zero(s) < s.len() {
        Some(first_zero(s))
    } else {
        None
    }
}

/// The error reading a NUL-terminated string from the front of `s` stops
/// with, if any.
pub open spec fn str_nul_error(s: Seq<u8>) -> Option<ProtocolError> {
    match nul_index(s) {
        None => Some(ProtocolError::UnexpectedEof),
        Some(i) => if valid_utf8(s.take(i)) {
            None
        } else {
            Some(ProtocolError::InvalidUtf8)
        },
    }
}

/// The text of a NUL-terminated string at the front of `s`.
pub open spec fn str_nul_text(s: Seq<u8>) -> Option<Seq<char>> {
    match nul_index(s) {
        Some(i) => if valid_utf8(s.take(i)) {
            Some(decode_utf8(s.take(i)))
        } else {
            None
        },
        None => None,
    }
}

/// The number of bytes a NUL-terminated string at the front of `s` takes,
/// terminator included.
pub open spec fn str_nul_len(s: Seq<u8>) -> int {
    match nul_index(s) {
        Some(i) => i + 1,
        None => 0,
    }
}

/// The text has no NUL character, so it survives NUL termination.
pub open spec fn no_nul_chars(cs: Seq<char>) -> bool {
    forall|i: int| 0 <= i < cs.len() ==> cs[i] != '\0'
}

/// The UTF-16 code units of one character.
pub open spec fn char_utf16(c: char) -> Seq<u16> {
    let v = c as u32;
    if v < 0x10000 {
        seq![v as u16]
    } else {
        seq![(0xD800 + (v - 0x10000) / 0x400) as u16, (0xDC00 + (v - 0x10000) % 0x400) as u16]
    }
}

/// The UTF-16 encoding of a character sequence.
pub open spec fn utf16_encode(cs: Seq<char>) -> Seq<u16>
    decreases cs.len(),
{
    if cs.len() == 0 {
        seq![]
    } else {
        utf16_encode(cs.drop_last()) + char_utf16(cs.last())
    }
}

pub open spec fn is_lead_surrogate(u: u16) -> bool {
    0xD800 <= u <= 0xDBFF
}

pub open spec fn is_trail_surrogate(u: u16) -> bool {
    0xDC00 <= u <= 0xDFFF
}

/// The character of a surrogate pair.
pub open spec fn surrogate_pair_char(hi: u16, lo: u16) -> char {
    (0x10000 + (hi - 0xD800) * 0x400 + (lo - 0xDC00)) as char
}

/// Decodes UTF-16, putting U+FFFD in place of each unit that is not part of a
/// well-formed character.
pub open spec fn utf16_decode_lossy(us: Seq<u16>) -> Seq<char>
    decreases us.len(),
{
    if us.len() == 0 {
        seq![]
    } else if !is_lead_surrogate(us[0]) && !is_trail_surrogate(us[0]) {
        seq![us[0] as char] + utf16_decode_lossy(us.drop_first())
    } else if is_lead_surrogate(us[0]) && us.len() >= 2 && is_trail_surrogate(us[1]) {
        seq![surrogate_pair_char(us[0], us[1])] + utf16_decode_lossy(us.subrange(2, us.len() as int))
    } else {
        seq!['\u{fffd}'] + utf16_decode_lossy(us.drop_first())
    }
}

/// The big-endian code units stored in `s`, two bytes each; a trailing odd
/// byte is ignored.
pub open spec fn be_units(s: Seq<u8>) -> Seq<u16> {
    Seq::new(s.len() / 2, |i: int| be_u16(s, 2 * i))
}

/// The little-endian code units stored in `s`.
pub open spec fn le_units(s: Seq<u8>) -> Seq<u16> {
    Seq::new(s.len() / 2, |i: int| le_u16(s, 2 * i))
}

/// The big-endian bytes of a sequence of code units.
pub open spec fn units_be(us: Seq<u16>) -> Seq<u8> {
    Seq::new(
        us.len() * 2,
        |i: int|
            if i % 2 == 0 {
                (us[i / 2] / 0x100) as u8
            } else {
                (us[i / 2] % 0x100) as u8
            },
    )
}

/// The little-endian bytes of a sequence of code units.
pub open spec fn units_le(us: Seq<u16>) -> Seq<u8> {
    Seq::new(
        us.len() * 2,
        |i: int|
            if i % 2 == 0 {
                (us[i / 2] % 0x100) as u8
            } else {
                (us[i / 2] / 0x100) as u8
            },
    )
}

/// The position of the first aligned-or-not pair of zero bytes.
pub open spec fn nul2_index(s: Seq<u8>) -> Option<int> {
    if exists|i: int| #[trigger] is_nul2_at(s, i) {
        Some(choose|i: int| #[trigger] is_first_nul2(s, i))
    } else {
        None
    }
}

/// Two zero bytes start at `i`.
pub open spec fn is_nul2_at(s: Seq<u8>, i: int) -> bool {
    0 <= i && i + 1 < s.len() && s[i] == 0 && s[i + 1] == 0
}

pub open spec fn is_first_nul2(s: Seq<u8>, i: int) -> bool {
    &&& is_nul2_at(s, i)
    &&& forall|j: int| 0 <= j < i ==> !is_nul2_at(s, j)
}

pub proof fn lemma_nul2_index(s: Seq<u8>, i: int)
    requires
        is_first_nul2(s, i),
    ensures
        nul2_index(s) == Some(i),
{
    assert(is_nul2_at(s, i));
    assert(is_first_nul2(s, i));
    let k = choose|k: int| #[trigger] is_first_nul2(s, k);
    if k < i {
        assert(!is_nul2_at(s, k));
    } else if k > i {
        assert(!is_nul2_at(s, i));
    }
}

/// Text that a string field of `size` bytes holds without loss: it has no
/// NUL character and its UTF-8 encoding fits.
pub open spec fn fits_str_block(cs: Seq<char>, size: nat) -> bool {
    &&& encode_utf8(cs).len() <= size
    &&& forall|i: int| 0 <= i < cs.len() ==> cs[i] != '\0'
}

/// A string field always has its declared size.
pub proof fn lemma_str_block_len(bytes: Seq<u8>, size: nat)
    ensures
        str_block_bytes(bytes, size).len() == size,
{
}

/// Zero bytes are valid UTF-8 (each is the NUL character).
pub proof fn lemma_valid_utf8_zeros(n: nat)
    ensures
        valid_utf8(zeros(n)),
    decreases n,
{
    if n > 0 {
        let z = zeros(n);
        lemma_valid_utf8_zeros((n - 1) as nat);
        let b = z[0];
        assert(is_leading_byte_width_1(b)) by (bit_vector)
            requires
                b == 0u8,
        ;
        assert(pop_first_scalar(z) =~= zeros((n - 1) as nat));
    }
}

/// A string field holding text that fits reads back as that text.
pub proof fn lemma_str_block_roundtrip(cs: Seq<char>, size: nat)
    requires
        fits_str_block(cs, size),
    ensures
        str_block_text(str_block_bytes(encode_utf8(cs), size)) == Some(cs),
        str_block_bytes(encode_utf8(cs), size).len() == size,
{
    let b = encode_utf8(cs);
    let blk = str_block_bytes(b, size);
    let pad = zeros((size - b.len()) as nat);
    lemma_no_nul_bytes(cs);
    lemma_valid_utf8_zeros((size - b.len()) as nat);
    if b.len() >= size {
        assert(blk =~= b + pad);
    }
    assert(blk =~= b + pad);
    valid_utf8_concat(b, pad);
    assert(is_first_zero(blk, b.len() as int));
    lemma_first_zero(blk, b.len() as int);
    assert(blk.take(b.len() as int) =~= b);
}

/// The text of a NUL-terminated string reads back as that text.
pub proof fn lemma_str_nul_roundtrip(cs: Seq<char>, rest: Seq<u8>)
    requires
        forall|i: int| 0 <= i < cs.len() ==> cs[i] != '\0',
    ensures
        nul_index(encode_utf8(cs) + seq![0u8] + rest) == Some(encode_utf8(cs).len() as int),
        (encode_utf8(cs) + seq![0u8] + rest).take(encode_utf8(cs).len() as int) == encode_utf8(cs),
        valid_utf8(encode_utf8(cs)),
        decode_utf8(encode_utf8(cs)) == cs,
{
    let b = encode_utf8(cs);
    let all = b + seq![0u8] + rest;
    lemma_no_nul_bytes(cs);
    assert(is_first_zero(all, b.len() as int));
    lemma_first_zero(all, b.len() as int);
    assert(all.take(b.len() as int) =~= b);
}

/// Casting an `i32` to `u32` and back gives it back.
pub proof fn lemma_i32_u32_cast(x: i32)
    ensures
        (x as u32) as i32 == x,
{
    assert((x as u32) as i32 == x) by (bit_vector);
}

// ---------------------------------------------------------------------------
// Lists

/// The concatenation of the encodings of `items`, in order.
pub open spec fn concat_map<T>(items: Seq<T>, f: spec_fn(T) -> Seq<u8>) -> Seq<u8>
    decreases items.len(),
{
    if items.len() == 0 {
        seq![]
    } else {
        concat_map(items.drop_last(), f) + f(items.last())
    }
}

/// With encodings all `m` bytes long, item `k` sits at `m * k`.
pub proof fn lemma_concat_map_fixed<T>(items: Seq<T>, f: spec_fn(T) -> Seq<u8>, m: nat)
    requires
        forall|i: int| 0 <= i < items.len() ==> #[trigger] f(items[i]).len() == m,
    ensures
        concat_map(items, f).len() == m * items.len(),
        forall|k: int|
            0 <= k < items.len() ==> #[trigger] concat_map(items, f).subrange(m * k, m * k + m)
                == f(items[k]),
    decreases items.len(),
{
    if items.len() > 0 {
        let init = items.drop_last();
        lemma_concat_map_fixed(init, f, m);
        let c = concat_map(items, f);
        let ci = concat_map(init, f);
        assert(c == ci + f(items.last()));
        assert(m * items.len() == m * init.len() + m) by (nonlinear_arith)
            requires
                items.len() == init.len() + 1,
        ;
        assert forall|k: int| 0 <= k < items.len() implies #[trigger] c.subrange(
            m * k,
            m * k + m,
        ) == f(items[k]) by {
            if k < init.len() {
                assert(m * k + m <= m * init.len()) by (nonlinear_arith)
                    requires
                        k < init.len(),
                        0 <= k,
                ;
                assert(0 <= m * k) by (nonlinear_arith)
                    requires
                        0 <= k,
                ;
                assert(c.subrange(m * k, m * k + m) =~= ci.subrange(m * k, m * k + m));
                assert(items[k] == init[k]);
            } else {
                assert(k == init.len());
                assert(c.subrange(m * k, m * k + m) =~= f(items.last()));
            }
        }
    }
}

/// The first error among entries `k..n`, where `err(i)` is that of entry `i`.
pub open spec fn first_error(n: int, k: int, err: spec_fn(int) -> Option<ProtocolError>) -> Option<
    ProtocolError,
>
    decreases n - k,
{
    if k >= n {
        None
    } else if err(k) is Some {
        err(k)
    } else {
        first_error(n, k + 1, err)
    }
}

/// With no error among entries `k..n`, `first_error` finds none.
pub proof fn lemma_first_error_none(n: int, k: int, err: spec_fn(int) -> Option<ProtocolError>)
    requires
        forall|i: int| k <= i < n ==> #[trigger] err(i) is None,
    ensures
        first_error(n, k, err) is None,
    decreases n - k,
{
    if k < n {
        lemma_first_error_none(n, k + 1, err);
    }
}

// ---------------------------------------------------------------------------
// UTF-16 round trip

proof fn lemma_utf16_encode_append(a: Seq<char>, b: Seq<char>)
    ensures
        utf16_encode(a + b) == utf16_encode(a) + utf16_encode(b),
    decreases b.len(),
{
    if b.len() == 0 {
        assert(a + b =~= a);
        assert(utf16_encode(a) + utf16_encode(b) =~= utf16_encode(a));
    } else {
        let bi = b.drop_last();
        lemma_utf16_encode_append(a, bi);
        assert((a + b).drop_last() =~= a + bi);
        assert((a + b).last() == b.last());
        assert(utf16_encode(a + b) =~= utf16_encode(a) + utf16_encode(b));
    }
}

proof fn lemma_utf16_decode_char(c: char, rest: Seq<u16>)
    ensures
        utf16_decode_lossy(char_utf16(c) + rest) == seq![c] + utf16_decode_lossy(rest),
{
    let v = c as u32;
    char_is_scalar(c);
    char_u32_cast(c, v);
    let us = char_utf16(c) + rest;
    if v < 0x10000 {
        assert(us.drop_first() =~= rest);
        assert(us[0] == v as u16);
    } else {
        let hi = (0xD800 + (v - 0x10000) / 0x400) as u16;
        let lo = (0xDC00 + (v - 0x10000) % 0x400) as u16;
        assert(us[0] == hi);
        assert(us[1] == lo);
        assert(is_lead_surrogate(hi));
        assert(is_trail_surrogate(lo));
        assert(us.subrange(2, us.len() as int) =~= rest);
        assert(0x10000 + (hi - 0xD800) * 0x400 + (lo - 0xDC00) == v);
    }
}

/// UTF-16 text decodes back to the characters it encodes.
pub proof fn lemma_utf16_roundtrip(cs: Seq<char>)
    ensures
        utf16_decode_lossy(utf16_encode(cs)) == cs,
    decreases cs.len(),
{
    if cs.len() > 0 {
        let c = cs[0];
        let tail = cs.drop_first();
        lemma_utf16_roundtrip(tail);
        assert(cs =~= seq![c] + tail);
        lemma_utf16_encode_append(seq![c], tail);
        assert(seq![c].drop_last() =~= Seq::<char>::empty());
        assert(seq![c].last() == c);
        assert(utf16_encode(Seq::<char>::empty()) =~= Seq::<u16>::empty());
        assert(utf16_encode(seq![c]) == utf16_encode(seq![c].drop_last()) + char_utf16(seq![c].last()));
        assert(utf16_encode(seq![c]) =~= char_utf16(c));
        lemma_utf16_decode_char(c, utf16_encode(tail));
        assert(seq![c] + tail =~= cs);
    }
}

/// Big-endian code units read back as written.
pub proof fn lemma_be_units_roundtrip(us: Seq<u16>)
    ensures
        be_units(units_be(us)) == us,
{
    let b = units_be(us);
    assert forall|i: int| 0 <= i < us.len() implies be_units(b)[i] == us[i] by {
        assert(b[2 * i] == (us[i] / 0x100) as u8);
        assert(b[2 * i + 1] == (us[i] % 0x100) as u8);
    }
    assert(be_units(b) =~= us);
}

/// Little-endian code units read back as written.
pub proof fn lemma_le_units_roundtrip(us: Seq<u16>)
    ensures
        le_units(units_le(us)) == us,
{
    let b = units_le(us);
    assert forall|i: int| 0 <= i < us.len() implies le_units(b)[i] == us[i] by {
        assert(b[2 * i] == (us[i] % 0x100) as u8);
        assert(b[2 * i + 1] == (us[i] / 0x100) as u8);
    }
    assert(le_units(b) =~= us);
}

/// Text short enough for a 16-bit unit count.
pub open spec fn fits_utf16_pascal(cs: Seq<char>) -> bool {
    utf16_encode(cs).len() <= 0xffff
}

/// A length-prefixed UTF-16 string reads back as the text written.
pub proof fn lemma_utf16_pascal_roundtrip(cs: Seq<char>, rest: Seq<u8>)
    requires
        fits_utf16_pascal(cs),
    ensures
        ({
            let s = utf16_pascal_bytes(cs) + rest;
            let n = be_u16(s, 0) as int;
            &&& s.len() >= 2 + 2 * n
            &&& n == utf16_encode(cs).len()
            &&& utf16_decode_lossy(be_units(s.subrange(2, 2 + 2 * n))) == cs
            &&& s.skip(2 + 2 * n) == rest
        }),
{
    let us = utf16_encode(cs);
    let s = utf16_pascal_bytes(cs) + rest;
    assert(s.subrange(0, 2) =~= u16_be(us.len() as u16));
    lemma_be_u16_roundtrip(us.len() as u16, s, 0);
    let n = us.len() as int;
    assert(s.subrange(2, 2 + 2 * n) =~= units_be(us));
    lemma_be_units_roundtrip(us);
    lemma_utf16_roundtrip(cs);
    assert(s.skip(2 + 2 * n) =~= rest);
}

/// As `lemma_utf16_pascal_roundtrip`, with little-endian units.
pub proof fn lemma_utf16le_pascal_roundtrip(cs: Seq<char>, rest: Seq<u8>)
    requires
        fits_utf16_pascal(cs),
    ensures
        ({
            let s = utf16le_pascal_bytes(cs) + rest;
            let n = be_u16(s, 0) as int;
            &&& s.len() >= 2 + 2 * n
            &&& n == utf16_encode(cs).len()
            &&& utf16_decode_lossy(le_units(s.subrange(2, 2 + 2 * n))) == cs
            &&& s.skip(2 + 2 * n) == rest
        }),
{
    let us = utf16_encode(cs);
    let s = utf16le_pascal_bytes(cs) + rest;
    assert(s.subrange(0, 2) =~= u16_be(us.len() as u16));
    lemma_be_u16_roundtrip(us.len() as u16, s, 0);
    let n = us.len() as int;
    assert(s.subrange(2, 2 + 2 * n) =~= units_le(us));
    lemma_le_units_roundtrip(us);
    lemma_utf16_roundtrip(cs);
    assert(s.skip(2 + 2 * n) =~= rest);
}

// ---------------------------------------------------------------------------
// Wrappers

/// `std::str::from_utf8`: succeeds exactly on valid UTF-8, and then returns
/// the text those bytes encode.
#[verifier::external_body]
pub(crate) fn str_from_utf8<'a>(bytes: &'a [u8]) -> (r: Option<&'a str>)
    ensures
        r is Some <==> valid_utf8(bytes@),
        r matches Some(s) ==> s@ == decode_utf8(bytes@),
{
    match std::str::from_utf8(bytes) {
        Ok(s) => Some(s),
        Err(_) => None,
    }
}

/// `encode_unicode`'s `to_utf16chars`, each error replaced by U+FFFD: decodes
/// UTF-16 code units; a unit that starts no well-formed character becomes
/// U+FFFD and decoding resumes at the next unit.
#[verifier::external_body]
fn utf16_units_to_string(units: &[u16]) -> (r: String)
    ensures
        r@ == utf16_decode_lossy(units@),
{
    units.iter().to_utf16chars().map(|c| match c {
        Ok(c) => c,
        Err(_) => encode_unicode::Utf16Char::from('\u{fffd}'),
    }).collect()
}

// ---------------------------------------------------------------------------
// Reading

/// Decodes text from big-endian UTF-16 bytes.
pub fn utf16_slice_to_string(bytes: &[u8]) -> (r: String)
    ensures
        r@ == utf16_decode_lossy(be_units(bytes@)),
{
    let units = be_bytes_to_units(bytes);
    utf16_units_to_string(units.as_slice())
}

/// Decodes text from little-endian UTF-16 bytes.
pub fn utf16le_slice_to_string(bytes: &[u8]) -> (r: String)
    ensures
        r@ == utf16_decode_lossy(le_units(bytes@)),
{
    let units = le_bytes_to_units(bytes);
    utf16_units_to_string(units.as_slice())
}

fn be_bytes_to_units(bytes: &[u8]) -> (r: Vec<u16>)
    ensures
        r@ == be_units(bytes@),
{
    let len = bytes.len();
    let n = len / 2;
    let mut r: Vec<u16> = Vec::new();
    let mut i: usize = 0;
    while i < n
        invariant
            len == bytes@.len(),
            n == len / 2,
            2 * n <= len,
            i <= n,
            r@.len() == i,
            forall|j: int| 0 <= j < i ==> r@[j] == be_u16(bytes@, 2 * j),
        decreases n - i,
    {
        let v = (bytes[2 * i] as u16) * 0x100 + (bytes[2 * i + 1] as u16);
        r.push(v);
        i = i + 1;
    }
    assert(r@ =~= be_units(bytes@));
    r
}

fn le_bytes_to_units(bytes: &[u8]) -> (r: Vec<u16>)
    ensures
        r@ == le_units(bytes@),
{
    let len = bytes.len();
    let n = len / 2;
    let mut r: Vec<u16> = Vec::new();
    let mut i: usize = 0;
    while i < n
        invariant
            len == bytes@.len(),
            n == len / 2,
            2 * n <= len,
            i <= n,
            r@.len() == i,
            forall|j: int| 0 <= j < i ==> r@[j] == le_u16(bytes@, 2 * j),
        decreases n - i,
    {
        let v = (bytes[2 * i + 1] as u16) * 0x100 + (bytes[2 * i] as u16);
        r.push(v);
        i = i + 1;
    }
    assert(r@ =~= le_units(bytes@));
    r
}

/// The first `n` bytes of `s`, when it has that many.
pub open spec fn eof_unless<T>(s: Seq<u8>, n: int, v: T) -> Result<T, ProtocolError> {
    if s.len() >= n {
        Ok(v)
    } else {
        Err(ProtocolError::UnexpectedEof)
    }
}

/// Reading fields from the front of a payload. Each read either consumes the
/// field and returns it, or leaves the payload as it was and fails.
pub trait PacketReadExt: Sized {
    fn skip(&mut self, count: usize) -> Result<(), ProtocolError>;

    fn read_u8(&mut self) -> Result<u8, ProtocolError>;

    fn read_u16(&mut self) -> Result<u16, ProtocolError>;

    fn read_u32(&mut self) -> Result<u32, ProtocolError>;

    fn read_i32(&mut self) -> Result<i32, ProtocolError>;

    fn read_str_block(&mut self, block_size: usize) -> Result<String, ProtocolError>;

    fn read_str_nul(&mut self) -> Result<String, ProtocolError>;

    fn read_utf16_nul(&mut self) -> Result<String, ProtocolError>;

    fn read_utf16le_nul(&mut self) -> Result<String, ProtocolError>;

    fn read_utf16_pascal(&mut self) -> Result<String, ProtocolError>;

    fn read_utf16le_pascal(&mut self) -> Result<String, ProtocolError>;

    fn read_entity_id(&mut self) -> Result<EntityId, ProtocolError>;

    fn read_direction(&mut self) -> Result<Direction, ProtocolError>;
}

impl<'a> PacketReadExt for &'a [u8] {
    fn skip(&mut self, count: usize) -> (r: Result<(), ProtocolError>)
        ensures
            r == eof_unless(old(self)@, count as int, ()),
            r is Ok ==> final(self)@ == old(self)@.skip(count as int),
            r is Err ==> final(self)@ == old(self)@,
    {
        if count > self.len() {
            Err(ProtocolError::UnexpectedEof)
        } else {
            *self = vstd::slice::slice_subrange(*self, count, self.len());
            Ok(())
        }
    }

    fn read_u8(&mut self) -> (r: Result<u8, ProtocolError>)
        ensures
            r == eof_unless(old(self)@, 1, old(self)@[0]),
            r is Ok ==> final(self)@ == old(self)@.skip(1),
            r is Err ==> final(self)@ == old(self)@,
    {
        if self.len() < 1 {
            return Err(ProtocolError::UnexpectedEof);
        }
        let v = self[0];
        *self = vstd::slice::slice_subrange(*self, 1, self.len());
        Ok(v)
    }

    fn read_u16(&mut self) -> (r: Result<u16, ProtocolError>)
        ensures
            r == eof_unless(old(self)@, 2, be_u16(old(self)@, 0)),
            r is Ok ==> final(self)@ == old(self)@.skip(2),
            r is Err ==> final(self)@ == old(self)@,
    {
        if self.len() < 2 {
            return Err(ProtocolError::UnexpectedEof);
        }
        let v = (self[0] as u16) * 0x100 + (self[1] as u16);
        *self = vstd::slice::slice_subrange(*self, 2, self.len());
        Ok(v)
    }

    fn read_u32(&mut self) -> (r: Result<u32, ProtocolError>)
        ensures
            r == eof_unless(old(self)@, 4, be_u32(old(self)@, 0)),
            r is Ok ==> final(self)@ == old(self)@.skip(4),
            r is Err ==> final(self)@ == old(self)@,
    {
        if self.len() < 4 {
            return Err(ProtocolError::UnexpectedEof);
        }
        let v = (self[0] as u32) * 0x1000000 + (self[1] as u32) * 0x10000 + (self[2] as u32)
            * 0x100 + (self[3] as u32);
        *self = vstd::slice::slice_subrange(*self, 4, self.len());
        Ok(v)
    }

    fn read_i32(&mut self) -> (r: Result<i32, ProtocolError>)
        ensures
            r == eof_unless(old(self)@, 4, be_u32(old(self)@, 0) as i32),
            r is Ok ==> final(self)@ == old(self)@.skip(4),
            r is Err ==> final(self)@ == old(self)@,
    {
        let v = self.read_u32()?;
        Ok(v as i32)
    }

    fn read_str_block(&mut self, block_size: usize) -> (r: Result<String, ProtocolError>)
        ensures
            old(self)@.len() < block_size ==> r == Err::<String, ProtocolError>(
                ProtocolError::UnexpectedEof,
            ),
            old(self)@.len() >= block_size && str_block_text(old(self)@.take(block_size as int))
                is None ==> r == Err::<String, ProtocolError>(ProtocolError::InvalidUtf8),
            old(self)@.len() >= block_size && str_block_text(old(self)@.take(block_size as int))
                is Some ==> r is Ok,
            r matches Ok(s) ==> Some(s@) == str_block_text(old(self)@.take(block_size as int))
                && final(self)@ == old(self)@.skip(block_size as int),
            r is Err ==> final(self)@ == old(self)@,
    {
        if self.len() < block_size {
            return Err(ProtocolError::UnexpectedEof);
        }
        let block = vstd::slice::slice_subrange(*self, 0, block_size);
        match str_from_utf8(block) {
            None => Err(ProtocolError::InvalidUtf8),
            Some(_) => {
                let n = zero_index(block);
                let text_bytes = vstd::slice::slice_subrange(block, 0, n);
                proof {
                    lemma_first_zero(block@, n as int);
                    lemma_prefix_before_zero_valid(block@, n as int);
                    assert(text_bytes@ == block@.take(n as int));
                }
                let s = match str_from_utf8(text_bytes) {
                    Some(s) => s.to_owned(),
                    None => {
                        proof {
                            assert(false);
                        }
                        String::new()
                    },
                };
                *self = vstd::slice::slice_subrange(*self, block_size, self.len());
                Ok(s)
            },
        }
    }

    fn read_str_nul(&mut self) -> (r: Result<String, ProtocolError>)
        ensures
            nul_index(old(self)@) is None ==> r == Err::<String, ProtocolError>(
                ProtocolError::UnexpectedEof,
            ),
            nul_index(old(self)@) matches Some(i) ==> (valid_utf8(old(self)@.take(i)) <==> r is Ok),
            nul_index(old(self)@) matches Some(i) ==> (!valid_utf8(old(self)@.take(i))
                ==> r == Err::<String, ProtocolError>(ProtocolError::InvalidUtf8)),
            r matches Ok(s) ==> nul_index(old(self)@) matches Some(i) && s@ == decode_utf8(
                old(self)@.take(i),
            ) && final(self)@ == old(self)@.skip(i + 1),
            r is Err ==> final(self)@ == old(self)@,
    {
        let n = zero_index(*self);
        proof {
            lemma_first_zero(self@, n as int);
        }
        if n == self.len() {
            return Err(ProtocolError::UnexpectedEof);
        }
        let text_bytes = vstd::slice::slice_subrange(*self, 0, n);
        assert(text_bytes@ == self@.take(n as int));
        match str_from_utf8(text_bytes) {
            None => Err(ProtocolError::InvalidUtf8),
            Some(s) => {
                let s = s.to_owned();
                *self = vstd::slice::slice_subrange(*self, n + 1, self.len());
                Ok(s)
            },
        }
    }

    fn read_utf16_nul(&mut self) -> (r: Result<String, ProtocolError>)
        ensures
            nul2_index(old(self)@) is None ==> r == Err::<String, ProtocolError>(
                ProtocolError::UnexpectedEof,
            ),
            nul2_index(old(self)@) is Some ==> r is Ok,
            r matches Ok(s) ==> nul2_index(old(self)@) matches Some(i) && 0 <= i && i + 2 <= old(
                self,
            )@.len() && s@ == utf16_decode_lossy(be_units(old(self)@.take(i))) && final(self)@ == old(
                self,
            )@.skip(i + 2),
            r is Err ==> final(self)@ == old(self)@,
    {
        match nul2_position(*self) {
            None => Err(ProtocolError::UnexpectedEof),
            Some(i) => {
                let len = self.len();
                let text = utf16_slice_to_string(vstd::slice::slice_subrange(*self, 0, i));
                *self = vstd::slice::slice_subrange(*self, i + 2, len);
                Ok(text)
            },
        }
    }

    fn read_utf16le_nul(&mut self) -> (r: Result<String, ProtocolError>)
        ensures
            nul2_index(old(self)@) is None ==> r == Err::<String, ProtocolError>(
                ProtocolError::UnexpectedEof,
            ),
            nul2_index(old(self)@) is Some ==> r is Ok,
            r matches Ok(s) ==> nul2_index(old(self)@) matches Some(i) && 0 <= i && i + 2 <= old(
                self,
            )@.len() && s@ == utf16_decode_lossy(le_units(old(self)@.take(i))) && final(self)@ == old(
                self,
            )@.skip(i + 2),
            r is Err ==> final(self)@ == old(self)@,
    {
        match nul2_position(*self) {
            None => Err(ProtocolError::UnexpectedEof),
            Some(i) => {
                let len = self.len();
                let text = utf16le_slice_to_string(vstd::slice::slice_subrange(*self, 0, i));
                *self = vstd::slice::slice_subrange(*self, i + 2, len);
                Ok(text)
            },
        }
    }

    fn read_utf16_pascal(&mut self) -> (r: Result<String, ProtocolError>)
        ensures
            (old(self)@.len() >= 2 && old(self)@.len() >= 2 + 2 * be_u16(old(self)@, 0))
                <==> r is Ok,
            r is Err ==> r == Err::<String, ProtocolError>(ProtocolError::UnexpectedEof),
            r matches Ok(s) ==> s@ == utf16_decode_lossy(
                be_units(old(self)@.subrange(2, 2 + 2 * be_u16(old(self)@, 0))),
            ) && final(self)@ == old(self)@.skip(2 + 2 * be_u16(old(self)@, 0)),
            r is Err ==> final(self)@ == old(self)@,
    {
        let start = *self;
        let len = self.read_u16()? as usize;
        if self.len() < len * 2 {
            *self = start;
            return Err(ProtocolError::UnexpectedEof);
        }
        let text = utf16_slice_to_string(vstd::slice::slice_subrange(*self, 0, len * 2));
        *self = vstd::slice::slice_subrange(*self, len * 2, self.len());
        proof {
            lemma_skip_skip(start@, 2, 2 * len as int);
        }
        Ok(text)
    }

    fn read_utf16le_pascal(&mut self) -> (r: Result<String, ProtocolError>)
        ensures
            (old(self)@.len() >= 2 && old(self)@.len() >= 2 + 2 * be_u16(old(self)@, 0))
                <==> r is Ok,
            r is Err ==> r == Err::<String, ProtocolError>(ProtocolError::UnexpectedEof),
            r matches Ok(s) ==> s@ == utf16_decode_lossy(
                le_units(old(self)@.subrange(2, 2 + 2 * be_u16(old(self)@, 0))),
            ) && final(self)@ == old(self)@.skip(2 + 2 * be_u16(old(self)@, 0)),
            r is Err ==> final(self)@ == old(self)@,
    {
        let start = *self;
        let len = self.read_u16()? as usize;
        if self.len() < len * 2 {
            *self = start;
            return Err(ProtocolError::UnexpectedEof);
        }
        let text = utf16le_slice_to_string(vstd::slice::slice_subrange(*self, 0, len * 2));
        *self = vstd::slice::slice_subrange(*self, len * 2, self.len());
        proof {
            lemma_skip_skip(start@, 2, 2 * len as int);
        }
        Ok(text)
    }

    fn read_entity_id(&mut self) -> (r: Result<EntityId, ProtocolError>)
        ensures
            old(self)@.len() >= 4 <==> r is Ok,
            r is Err ==> r == Err::<EntityId, ProtocolError>(ProtocolError::UnexpectedEof),
            r matches Ok(id) ==> id@ == be_u32(old(self)@, 0) && final(self)@ == old(self)@.skip(4),
            r is Err ==> final(self)@ == old(self)@,
    {
        let v = self.read_u32()?;
        Ok(EntityId::from_u32(v))
    }

    fn read_direction(&mut self) -> (r: Result<Direction, ProtocolError>)
        ensures
            r == (if old(self)@.len() < 1 {
                Err(ProtocolError::UnexpectedEof)
            } else {
                match Direction::spec_from_repr(old(self)@[0]) {
                    Some(d) => Ok(d),
                    None => Err(ProtocolError::InvalidValue),
                }
            }),
            r is Ok ==> final(self)@ == old(self)@.skip(1),
            r is Err ==> final(self)@ == old(self)@,
    {
        if self.len() < 1 {
            return Err(ProtocolError::UnexpectedEof);
        }
        match Direction::from_repr(self[0]) {
            Some(d) => {
                *self = vstd::slice::slice_subrange(*self, 1, self.len());
                Ok(d)
            },
            None => Err(ProtocolError::InvalidValue),
        }
    }
}


// ---------------------------------------------------------------------------
// Fixed strings

/// A fixed string field of `size` bytes holds text up to its first zero
/// byte; that text must be valid UTF-8.
pub open spec fn fixed_text_valid(block: Seq<u8>) -> bool {
    valid_utf8(block.take(first_zero(block)))
}

/// Reads a fixed string field of `N` bytes.
pub fn read_str_fixed<const N: usize>(data: &mut &[u8]) -> (r: Result<FixedString<N>, ProtocolError>)
    requires
        N <= u16::MAX,
    ensures
        old(data)@.len() < N ==> r == Err::<FixedString<N>, ProtocolError>(
            ProtocolError::UnexpectedEof,
        ),
        old(data)@.len() >= N ==> (r is Ok <==> fixed_text_valid(old(data)@.take(N as int))),
        old(data)@.len() >= N && !fixed_text_valid(old(data)@.take(N as int)) ==> r == Err::<
            FixedString<N>,
            ProtocolError,
        >(ProtocolError::InvalidUtf8),
        r matches Ok(fs) ==> fs.wf() && fs.spec_no_nul() && fs.spec_bytes() == old(data)@.take(N as int).take(
            first_zero(old(data)@.take(N as int)),
        ) && final(data)@ == old(data)@.skip(N as int),
        r is Err ==> final(data)@ == old(data)@,
{
    if data.len() < N {
        return Err(ProtocolError::UnexpectedEof);
    }
    let len = data.len();
    let block = vstd::slice::slice_subrange(*data, 0, N);
    let n = zero_index(block);
    let text = vstd::slice::slice_subrange(block, 0, n);
    proof {
        lemma_first_zero(block@, n as int);
        assert(text@ == block@.take(n as int));
        assert(text@ =~= data@.take(n as int));
        assert(block@ =~= data@.take(N as int));
        assert(text@ =~= data@.take(N as int).take(n as int));
    }
    match str_from_utf8(text) {
        None => Err(ProtocolError::InvalidUtf8),
        Some(_) => {
            let fs = FixedString::from_bytes(text);
            *data = vstd::slice::slice_subrange(*data, N, len);
            Ok(fs)
        },
    }
}

/// A fixed string field holds back the string it was written from, when
/// that string has no NUL byte.
pub proof fn lemma_fixed_roundtrip<const N: usize>(fs: FixedString<N>)
    requires
        fs.wf(),
        fs.spec_no_nul(),
    ensures
        fs.spec_contents().len() == N,
        fixed_text_valid(fs.spec_contents()),
        fs.spec_contents().take(first_zero(fs.spec_contents())) == fs.spec_bytes(),
{
    fs.lemma_layout();
    let c = fs.spec_contents();
    let b = fs.spec_bytes();
    assert(is_first_zero(c, b.len() as int));
    lemma_first_zero(c, b.len() as int);
    assert(c.take(b.len() as int) =~= b);
}

// ---------------------------------------------------------------------------
// Writing

/// The UTF-16 code units of a string.
pub fn encode_utf16(src: &str) -> (r: Vec<u16>)
    ensures
        r@ == utf16_encode(src@),
{
    let mut r: Vec<u16> = Vec::new();
    for c in it: src.chars()
        invariant
            it.seq() == src@,
            r@ == utf16_encode(src@.take(it.index())),
    {
        let ghost done = src@.take(it.index());
        proof {
            char_is_scalar(c);
        }
        let v = c as u32;
        if v < 0x10000 {
            r.push(v as u16);
        } else {
            let w = v - 0x10000;
            r.push((0xD800 + w / 0x400) as u16);
            r.push((0xDC00 + w % 0x400) as u16);
        }
        proof {
            let next = src@.take(it.index() + 1);
            assert(next.drop_last() =~= done);
            assert(next.last() == c);
        }
    }
    assert(src@.take(src@.len() as int) =~= src@);
    r
}

/// Appends bytes to a packet under construction. None of these can fail.
pub trait PacketWriteExt {
    fn write_u8(&mut self, v: u8);

    fn write_u16(&mut self, v: u16);

    fn write_u16_le(&mut self, v: u16);

    fn write_u32(&mut self, v: u32);

    fn write_i32(&mut self, v: i32);

    fn write_bytes(&mut self, src: &[u8]);

    fn write_zeros(&mut self, count: usize);

    fn write_str_block(&mut self, src: &str, block_size: usize);

    fn write_str_nul(&mut self, src: &str);

    fn write_utf16_nul(&mut self, src: &str);

    fn write_utf16le_nul(&mut self, src: &str);

    fn write_utf16_pascal(&mut self, src: &str);

    fn write_utf16le_pascal(&mut self, src: &str);

    fn write_entity_id(&mut self, src: EntityId);

    fn write_direction(&mut self, src: Direction);
}

/// The big-endian `u16` at `data[i..i + 2]`.
pub fn be_u16_at(data: &[u8], i: usize) -> (r: u16)
    requires
        i + 2 <= data@.len(),
    ensures
        r == be_u16(data@, i as int),
{
    (data[i] as u16) * 0x100 + (data[i + 1] as u16)
}

/// The big-endian `u32` at `data[i..i + 4]`.
pub fn be_u32_at(data: &[u8], i: usize) -> (r: u32)
    requires
        i + 4 <= data@.len(),
    ensures
        r == be_u32(data@, i as int),
{
    (data[i] as u32) * 0x1000000 + (data[i + 1] as u32) * 0x10000 + (data[i + 2] as u32) * 0x100
        + (data[i + 3] as u32)
}

/// An optional entity id as a field: all ones stands for none.
pub open spec fn optional_id_field(id: Option<EntityId>) -> u32 {
    match id {
        Some(c) => c@,
        None => 0xffffffff,
    }
}

/// The optional entity id a field holds.
pub open spec fn optional_id_of(raw: u32) -> Option<EntityId> {
    if raw == 0xffffffff {
        None
    } else {
        Some(EntityId::spec_from_u32(raw))
    }
}

pub fn write_optional_id(writer: &mut Vec<u8>, id: Option<EntityId>)
    ensures
        final(writer)@ == old(writer)@ + u32_be(optional_id_field(id)),
{
    match id {
        Some(c) => writer.write_entity_id(c),
        None => writer.write_u32(0xffffffff),
    }
}

/// The bytes of a length-prefixed big-endian UTF-16 string. The length is
/// the number of code units, kept to its low 16 bits.
pub open spec fn utf16_pascal_bytes(cs: Seq<char>) -> Seq<u8> {
    u16_be(utf16_encode(cs).len() as u16) + units_be(utf16_encode(cs))
}

/// As `utf16_pascal_bytes`, with the units little-endian; the length stays
/// big-endian.
pub open spec fn utf16le_pascal_bytes(cs: Seq<char>) -> Seq<u8> {
    u16_be(utf16_encode(cs).len() as u16) + units_le(utf16_encode(cs))
}

impl PacketWriteExt for Vec<u8> {
    fn write_u8(&mut self, v: u8)
        ensures
            final(self)@ == old(self)@.push(v),
    {
        self.push(v);
    }

    fn write_u16(&mut self, v: u16)
        ensures
            final(self)@ == old(self)@ + u16_be(v),
    {
        self.push((v / 0x100) as u8);
        self.push((v % 0x100) as u8);
        assert(self@ =~= old(self)@ + u16_be(v));
    }

    fn write_u16_le(&mut self, v: u16)
        ensures
            final(self)@ == old(self)@ + u16_le(v),
    {
        self.push((v % 0x100) as u8);
        self.push((v / 0x100) as u8);
        assert(self@ =~= old(self)@ + u16_le(v));
    }

    fn write_u32(&mut self, v: u32)
        ensures
            final(self)@ == old(self)@ + u32_be(v),
    {
        self.push((v / 0x1000000) as u8);
        self.push(((v / 0x10000) % 0x100) as u8);
        self.push(((v / 0x100) % 0x100) as u8);
        self.push((v % 0x100) as u8);
        assert(self@ =~= old(self)@ + u32_be(v));
    }

    fn write_i32(&mut self, v: i32)
        ensures
            final(self)@ == old(self)@ + u32_be(v as u32),
    {
        self.write_u32(v as u32);
    }

    fn write_bytes(&mut self, src: &[u8])
        ensures
            final(self)@ == old(self)@ + src@,
    {
        let mut i: usize = 0;
        while i < src.len()
            invariant
                i <= src@.len(),
                self@ == old(self)@ + src@.take(i as int),
            decreases src@.len() - i,
        {
            self.push(src[i]);
            i = i + 1;
            assert(self@ =~= old(self)@ + src@.take(i as int));
        }
        assert(src@.take(src@.len() as int) =~= src@);
    }

    fn write_zeros(&mut self, count: usize)
        ensures
            final(self)@ == old(self)@ + zeros(count as nat),
    {
        let mut i: usize = 0;
        while i < count
            invariant
                i <= count,
                self@ == old(self)@ + zeros(i as nat),
            decreases count - i,
        {
            self.push(0);
            i = i + 1;
            assert(self@ =~= old(self)@ + zeros(i as nat));
        }
    }

    fn write_str_block(&mut self, src: &str, block_size: usize)
        ensures
            final(self)@ == old(self)@ + str_block_bytes(src.spec_bytes(), block_size as nat),
    {
        let bytes = src.as_bytes();
        if bytes.len() >= block_size {
            self.write_bytes(vstd::slice::slice_subrange(bytes, 0, block_size));
        } else {
            self.write_bytes(bytes);
            self.write_zeros(block_size - bytes.len());
            assert(self@ =~= old(self)@ + str_block_bytes(src.spec_bytes(), block_size as nat));
        }
    }

    fn write_str_nul(&mut self, src: &str)
        ensures
            final(self)@ == old(self)@ + src.spec_bytes() + seq![0u8],
    {
        self.write_bytes(src.as_bytes());
        self.push(0);
    }

    fn write_utf16_nul(&mut self, src: &str)
        ensures
            final(self)@ == old(self)@ + units_be(utf16_encode(src@)),
    {
        let units = encode_utf16(src);
        write_units_be(self, units.as_slice());
    }

    fn write_utf16le_nul(&mut self, src: &str)
        ensures
            final(self)@ == old(self)@ + units_le(utf16_encode(src@)),
    {
        let units = encode_utf16(src);
        write_units_le(self, units.as_slice());
    }

    fn write_utf16_pascal(&mut self, src: &str)
        ensures
            final(self)@ == old(self)@ + utf16_pascal_bytes(src@),
    {
        let units = encode_utf16(src);
        self.write_u16(units.len() as u16);
        write_units_be(self, units.as_slice());
        assert(self@ =~= old(self)@ + utf16_pascal_bytes(src@));
    }

    fn write_utf16le_pascal(&mut self, src: &str)
        ensures
            final(self)@ == old(self)@ + utf16le_pascal_bytes(src@),
    {
        let units = encode_utf16(src);
        self.write_u16(units.len() as u16);
        write_units_le(self, units.as_slice());
        assert(self@ =~= old(self)@ + utf16le_pascal_bytes(src@));
    }

    fn write_entity_id(&mut self, src: EntityId)
        ensures
            final(self)@ == old(self)@ + u32_be(src@),
    {
        self.write_u32(src.as_u32());
    }

    fn write_direction(&mut self, src: Direction)
        ensures
            final(self)@ == old(self)@.push(src.spec_repr()),
    {
        self.push(src.repr());
    }
}

/// Writes a fixed string field: all `N` bytes of its backing array.
pub fn write_str_fixed<const N: usize>(w: &mut Vec<u8>, src: &FixedString<N>)
    ensures
        final(w)@ == old(w)@ + src.spec_contents(),
{
    w.write_bytes(src.as_byte_array().as_slice());
}

fn write_units_be(w: &mut Vec<u8>, units: &[u16])
    ensures
        final(w)@ == old(w)@ + units_be(units@),
{
    let mut i: usize = 0;
    while i < units.len()
        invariant
            i <= units@.len(),
            w@ == old(w)@ + units_be(units@.take(i as int)),
        decreases units@.len() - i,
    {
        let u = units[i];
        w.push((u / 0x100) as u8);
        w.push((u % 0x100) as u8);
        proof {
            let a = units@.take(i as int);
            let b = units@.take(i + 1);
            assert(units_be(b) =~= units_be(a) + u16_be(u));
        }
        i = i + 1;
        assert(w@ =~= old(w)@ + units_be(units@.take(i as int)));
    }
    assert(units@.take(units@.len() as int) =~= units@);
}

fn write_units_le(w: &mut Vec<u8>, units: &[u16])
    ensures
        final(w)@ == old(w)@ + units_le(units@),
{
    let mut i: usize = 0;
    while i < units.len()
        invariant
            i <= units@.len(),
            w@ == old(w)@ + units_le(units@.take(i as int)),
        decreases units@.len() - i,
    {
        let u = units[i];
        w.push((u % 0x100) as u8);
        w.push((u / 0x100) as u8);
        proof {
            let a = units@.take(i as int);
            let b = units@.take(i + 1);
            assert(units_le(b) =~= units_le(a) + u16_le(u));
        }
        i = i + 1;
        assert(w@ =~= old(w)@ + units_le(units@.take(i as int)));
    }
    assert(units@.take(units@.len() as int) =~= units@);
}

proof fn lemma_skip_skip(s: Seq<u8>, a: int, b: int)
    requires
        0 <= a,
        0 <= b,
        a + b <= s.len(),
    ensures
        s.skip(a).skip(b) == s.skip(a + b),
        s.skip(a).subrange(0, b) == s.subrange(a, a + b),
{
    assert(s.skip(a).skip(b) =~= s.skip(a + b));
    assert(s.skip(a).subrange(0, b) =~= s.subrange(a, a + b));
}

/// The position of the first zero byte of `s`, or its length.
pub(crate) fn zero_index(s: &[u8]) -> (r: usize)
    ensures
        is_first_zero(s@, r as int),
{
    let mut i: usize = 0;
    while i < s.len()
        invariant
            i <= s@.len(),
            forall|j: int| 0 <= j < i ==> s@[j] != 0,
        decreases s@.len() - i,
    {
        if s[i] == 0 {
            return i;
        }
        i = i + 1;
    }
    i
}

/// The position of the first pair of zero bytes.
fn nul2_position(s: &[u8]) -> (r: Option<usize>)
    ensures
        r is Some <==> nul2_index(s@) is Some,
        r matches Some(i) ==> nul2_index(s@) == Some(i as int) && i + 1 < s@.len(),
{
    if s.len() < 2 {
        return None;
    }
    let mut i: usize = 0;
    while i < s.len() - 1
        invariant
            s@.len() >= 2,
            i <= s@.len(),
            forall|j: int| 0 <= j < i ==> !is_nul2_at(s@, j),
        decreases s@.len() - i,
    {
        if s[i] == 0 && s[i + 1] == 0 {
            proof {
                lemma_nul2_index(s@, i as int);
            }
            return Some(i);
        }
        i = i + 1;
    }
    proof {
        if exists|k: int| #[trigger] is_nul2_at(s@, k) {
            let k = choose|k: int| #[trigger] is_nul2_at(s@, k);
            assert(!is_nul2_at(s@, k));
        }
    }
    None
}

/// The bytes before the first zero of a valid UTF-8 block are valid UTF-8.
proof fn lemma_prefix_before_zero_valid(block: Seq<u8>, n: int)
    requires
        valid_utf8(block),
        is_first_zero(block, n),
    ensures
        valid_utf8(block.take(n)),
{
    if n == block.len() {
        assert(block.take(n) =~= block);
    } else {
        let b = block[n];
        assert(!is_continuation_byte(b)) by (bit_vector)
            requires
                b == 0u8,
        ;
        is_char_boundary_iff_not_is_continuation_byte(block, n);
        valid_utf8_split(block, n);
        assert(block.take(n) =~= block.subrange(0, n));
    }
}

} // verus!
