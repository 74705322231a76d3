//! Stream compression of packets sent to the client: a fixed Huffman code,
//! the writer that emits it and the decoder that reads it back.

pub mod tables;

use vstd::prelude::*;
use self::tables::{
    code_length, code_value, decode_next, lemma_decode_table_bound, lemma_symbol_decodes,
    symbol_decodes, walk_code, HUFFMAN_DECODE, HUFFMAN_ENCODE,
};
use vstd::arithmetic::div_mod::{lemma_breakdown, lemma_div_denominator, lemma_fundamental_div_mod};
use vstd::arithmetic::power2::{lemma2_to64, lemma_pow2_adds, lemma_pow2_pos, lemma_pow2_unfold, pow2};
use vstd::bits::{
    lemma_u32_low_bits_mask_is_mod, lemma_u32_shl_is_mul, lemma_u32_shr_is_div, lemma_u8_shr_is_div,
    low_bits_mask,
};

verus! {

/// The low `n` bits of `v`, most significant first.
pub open spec fn msb_bits(v: int, n: nat) -> Seq<bool>
    decreases n,
{
    if n == 0 {
        Seq::empty()
    } else {
        msb_bits(v / 2, (n - 1) as nat).push(v % 2 == 1)
    }
}

/// The number whose binary digits, most significant first, are `bits`.
pub open spec fn bits_value(bits: Seq<bool>) -> int
    decreases bits.len(),
{
    if bits.len() == 0 {
        0
    } else {
        2 * bits_value(bits.drop_last()) + if bits.last() {
            1int
        } else {
            0int
        }
    }
}

/// The bits of a byte sequence, each byte most significant bit first.
pub open spec fn bytes_bits(bytes: Seq<u8>) -> Seq<bool> {
    Seq::new(8 * bytes.len(), |i: int| msb_bits(bytes[i / 8] as int, 8)[i % 8])
}

/// Packs bits into bytes, eight at a time, the first of each eight becoming
/// the most significant bit; a last group of fewer than eight is dropped.
pub open spec fn bits_to_bytes(bits: Seq<bool>) -> Seq<u8> {
    Seq::new(bits.len() / 8, |k: int| bits_value(bits.subrange(8 * k, 8 * k + 8)) as u8)
}

/// `n` zero bits.
pub open spec fn zero_bits(n: nat) -> Seq<bool> {
    Seq::new(n, |i: int| false)
}

/// How many zero bits complete `n` bits to a whole number of bytes.
pub open spec fn padding_to_byte(n: nat) -> nat {
    ((8 - n % 8) % 8) as nat
}

/// The code of symbol `s`, as bits.
#[verifier::opaque]
pub open spec fn code_bits(s: int) -> Seq<bool> {
    msb_bits(code_value(s), code_length(s))
}

/// The symbol that ends a compressed packet.
pub open spec fn end_symbol() -> int {
    256
}

/// The codes of the bytes of `src`, one after the other.
pub open spec fn huffman_bits(src: Seq<u8>) -> Seq<bool>
    decreases src.len(),
{
    if src.len() == 0 {
        Seq::empty()
    } else {
        huffman_bits(src.drop_last()) + code_bits(src.last() as int)
    }
}

/// The bit stream of a compressed packet: the codes of its bytes, the end
/// marker, and zero bits up to the next byte boundary.
pub open spec fn huffman_stream(src: Seq<u8>) -> Seq<bool> {
    let bits = huffman_bits(src) + code_bits(end_symbol());
    bits + zero_bits(padding_to_byte(bits.len()))
}

/// The bytes of a compressed packet.
pub open spec fn huffman_compressed(src: Seq<u8>) -> Seq<u8> {
    bits_to_bytes(huffman_stream(src))
}

/// A decoder state whose two table entries lie inside the table.
pub open spec fn decode_state_in_table(entry: Option<usize>) -> bool {
    match entry {
        Some(e) => e <= 510,
        None => true,
    }
}

/// Runs the decoder over `bits` from position `i`, starting in state `entry`
/// with `out` decoded so far. The result holds the position just past the bit
/// that completed the end marker (or `None` if the bits ran out first), the
/// state then, and the bytes decoded.
pub open spec fn decode_from(entry: Option<usize>, out: Seq<u8>, bits: Seq<bool>, i: int) -> (
    Option<nat>,
    Option<usize>,
    Seq<u8>,
)
    decreases bits.len() - i,
{
    if i < 0 || i >= bits.len() {
        (None, entry, out)
    } else {
        let next = decode_next(entry, bits[i]);
        if next <= -256 {
            (Some((i + 1) as nat), entry, out)
        } else if next < 1 {
            decode_from(None, out.push((-next) as u8), bits, i + 1)
        } else {
            decode_from(Some((next * 2) as usize), out, bits, i + 1)
        }
    }
}

proof fn lemma_msb_bits_len(v: int, n: nat)
    ensures
        msb_bits(v, n).len() == n,
    decreases n,
{
    if n > 0 {
        lemma_msb_bits_len(v / 2, (n - 1) as nat);
    }
}

/// Reading back the low `n` bits of `v` gives `v` modulo 2^n.
proof fn lemma_bits_value_of_msb(v: int, n: nat)
    requires
        0 <= v,
    ensures
        bits_value(msb_bits(v, n)) == v % (pow2(n) as int),
    decreases n,
{
    lemma2_to64();
    if n > 0 {
        let m = (n - 1) as nat;
        lemma_msb_bits_len(v / 2, m);
        lemma_bits_value_of_msb(v / 2, m);
        assert(msb_bits(v, n).drop_last() =~= msb_bits(v / 2, m));
        lemma_pow2_unfold(n);
        lemma_pow2_pos(m);
        lemma_breakdown(v, 2, pow2(m) as int);
    }
}

proof fn lemma_bits_value_range(b: Seq<bool>)
    ensures
        0 <= bits_value(b) < pow2(b.len()),
    decreases b.len(),
{
    lemma2_to64();
    if b.len() > 0 {
        lemma_bits_value_range(b.drop_last());
        lemma_pow2_unfold(b.len());
    }
}

/// Bits read as a number and written out again at their length are the same bits.
proof fn lemma_msb_of_bits_value(b: Seq<bool>)
    ensures
        msb_bits(bits_value(b), b.len()) == b,
    decreases b.len(),
{
    if b.len() > 0 {
        let x = bits_value(b.drop_last());
        lemma_msb_of_bits_value(b.drop_last());
        let l: int = if b.last() {
            1
        } else {
            0
        };
        assert((2 * x + l) / 2 == x);
        assert(((2 * x + l) % 2 == 1) == b.last());
        assert(b.drop_last().push(b.last()) =~= b);
    }
}

/// Splitting a number into a high part and `k` low bits splits its bits.
proof fn lemma_msb_split(a: int, m: nat, r: int, k: nat)
    requires
        0 <= a,
        0 <= r < pow2(k),
    ensures
        msb_bits(a * pow2(k) + r, m + k) == msb_bits(a, m) + msb_bits(r, k),
    decreases k,
{
    lemma2_to64();
    if k == 0 {
        assert(msb_bits(a, m) + msb_bits(r, 0) =~= msb_bits(a, m));
    } else {
        let k1 = (k - 1) as nat;
        lemma_pow2_unfold(k);
        lemma_pow2_pos(k1);
        let c = a * pow2(k1);
        assert(a * pow2(k) == 2 * c && c >= 0) by (nonlinear_arith)
            requires
                pow2(k) == 2 * pow2(k1),
                c == a * pow2(k1),
                a >= 0,
                pow2(k1) > 0,
        ;
        let x = a * pow2(k) + r;
        assert(x / 2 == c + r / 2);
        assert(x % 2 == r % 2);
        lemma_msb_split(a, m, r / 2, k1);
        assert((m + k - 1) as nat == m + k1);
        assert(msb_bits(x, m + k) == msb_bits(x / 2, m + k1).push(x % 2 == 1));
        assert(msb_bits(r, k) == msb_bits(r / 2, k1).push(r % 2 == 1));
        assert((msb_bits(a, m) + msb_bits(r / 2, k1)).push(r % 2 == 1) =~= msb_bits(a, m)
            + msb_bits(r, k));
    }
}

/// The first of the `n` bits of `v`, and the bits after it.
proof fn lemma_msb_first(v: int, n: nat)
    requires
        n >= 1,
        0 <= v < pow2(n),
    ensures
        msb_bits(v, n).len() == n,
        msb_bits(v, n)[0] == ((v / (pow2(n) as int / 2)) % 2 == 1),
        msb_bits(v, n).skip(1) == msb_bits(v % (pow2(n) as int / 2), (n - 1) as nat),
{
    let n1 = (n - 1) as nat;
    lemma_pow2_unfold(n);
    lemma_pow2_pos(n1);
    let p = pow2(n1) as int;
    assert(pow2(n) as int / 2 == p);
    let a = v / p;
    let r = v % p;
    lemma_fundamental_div_mod(v, p);
    assert(a < 2 && a >= 0 && a * p + r == v) by (nonlinear_arith)
        requires
            v < 2 * p,
            p > 0,
            v >= 0,
            v == p * a + r,
            0 <= r < p,
            a == v / p,
    ;
    lemma_msb_split(a, 1, r, n1);
    assert(1 + n1 == n);
    lemma_msb_bits_len(a, 1);
    lemma_msb_bits_len(r, n1);
    lemma_msb_bits_len(v, n);
    assert(msb_bits(a, 1) == msb_bits(a / 2, 0).push(a % 2 == 1));
    assert((msb_bits(a, 1) + msb_bits(r, n1)).skip(1) =~= msb_bits(r, n1));
}

/// The bit at place `j` of the `n` bits of `v`, counted from the most
/// significant end.
proof fn lemma_msb_bit(v: int, n: nat, j: int)
    requires
        0 <= v,
        0 <= j < n,
    ensures
        msb_bits(v, n)[j] == ((v / (pow2((n - 1 - j) as nat) as int)) % 2 == 1),
    decreases n,
{
    lemma2_to64();
    let m = (n - 1) as nat;
    lemma_msb_bits_len(v / 2, m);
    if j < m {
        lemma_msb_bit(v / 2, m, j);
        let e = (m - 1 - j) as nat;
        lemma_pow2_pos(e);
        lemma_pow2_unfold(e + 1);
        assert((e + 1) as nat == (n - 1 - j) as nat);
        lemma_div_denominator(v, 2, pow2(e) as int);
        assert(pow2((n - 1 - j) as nat) == 2 * pow2(e));
        assert((v / 2) / (pow2(e) as int) == v / (pow2((n - 1 - j) as nat) as int));
        assert(msb_bits(v, n)[j] == msb_bits(v / 2, m)[j]);
    } else {
        assert(pow2((n - 1 - j) as nat) == 1);
    }
}

/// The bit at place `j` (from the most significant end) of a byte.
proof fn lemma_byte_bit(b: u8, j: int)
    requires
        0 <= j < 8,
    ensures
        msb_bits(b as int, 8)[j] == ((b & (1u8 << ((7 - j) as u8))) != 0),
{
    let k = (7 - j) as u8;
    assert(((b & (1u8 << k)) != 0) == ((b >> k) & 1 == 1)) by (bit_vector)
        requires
            k < 8,
    ;
    assert(((b >> k) & 1 == 1) == ((b >> k) % 2 == 1)) by (bit_vector);
    lemma_u8_shr_is_div(b, k);
    lemma_msb_bit(b as int, 8, j);
    assert((8 - 1 - j) as nat == k as nat);
}

proof fn lemma_bytes_bits_len(s: Seq<u8>)
    ensures
        bytes_bits(s).len() == 8 * s.len(),
{
}

proof fn lemma_bytes_bits_concat(a: Seq<u8>, b: Seq<u8>)
    ensures
        bytes_bits(a + b) == bytes_bits(a) + bytes_bits(b),
{
    assert forall|i: int| 0 <= i < 8 * (a.len() + b.len()) implies #[trigger] bytes_bits(a + b)[i] == (
    bytes_bits(a) + bytes_bits(b))[i] by {
        if i >= 8 * a.len() {
            let i2 = i - 8 * a.len();
            assert(i / 8 == a.len() + i2 / 8);
            assert(i % 8 == i2 % 8);
        }
    }
    assert(bytes_bits(a + b) =~= bytes_bits(a) + bytes_bits(b));
}

proof fn lemma_bytes_bits_push(s: Seq<u8>, b: u8)
    ensures
        bytes_bits(s.push(b)) == bytes_bits(s) + msb_bits(b as int, 8),
{
    lemma_msb_bits_len(b as int, 8);
    assert(bytes_bits(seq![b]) =~= msb_bits(b as int, 8));
    assert(s.push(b) =~= s + seq![b]);
    lemma_bytes_bits_concat(s, seq![b]);
}

proof fn lemma_bytes_bits_skip1(s: Seq<u8>)
    requires
        s.len() > 0,
    ensures
        bytes_bits(s.skip(1)) == bytes_bits(s).skip(8),
{
    assert(s =~= seq![s[0]] + s.skip(1));
    lemma_bytes_bits_concat(seq![s[0]], s.skip(1));
    assert((bytes_bits(seq![s[0]]) + bytes_bits(s.skip(1))).skip(8) =~= bytes_bits(s.skip(1)));
}

/// Packing a whole number of bytes' worth of bits and unpacking them again
/// gives the bits back.
proof fn lemma_bytes_bits_of_packed(bits: Seq<bool>)
    requires
        bits.len() % 8 == 0,
    ensures
        bytes_bits(bits_to_bytes(bits)) == bits,
{
    let packed = bits_to_bytes(bits);
    assert forall|i: int| 0 <= i < bits.len() implies #[trigger] bytes_bits(packed)[i] == bits[i] by {
        let k = i / 8;
        let j = i % 8;
        let group = bits.subrange(8 * k, 8 * k + 8);
        lemma_bits_value_range(group);
        lemma2_to64();
        lemma_msb_of_bits_value(group);
        assert(packed[k] as int == bits_value(group));
        assert(group[j] == bits[i]);
    }
    assert(bytes_bits(packed) =~= bits);
}

proof fn lemma_packed_byte(t: Seq<u8>, k: int)
    requires
        0 <= k < t.len(),
    ensures
        bits_value(bytes_bits(t).subrange(8 * k, 8 * k + 8)) == t[k] as int,
{
    let bits = bytes_bits(t);
    let x = t[k] as int;
    lemma_msb_bits_len(x, 8);
    assert forall|j: int| 0 <= j < 8 implies #[trigger] bits.subrange(8 * k, 8 * k + 8)[j] == msb_bits(
        x,
        8,
    )[j] by {
        assert((8 * k + j) / 8 == k);
        assert((8 * k + j) % 8 == j);
    }
    assert(bits.subrange(8 * k, 8 * k + 8) =~= msb_bits(x, 8));
    lemma_bits_value_of_msb(x, 8);
    lemma2_to64();
}

/// Unpacking bytes into bits and packing them again gives the bytes back.
proof fn lemma_packed_bytes_bits(t: Seq<u8>)
    ensures
        bits_to_bytes(bytes_bits(t)) == t,
{
    let bits = bytes_bits(t);
    assert forall|k: int| 0 <= k < t.len() implies #[trigger] bits_to_bytes(bits)[k] == t[k] by {
        lemma_packed_byte(t, k);
    }
    assert(bits_to_bytes(bits) =~= t);
}

proof fn lemma_code_bits(s: int)
    ensures
        code_bits(s) == msb_bits(code_value(s), code_length(s)),
        code_bits(s).len() == code_length(s),
{
    reveal(code_bits);
    lemma_msb_bits_len(code_value(s), code_length(s));
}

proof fn lemma_huffman_bits_push(s: Seq<u8>, b: u8)
    ensures
        huffman_bits(s.push(b)) == huffman_bits(s) + code_bits(b as int),
{
    assert(s.push(b).drop_last() =~= s);
}

/// The codes of two texts one after the other are the codes of the joined text.
pub proof fn lemma_huffman_bits_concat(a: Seq<u8>, b: Seq<u8>)
    ensures
        huffman_bits(a + b) == huffman_bits(a) + huffman_bits(b),
    decreases b.len(),
{
    if b.len() == 0 {
        assert(a + b =~= a);
        assert(huffman_bits(a) + huffman_bits(b) =~= huffman_bits(a));
    } else {
        let b1 = b.drop_last();
        let c = code_bits(b.last() as int);
        lemma_huffman_bits_concat(a, b1);
        assert((a + b1).push(b.last()) =~= a + b);
        assert(b1.push(b.last()) =~= b);
        lemma_huffman_bits_push(a + b1, b.last());
        lemma_huffman_bits_push(b1, b.last());
        assert(huffman_bits(a) + huffman_bits(b1) + c =~= huffman_bits(a) + (huffman_bits(b1) + c));
    }
}

proof fn lemma_msb_bits_zero(k: nat)
    ensures
        msb_bits(0, k) == zero_bits(k),
    decreases k,
{
    if k > 0 {
        lemma_msb_bits_zero((k - 1) as nat);
        assert(msb_bits(0, k) =~= zero_bits(k));
    }
}

/// Bytes that extend `start` and whose bits are those of `start` followed by
/// `tail` are `start` followed by the packed `tail`.
proof fn lemma_written_bytes(start: Seq<u8>, written: Seq<u8>, tail: Seq<bool>)
    requires
        start.is_prefix_of(written),
        bytes_bits(written) == bytes_bits(start) + tail,
    ensures
        written == start + bits_to_bytes(tail),
{
    let t = written.skip(start.len() as int);
    assert(written =~= start + t);
    lemma_bytes_bits_concat(start, t);
    assert(bytes_bits(t) =~= tail) by {
        assert((bytes_bits(start) + bytes_bits(t)).skip(bytes_bits(start).len() as int) =~= bytes_bits(t));
        assert((bytes_bits(start) + tail).skip(bytes_bits(start).len() as int) =~= tail);
    }
    lemma_packed_bytes_bits(t);
}

/// The next bit of a reader at bit `off` of `data`, and the bits after it.
proof fn lemma_reader_bits(data: Seq<u8>, off: int)
    requires
        data.len() > 0,
        0 <= off < 8,
    ensures
        bytes_bits(data).skip(off)[0] == msb_bits(data[0] as int, 8)[off],
        off >= 7 ==> bytes_bits(data.skip(1)).skip(0) == bytes_bits(data).skip(off).skip(1),
        off < 7 ==> bytes_bits(data).skip(off + 1) == bytes_bits(data).skip(off).skip(1),
{
    lemma_bytes_bits_len(data);
    assert(bytes_bits(data)[off] == msb_bits(data[off / 8] as int, 8)[off % 8]);
    assert(off / 8 == 0 && off % 8 == off);
    if off >= 7 {
        lemma_bytes_bits_skip1(data);
        assert(bytes_bits(data.skip(1)).skip(0) =~= bytes_bits(data).skip(off).skip(1));
    } else {
        assert(bytes_bits(data).skip(off + 1) =~= bytes_bits(data).skip(off).skip(1));
    }
}

/// Reading a code whose walk ends in a leaf moves the decoder just past the
/// code: back to the root with the leaf's byte added, or to the end of the packet.
proof fn lemma_walk_decodes(
    entry: Option<usize>,
    v: int,
    n: nat,
    out: Seq<u8>,
    bits: Seq<bool>,
    i: int,
)
    requires
        1 <= n,
        0 <= v < pow2(n),
        0 <= i,
        i + n <= bits.len(),
        bits.subrange(i, i + n) == msb_bits(v, n),
        decode_state_in_table(entry),
        walk_code(entry, v, pow2(n) as int / 2) < 1,
    ensures
        walk_code(entry, v, pow2(n) as int / 2) <= -256 ==> decode_from(entry, out, bits, i).0 == Some(
            (i + n) as nat,
        ) && decode_from(entry, out, bits, i).2 == out,
        walk_code(entry, v, pow2(n) as int / 2) > -256 ==> decode_from(entry, out, bits, i)
            == decode_from(None, out.push((-walk_code(entry, v, pow2(n) as int / 2)) as u8), bits, i + n),
    decreases n,
{
    lemma2_to64();
    lemma_msb_first(v, n);
    let p = pow2(n) as int / 2;
    assert(bits.subrange(i, i + n)[0] == bits[i]);
    let next = decode_next(entry, bits[i]);
    if n > 1 {
        let n1 = (n - 1) as nat;
        lemma_pow2_unfold(n);
        lemma_pow2_unfold(n1);
        lemma_pow2_pos((n1 - 1) as nat);
        assert(p == pow2(n1));
        assert(p >= 2);
        assert(pow2(n1) as int / 2 == p / 2);
        let base: int = match entry {
            Some(e) => e as int,
            None => 0,
        };
        lemma_decode_table_bound(base + if bits[i] {
            1int
        } else {
            0int
        });
        assert(next >= 1);
        let e2 = Some((next * 2) as usize);
        assert(bits.subrange(i + 1, i + n) =~= bits.subrange(i, i + n).skip(1));
        lemma_walk_decodes(e2, v % p, n1, out, bits, i + 1);
        assert(i + 1 + n1 == i + n);
    }
}

proof fn lemma_codes_decode(src: Seq<u8>, out: Seq<u8>, bits: Seq<bool>, i: int)
    requires
        0 <= i,
        i + huffman_bits(src).len() <= bits.len(),
        bits.subrange(i, i + huffman_bits(src).len()) == huffman_bits(src),
    ensures
        decode_from(None, out, bits, i) == decode_from(
            None,
            out + src,
            bits,
            i + huffman_bits(src).len(),
        ),
    decreases src.len(),
{
    if src.len() == 0 {
        assert(out + src =~= out);
    } else {
        let init = src.drop_last();
        let s = src.last();
        let hb = huffman_bits(init);
        lemma_symbol_decodes(s as int);
        let n = code_length(s as int);
        lemma_code_bits(s as int);
        assert(huffman_bits(src) == hb + code_bits(s as int));
        assert(bits.subrange(i, i + hb.len()) =~= huffman_bits(src).subrange(0, hb.len() as int));
        assert(huffman_bits(src).subrange(0, hb.len() as int) =~= hb);
        lemma_codes_decode(init, out, bits, i);
        let full = huffman_bits(src);
        assert(full.len() == hb.len() + n);
        assert forall|k: int| 0 <= k < n implies #[trigger] bits.subrange(
            i + hb.len(),
            i + hb.len() + n,
        )[k] == code_bits(s as int)[k] by {
            assert(bits.subrange(i, i + full.len())[hb.len() + k] == full[hb.len() + k]);
        }
        assert(bits.subrange(i + hb.len(), i + hb.len() + n) =~= code_bits(s as int));
        lemma_walk_decodes(None, code_value(s as int), n, out + init, bits, i + hb.len());
        assert((out + init).push(s) =~= out + src);
    }
}

/// Decompressing what compression produced gives the bytes back: a decoder at
/// the root of the tree, fed a compressed packet and whatever follows it, stops
/// at the end of the packet and holds exactly the packet's original bytes.
#[verifier::rlimit(40)]
pub proof fn lemma_huffman_roundtrip(src: Seq<u8>, rest: Seq<u8>)
    ensures
        ({
            let packet = huffman_compressed(src);
            let r = decode_from(None, Seq::empty(), bytes_bits(packet + rest), 0);
            &&& r.0 is Some
            &&& (r.0.unwrap() + 7) / 8 == packet.len()
            &&& r.2 == src
        }),
{
    let hb = huffman_bits(src);
    lemma_symbol_decodes(end_symbol());
    let n = code_length(end_symbol());
    lemma_code_bits(end_symbol());
    let body = hb + code_bits(end_symbol());
    let stream = huffman_stream(src);
    assert(stream == body + zero_bits(padding_to_byte(body.len())));
    assert(stream.len() % 8 == 0);
    let packet = huffman_compressed(src);
    let bits = bytes_bits(packet + rest);
    assert(bits == stream + bytes_bits(rest)) by {
        lemma_bytes_bits_of_packed(stream);
        lemma_bytes_bits_concat(packet, rest);
    }
    assert(bits.subrange(0, hb.len() as int) =~= hb) by {
        assert forall|k: int| 0 <= k < hb.len() implies #[trigger] bits.subrange(0, hb.len() as int)[k]
            == hb[k] by {
            assert(bits[k] == stream[k]);
            assert(stream[k] == body[k]);
        }
    }
    lemma_codes_decode(src, Seq::empty(), bits, 0);
    assert(Seq::<u8>::empty() + src =~= src);
    assert(bits.subrange(hb.len() as int, (hb.len() + n) as int) =~= code_bits(end_symbol())) by {
        assert forall|k: int| 0 <= k < n implies #[trigger] bits.subrange(
            hb.len() as int,
            (hb.len() + n) as int,
        )[k] == code_bits(end_symbol())[k] by {
            assert(bits[hb.len() + k] == stream[hb.len() + k]);
            assert(stream[hb.len() + k] == body[hb.len() + k]);
        }
    }
    lemma_walk_decodes(None, code_value(end_symbol()), n, src, bits, hb.len() as int);
    assert(packet.len() == stream.len() / 8);
}

/// Compressing a packet whose bytes came in two parts gives the codes of
/// the first part, then those of the second, then the end marker and the
/// padding: the compressed bytes depend only on the bytes of the packet,
/// not on how they were split among writes.
pub proof fn lemma_huffman_split(a: Seq<u8>, b: Seq<u8>)
    ensures
        huffman_stream(a + b) == ({
            let bits = huffman_bits(a) + huffman_bits(b) + code_bits(end_symbol());
            bits + zero_bits(padding_to_byte(bits.len()))
        }),
        huffman_compressed(a + b) == bits_to_bytes(huffman_stream(a + b)),
{
    lemma_huffman_bits_concat(a, b);
}

/// Collects bits and appends them, eight at a time, to a byte buffer.
pub struct BitWriter<'a> {
    storage: &'a mut Vec<u8>,
    buffer: u32,
    buffer_length: u32,
}

impl<'a> BitWriter<'a> {
    /// Fewer than eight bits wait in the buffer, and nothing above them.
    pub closed spec fn wf(&self) -> bool {
        &&& self.buffer_length < 8
        &&& (self.buffer as int) < pow2(self.buffer_length as nat)
    }

    /// The bits written but not yet stored, oldest first.
    pub closed spec fn pending(&self) -> Seq<bool> {
        msb_bits(self.buffer as int, self.buffer_length as nat)
    }

    /// The bytes of the buffer being written to.
    pub closed spec fn written(&self) -> Seq<u8> {
        self.storage@
    }

    /// The buffer being written to.
    pub closed spec fn sink(&self) -> &'a mut Vec<u8> {
        self.storage
    }

    /// Every bit that the buffer holds or that waits to be stored.
    pub open spec fn stream(&self) -> Seq<bool> {
        bytes_bits(self.written()) + self.pending()
    }

    /// Once the writer is done with, the buffer it wrote to holds the bytes
    /// it has stored.
    pub proof fn lemma_sink_holds_written(&self)
        ensures
            has_resolved(*self) ==> (*final(self.sink()))@ == self.written(),
    {
    }

    pub fn new(storage: &'a mut Vec<u8>) -> (r: BitWriter<'a>)
        ensures
            r.wf(),
            r.written() == old(storage)@,
            r.pending() == Seq::<bool>::empty(),
            *final(r.sink()) == *final(storage),
    {
        proof {
            lemma2_to64();
        }
        BitWriter { storage, buffer: 0, buffer_length: 0 }
    }

    /// Stores whole bytes from the front of the pending bits.
    fn write(&mut self)
        requires
            old(self).buffer_length <= 32,
            (old(self).buffer as int) < pow2(old(self).buffer_length as nat),
        ensures
            final(self).wf(),
            final(self).buffer_length == old(self).buffer_length % 8,
            final(self).stream() == old(self).stream(),
            old(self).written().is_prefix_of(final(self).written()),
            *final(final(self).sink()) == *final(old(self).sink()),
    {
        while self.buffer_length >= 8
            invariant
                self.buffer_length <= 32,
                (self.buffer as int) < pow2(self.buffer_length as nat),
                self.buffer_length % 8 == old(self).buffer_length % 8,
                self.stream() == old(self).stream(),
                old(self).written().is_prefix_of(self.written()),
                *final(self.sink()) == *final(old(self).sink()),
            decreases self.buffer_length,
        {
            let ghost before = self.written();
            let ghost b = self.buffer as int;
            self.buffer_length -= 8;
            let len = self.buffer_length;
            let value = ((self.buffer >> len) & 0xff) as u8;
            self.storage.push(value);
            proof {
                lemma2_to64();
                lemma_pow2_pos(len as nat);
                lemma_pow2_adds(len as nat, 8);
                assert((len + 8) as nat == len as nat + 8);
                assert(pow2((len + 8) as nat) == pow2(len as nat) * 256);
                lemma_pow2_adds((len + 8) as nat, (24 - len) as nat);
                lemma_pow2_pos((24 - len) as nat);
                assert((len + 8) as nat + (24 - len) as nat == 32);
                assert(pow2(len as nat) * 256 <= 0x1_0000_0000);
                lemma_u32_shl_is_mul(1, len);
            }
            // keep only the bits that are still pending
            self.buffer = self.buffer & ((1u32 << len) - 1);
            proof {
                let p = pow2(len as nat) as int;
                lemma_u32_shr_is_div(b as u32, len);
                let hi = b / p;
                let lo = b % p;
                lemma_fundamental_div_mod(b, p);
                assert(hi < 256 && hi * p + lo == b) by (nonlinear_arith)
                    requires
                        b < p * 256,
                        p > 0,
                        b >= 0,
                        b == p * hi + lo,
                        0 <= lo < p,
                        hi == b / p,
                ;
                let hu: u32 = hi as u32;
                assert(hu & 0xff == hu) by (bit_vector)
                    requires
                        hu < 256,
                ;
                assert(value as int == hi);
                lemma_u32_shl_is_mul(1, len);
                assert(1u32 << len == p);
                lemma_u32_low_bits_mask_is_mod(b as u32, len as nat);
                assert(low_bits_mask(len as nat) == p - 1);
                assert(self.buffer as int == lo);
                lemma_msb_split(hi, 8, lo, len as nat);
                lemma_bytes_bits_push(before, value);
                assert(self.written() == before.push(value));
                assert(bytes_bits(self.written()) + self.pending() =~= bytes_bits(before) + msb_bits(
                    b,
                    (len + 8) as nat,
                ));
            }
        }
    }

    /// Writes the `n`-bit value `v`, most significant bit first.
    pub fn write_bits(&mut self, n: u32, v: u32)
        requires
            old(self).wf(),
            old(self).pending().len() + n <= 32,
            (v as int) < pow2(n as nat),
        ensures
            final(self).wf(),
            final(self).stream() == old(self).stream() + msb_bits(v as int, n as nat),
            old(self).written().is_prefix_of(final(self).written()),
            *final(final(self).sink()) == *final(old(self).sink()),
    {
        let ghost b = self.buffer as int;
        let ghost len = self.buffer_length as nat;
        proof {
            lemma_msb_bits_len(b, len);
        }
        self.buffer_length += n;
        self.buffer = self.buffer.wrapping_shl(n) | v;
        proof {
            lemma2_to64();
            lemma_pow2_pos(n as nat);
            lemma_pow2_pos(len);
            lemma_pow2_adds(len, n as nat);
            assert(len + n as nat == (len + n) as nat);
            if n == 32 {
                assert(b == 0);
                assert(0u32 << 0u32 == 0u32) by (bit_vector);
                assert(0u32 | v == v) by (bit_vector);
                assert(self.buffer == v);
                assert(msb_bits(0, 0) =~= Seq::<bool>::empty());
                assert(Seq::<bool>::empty() + msb_bits(v as int, n as nat) =~= msb_bits(v as int, n as nat));
            } else {
                let p = pow2(n as nat) as int;
                assert(b * p + p <= pow2(len) * p) by (nonlinear_arith)
                    requires
                        b + 1 <= pow2(len),
                        p > 0,
                ;
                let ln = (len + n) as nat;
                assert(pow2(ln) <= 0x1_0000_0000) by {
                    lemma_pow2_adds(ln, (32 - ln) as nat);
                    lemma_pow2_pos((32 - ln) as nat);
                    assert(ln + (32 - ln) as nat == 32);
                }
                lemma_u32_shl_is_mul(b as u32, n);
                lemma_u32_shl_is_mul(1, n);
                let bu: u32 = b as u32;
                let x: u32 = bu << n;
                assert(x | v == x + v) by (bit_vector)
                    requires
                        n < 32,
                        v < (1u32 << n),
                        x == bu << n,
                ;
                assert(self.buffer as int == b * p + v);
                lemma_msb_split(b, len, v as int, n as nat);
            }
        }
        self.write();
    }

    /// What a bit writer has stored, after bytes `start` that it has kept,
    /// is `start` followed by the whole bytes of the bits written since,
    /// each packed most significant bit first; the fewer than eight bits
    /// left over wait to be stored.
    pub proof fn lemma_stored_bytes(&self, start: Seq<u8>, bits: Seq<bool>)
        requires
            self.wf(),
            start.is_prefix_of(self.written()),
            self.stream() == bytes_bits(start) + bits,
        ensures
            self.written() == start + bits_to_bytes(bits),
            self.pending() == bits.skip((8 * (bits.len() / 8)) as int),
            self.pending().len() == bits.len() % 8,
    {
        let w = self.written();
        let t = w.skip(start.len() as int);
        let p = self.pending();
        lemma_msb_bits_len(self.buffer as int, self.buffer_length as nat);
        assert(w =~= start + t);
        lemma_bytes_bits_concat(start, t);
        lemma_bytes_bits_len(t);
        lemma_bytes_bits_len(start);
        assert(bits =~= bytes_bits(t) + p) by {
            assert((bytes_bits(start) + bits).skip(bytes_bits(start).len() as int) =~= bits);
            assert((bytes_bits(start) + bytes_bits(t) + p).skip(bytes_bits(start).len() as int) =~= bytes_bits(t) + p);
        }
        assert(bits.len() / 8 == t.len());
        assert forall|k: int| 0 <= k < t.len() implies #[trigger] bits_to_bytes(bits)[k] == t[k] by {
            lemma_packed_byte(t, k);
            assert(bits.subrange(8 * k, 8 * k + 8) =~= bytes_bits(t).subrange(8 * k, 8 * k + 8));
        }
        assert(bits_to_bytes(bits) =~= t);
        assert(bits.skip((8 * (bits.len() / 8)) as int) =~= p);
    }

    /// Completes the last byte with zero bits and stores it.
    pub fn flush(&mut self)
        requires
            old(self).wf(),
        ensures
            final(self).wf(),
            final(self).pending().len() == 0,
            final(self).stream() == old(self).stream() + zero_bits(
                padding_to_byte(old(self).pending().len()),
            ),
            old(self).written().is_prefix_of(final(self).written()),
            *final(final(self).sink()) == *final(old(self).sink()),
    {
        let ghost b = self.buffer as int;
        let ghost len = self.buffer_length as nat;
        proof {
            lemma2_to64();
            lemma_msb_bits_len(b, len);
            let l = self.buffer_length;
            assert(l & 7 == l) by (bit_vector)
                requires
                    l < 8,
            ;
        }
        if self.buffer_length & 7 != 0 {
            let align = 8 - (self.buffer_length & 7);
            self.buffer_length += align;
            self.buffer <<= align;
            proof {
                lemma_pow2_adds(len, align as nat);
                lemma_pow2_pos(align as nat);
                assert(b * pow2(align as nat) < 256) by (nonlinear_arith)
                    requires
                        b < pow2(len),
                        pow2(len) * pow2(align as nat) == 256,
                        pow2(align as nat) > 0,
                ;
                lemma_u32_shl_is_mul(b as u32, align);
                lemma_msb_split(b, len, 0, align as nat);
                lemma_msb_bits_zero(align as nat);
                assert(b * pow2(align as nat) + 0 == self.buffer);
            }
        } else {
            proof {
                assert(zero_bits(0) =~= Seq::<bool>::empty());
                assert(self.stream() + zero_bits(0) =~= self.stream());
            }
        }
        self.write();
        proof {
            lemma_msb_bits_len(self.buffer as int, self.buffer_length as nat);
        }
    }
}

/// Compresses `src` as one packet and appends it to `dest`.
pub fn huffman_compress(src: &[u8], dest: &mut Vec<u8>)
    ensures
        final(dest)@ == old(dest)@ + huffman_compressed(src@),
{
    let ghost start = dest@;
    let ghost fin = *final(dest);
    let mut writer = BitWriter::new(dest);
    let mut k: usize = 0;
    while k < src.len()
        invariant
            writer.wf(),
            k <= src.len(),
            writer.stream() == bytes_bits(start) + huffman_bits(src@.take(k as int)),
            start.is_prefix_of(writer.written()),
            *final(writer.sink()) == fin,
        decreases src.len() - k,
    {
        let i = src[k] as usize;
        proof {
            lemma_symbol_decodes(i as int);
            lemma_code_bits(i as int);
            lemma_msb_bits_len(writer.buffer as int, writer.buffer_length as nat);
            assert(src@.take(k + 1) =~= src@.take(k as int).push(src[k as int]));
            lemma_huffman_bits_push(src@.take(k as int), src[k as int]);
        }
        writer.write_bits(HUFFMAN_ENCODE[2 * i], HUFFMAN_ENCODE[2 * i + 1]);
        k += 1;
    }
    proof {
        assert(src@.take(k as int) =~= src@);
        lemma_symbol_decodes(end_symbol());
        lemma_code_bits(end_symbol());
        lemma_msb_bits_len(writer.buffer as int, writer.buffer_length as nat);
    }
    writer.write_bits(HUFFMAN_ENCODE[0x200], HUFFMAN_ENCODE[0x201]);
    let ghost before_flush = writer.pending().len();
    writer.flush();
    proof {
        let body = huffman_bits(src@) + code_bits(end_symbol());
        lemma_bytes_bits_len(start);
        lemma_bytes_bits_len(writer.written());
        assert(padding_to_byte(before_flush) == padding_to_byte(body.len()));
        assert(writer.pending() =~= Seq::<bool>::empty());
        assert(bytes_bits(writer.written()) =~= bytes_bits(start) + huffman_stream(src@));
        lemma_written_bytes(start, writer.written(), huffman_stream(src@));
    }
}

/// Compresses the bytes written to it, packet by packet, into a byte buffer.
pub struct HuffmanVecWriter<'a> {
    storage: BitWriter<'a>,
    start: Ghost<Seq<u8>>,
    input: Ghost<Seq<u8>>,
}

impl<'a> HuffmanVecWriter<'a> {
    /// The buffer holds whole packets up to `start`, and the codes of the
    /// bytes of the open packet are written after them.
    pub closed spec fn wf(&self) -> bool {
        &&& self.storage.wf()
        &&& self.storage.stream() == bytes_bits(self.start@) + huffman_bits(self.input@)
        &&& self.start@.is_prefix_of(self.storage.written())
    }

    /// The bytes of the buffer being written to.
    pub closed spec fn written(&self) -> Seq<u8> {
        self.storage.written()
    }

    /// The buffer's bytes before the open packet.
    pub closed spec fn packet_start(&self) -> Seq<u8> {
        self.start@
    }

    /// The bytes of the open packet written so far.
    pub closed spec fn packet_input(&self) -> Seq<u8> {
        self.input@
    }

    /// The buffer being written to.
    pub closed spec fn sink(&self) -> &'a mut Vec<u8> {
        self.storage.sink()
    }

    /// Once the writer is done with, the buffer it wrote to holds the bytes
    /// it has stored.
    pub proof fn lemma_sink_holds_written(&self)
        ensures
            has_resolved(*self) ==> (*final(self.sink()))@ == self.written(),
    {
        self.storage.lemma_sink_holds_written();
    }

    pub fn new(storage: &'a mut Vec<u8>) -> (r: HuffmanVecWriter<'a>)
        ensures
            r.wf(),
            r.written() == old(storage)@,
            r.packet_start() == old(storage)@,
            r.packet_input() == Seq::<u8>::empty(),
            *final(r.sink()) == *final(storage),
    {
        let ghost start = storage@;
        let writer = BitWriter::new(storage);
        proof {
            assert(bytes_bits(start) + Seq::<bool>::empty() =~= bytes_bits(start));
        }
        HuffmanVecWriter { storage: writer, start: Ghost(start), input: Ghost(Seq::empty()) }
    }

    /// Ends the open packet: writes its end marker and completes its last byte.
    /// The buffer then holds what it held before the packet, followed by the
    /// packet's bytes compressed.
    pub fn finish(&mut self)
        requires
            old(self).wf(),
        ensures
            final(self).wf(),
            final(self).written() == old(self).packet_start() + huffman_compressed(
                old(self).packet_input(),
            ),
            final(self).packet_start() == final(self).written(),
            final(self).packet_input() == Seq::<u8>::empty(),
            *final(final(self).sink()) == *final(old(self).sink()),
    {
        let ghost start = self.start@;
        let ghost input = self.input@;
        proof {
            lemma_symbol_decodes(end_symbol());
            lemma_code_bits(end_symbol());
            lemma_msb_bits_len(self.storage.buffer as int, self.storage.buffer_length as nat);
        }
        self.storage.write_bits(HUFFMAN_ENCODE[0x200], HUFFMAN_ENCODE[0x201]);
        let ghost before_flush = self.storage.pending().len();
        self.storage.flush();
        proof {
            let body = huffman_bits(input) + code_bits(end_symbol());
            lemma_bytes_bits_len(start);
            lemma_bytes_bits_len(self.storage.written());
            assert(padding_to_byte(before_flush) == padding_to_byte(body.len()));
            assert(self.storage.pending() =~= Seq::<bool>::empty());
            assert(bytes_bits(self.storage.written()) =~= bytes_bits(start) + huffman_stream(input));
            lemma_written_bytes(start, self.storage.written(), huffman_stream(input));
            self.start = Ghost(self.storage.written());
            self.input = Ghost(Seq::empty());
            assert(bytes_bits(self.start@) + huffman_bits(self.input@) =~= bytes_bits(self.start@));
        }
    }

    /// Adds the bytes of `buf` to the open packet; all of them are taken.
    pub fn write(&mut self, buf: &[u8]) -> (r: usize)
        requires
            old(self).wf(),
        ensures
            final(self).wf(),
            r == buf.len(),
            final(self).packet_start() == old(self).packet_start(),
            final(self).packet_input() == old(self).packet_input() + buf@,
            old(self).written().is_prefix_of(final(self).written()),
            *final(final(self).sink()) == *final(old(self).sink()),
    {
        let ghost input0 = self.input@;
        let mut k: usize = 0;
        while k < buf.len()
            invariant
                self.wf(),
                k <= buf.len(),
                self.start@ == old(self).start@,
                self.input@ == input0 + buf@.take(k as int),
                old(self).written().is_prefix_of(self.written()),
                *final(self.sink()) == *final(old(self).sink()),
            decreases buf.len() - k,
        {
            let i = buf[k] as usize;
            proof {
                lemma_symbol_decodes(i as int);
                lemma_code_bits(i as int);
                lemma_msb_bits_len(self.storage.buffer as int, self.storage.buffer_length as nat);
                assert(input0 + buf@.take(k + 1) =~= (input0 + buf@.take(k as int)).push(buf[k as int]));
                lemma_huffman_bits_push(input0 + buf@.take(k as int), buf[k as int]);
            }
            let ghost written_before = self.storage.written();
            self.storage.write_bits(HUFFMAN_ENCODE[2 * i], HUFFMAN_ENCODE[2 * i + 1]);
            proof {
                let before = input0 + buf@.take(k as int);
                self.input = Ghost(input0 + buf@.take(k + 1));
                assert(bytes_bits(self.start@) + huffman_bits(self.input@) =~= (bytes_bits(self.start@)
                    + huffman_bits(before)) + code_bits(i as int));
                assert(self.start@.is_prefix_of(self.storage.written())) by {
                    assert(written_before.is_prefix_of(self.storage.written()));
                    assert forall|j: int| 0 <= j < self.start@.len() implies self.start@[j]
                        == self.storage.written()[j] by {
                        assert(self.start@[j] == written_before[j]);
                    }
                }
                assert(old(self).written().is_prefix_of(self.storage.written())) by {
                    assert forall|j: int| 0 <= j < old(self).written().len() implies old(
                        self,
                    ).written()[j] == self.storage.written()[j] by {
                        assert(old(self).written()[j] == written_before[j]);
                    }
                }
            }
            k += 1;
        }
        proof {
            assert(buf@.take(k as int) =~= buf@);
        }
        buf.len()
    }
}

/// Reads a byte slice bit by bit, most significant bit of each byte first.
pub struct BitReader<'a> {
    src: &'a [u8],
    bit_offset: usize,
}

impl<'a> BitReader<'a> {
    /// The bytes not yet read to the end.
    pub closed spec fn data(&self) -> Seq<u8> {
        self.src@
    }

    /// How many bits of the first byte have been read.
    pub closed spec fn offset(&self) -> nat {
        self.bit_offset as nat
    }

    pub open spec fn wf(&self) -> bool {
        &&& self.offset() < 8
        &&& self.data().len() == 0 ==> self.offset() == 0
    }

    /// The bits not yet read.
    pub open spec fn bits(&self) -> Seq<bool> {
        bytes_bits(self.data()).skip(self.offset() as int)
    }

    pub fn new(src: &'a [u8]) -> (r: BitReader<'a>)
        ensures
            r.wf(),
            r.data() == src@,
            r.offset() == 0,
    {
        BitReader { src, bit_offset: 0 }
    }

    /// Reads the next bit, or gives `None` at the end of the bytes.
    #[verifier::rlimit(30)]
    pub fn pop(&mut self) -> (r: Option<bool>)
        requires
            old(self).wf(),
        ensures
            final(self).wf(),
            old(self).data().len() == 0 ==> r is None && final(self).data() == old(self).data()
                && final(self).offset() == old(self).offset(),
            old(self).data().len() > 0 ==> {
                &&& r == Some(old(self).bits()[0])
                &&& final(self).bits() == old(self).bits().skip(1)
                &&& if old(self).offset() >= 7 {
                    final(self).data() == old(self).data().skip(1) && final(self).offset() == 0
                } else {
                    final(self).data() == old(self).data() && final(self).offset() == old(
                        self,
                    ).offset() + 1
                }
            },
    {
        if self.src.len() > 0 {
            let value = (self.src[0] & (1u8 << ((7 - self.bit_offset) as u8))) != 0;
            proof {
                lemma_byte_bit(self.src@[0], self.bit_offset as int);
                lemma_reader_bits(self.src@, self.bit_offset as int);
            }
            if self.bit_offset >= 7 {
                self.bit_offset = 0;
                self.src = vstd::slice::slice_subrange(self.src, 1, self.src.len());
                proof {
                    assert(self.src@ =~= old(self).src@.skip(1));
                }
            } else {
                self.bit_offset += 1;
            }
            Some(value)
        } else {
            None
        }
    }

    /// Skips the rest of a byte that has been read in part.
    pub fn flush_byte(&mut self)
        requires
            old(self).wf(),
        ensures
            final(self).wf(),
            final(self).offset() == 0,
            old(self).offset() != 0 ==> final(self).data() == old(self).data().skip(1),
            old(self).offset() == 0 ==> final(self).data() == old(self).data(),
    {
        if self.bit_offset != 0 {
            self.src = vstd::slice::slice_subrange(self.src, 1, self.src.len());
            self.bit_offset = 0;
            proof {
                assert(self.src@ =~= old(self).src@.skip(1));
            }
        }
    }
}

/// Decodes a compressed stream, packet by packet, from bytes handed to it in
/// pieces.
pub struct HuffmanDecoder {
    storage: Vec<u8>,
    entry_idx: Option<usize>,
}

impl Default for HuffmanDecoder {
    fn default() -> (r: Self)
        ensures
            r.state() is None,
            r.decoded() == Seq::<u8>::empty(),
    {
        HuffmanDecoder { storage: Vec::new(), entry_idx: None }
    }
}

impl HuffmanDecoder {
    /// The node of the decoding tree reached by the bits read since the last
    /// byte decoded (`None` at the root).
    pub closed spec fn state(&self) -> Option<usize> {
        self.entry_idx
    }

    /// The bytes of the open packet decoded so far.
    pub closed spec fn decoded(&self) -> Seq<u8> {
        self.storage@
    }

    pub open spec fn wf(&self) -> bool {
        decode_state_in_table(self.state())
    }

    /// Decodes `bytes` from the current state. If a packet ends in them, gives
    /// the number of bytes up to and including the one holding its last bit,
    /// and the packet's bytes; otherwise keeps what was decoded for the next call.
    #[verifier::rlimit(50)]
    pub fn write(&mut self, bytes: &[u8]) -> (r: Option<(usize, Vec<u8>)>)
        requires
            old(self).wf(),
        ensures
            final(self).wf(),
            ({
                let run = decode_from(old(self).state(), old(self).decoded(), bytes_bits(bytes@), 0);
                &&& final(self).state() == run.1
                &&& match run.0 {
                    Some(k) => {
                        &&& r is Some
                        &&& r.unwrap().0 == (k + 7) / 8
                        &&& r.unwrap().1@ == run.2
                        &&& final(self).decoded() == Seq::<u8>::empty()
                    },
                    None => r is None && final(self).decoded() == run.2,
                }
            }),
    {
        let ghost all = bytes_bits(bytes@);
        let ghost target = decode_from(self.entry_idx, self.storage@, all, 0);
        let mut reader = BitReader::new(bytes);
        let ghost mut pos: int = 0;
        proof {
            lemma_bytes_bits_len(bytes@);
            assert(all.skip(0) =~= all);
        }
        loop
            invariant
                reader.wf(),
                self.wf(),
                all == bytes_bits(bytes@),
                all.len() == 8 * bytes@.len(),
                reader.data().len() <= bytes@.len(),
                pos == 8 * (bytes@.len() - reader.data().len()) + reader.offset(),
                0 <= pos <= all.len(),
                reader.bits() == all.skip(pos),
                decode_from(self.state(), self.decoded(), all, pos) == target,
                target == decode_from(old(self).state(), old(self).decoded(), all, 0),
            decreases all.len() - pos,
        {
            proof {
                lemma_bytes_bits_len(reader.data());
            }
            let popped = reader.pop();
            match popped {
                None => {
                    assert(pos == all.len());
                    assert(target == (None::<nat>, self.state(), self.decoded()));
                    return None;
                },
                Some(bit) => {
                    assert(bit == all[pos]);
                    let next = match self.entry_idx {
                        Some(e) => HUFFMAN_DECODE[if bit {
                            e + 1
                        } else {
                            e
                        }],
                        None => HUFFMAN_DECODE[if bit {
                            1
                        } else {
                            0
                        }],
                    };
                    assert(next == decode_next(self.state(), bit));
                    if next <= -256 {
                        assert(target == (Some((pos + 1) as nat), self.state(), self.decoded()));
                        let ghost at_end = reader.offset();
                        let ghost left = reader.data().len();
                        reader.flush_byte();
                        let consumed = bytes.len() - reader.src.len();
                        assert(consumed == (pos + 1 + 7) / 8) by {
                            assert(pos + 1 == 8 * (bytes@.len() - left) + at_end);
                        }
                        let mut out = Vec::new();
                        std::mem::swap(&mut out, &mut self.storage);
                        assert(out@ == target.2);
                        return Some((consumed, out));
                    }
                    proof {
                        let base: int = match self.entry_idx {
                            Some(e) => e as int,
                            None => 0,
                        };
                        lemma_decode_table_bound(base + if bit {
                            1int
                        } else {
                            0int
                        });
                    }
                    if next < 1 {
                        self.storage.push((-next) as u8);
                        self.entry_idx = None;
                    } else {
                        self.entry_idx = Some((next as usize) * 2);
                    }
                    proof {
                        pos = pos + 1;
                    }
                },
            }
        }
    }
}

} // verus!
