//! The code table and the decoding tree of the stream compression, and the
//! facts about them that the decoder's proofs rest on.

use vstd::prelude::*;
use vstd::arithmetic::power2::{lemma2_to64, pow2};

verus! {

/// Code table of the stream compression: for each symbol `s` (the 256 byte
/// values and the end marker 256), entry `2 * s` is the length of its code in
/// bits and entry `2 * s + 1` the code itself, most significant bit first.
pub const HUFFMAN_ENCODE: [u32; 514] = [
    0x2, 0x0, 0x5, 0x1f, 0x6, 0x22, 0x7, 0x34, 0x7, 0x75, 0x6, 0x28, 0x6, 0x3b, 0x7, 0x32,
    0x8, 0xe0, 0x8, 0x62, 0x7, 0x56, 0x8, 0x79, 0x9, 0x19d, 0x8, 0x97, 0x6, 0x2a, 0x7, 0x57,
    0x8, 0x71, 0x8, 0x5b, 0x9, 0x1cc, 0x8, 0xa7, 0x7, 0x25, 0x7, 0x4f, 0x8, 0x66, 0x8, 0x7d,
    0x9, 0x191, 0x9, 0x1ce, 0x7, 0x3f, 0x9, 0x90, 0x8, 0x59, 0x8, 0x7b, 0x8, 0x91, 0x8, 0xc6,
    0x6, 0x2d, 0x9, 0x186, 0x8, 0x6f, 0x9, 0x93, 0xa, 0x1cc, 0x8, 0x5a, 0xa, 0x1ae, 0xa, 0x1c0,
    0x9, 0x148, 0x9, 0x14a, 0x9, 0x82, 0xa, 0x19f, 0x9, 0x171, 0x9, 0x120, 0x9, 0xe7, 0xa, 0x1f3,
    0x9, 0x14b, 0x9, 0x100, 0x9, 0x190, 0x6, 0x13, 0x9, 0x161, 0x9, 0x125, 0x9, 0x133, 0x9, 0x195,
    0x9, 0x173, 0x9, 0x1ca, 0x9, 0x86, 0x9, 0x1e9, 0x9, 0xdb, 0x9, 0x1ec, 0x9, 0x8b, 0x9, 0x85,
    0x5, 0xa, 0x8, 0x96, 0x8, 0x9c, 0x9, 0x1c3, 0x9, 0x19c, 0x9, 0x8f, 0x9, 0x18f, 0x9, 0x91,
    0x9, 0x87, 0x9, 0xc6, 0x9, 0x177, 0x9, 0x89, 0x9, 0xd6, 0x9, 0x8c, 0x9, 0x1ee, 0x9, 0x1eb,
    0x9, 0x84, 0x9, 0x164, 0x9, 0x175, 0x9, 0x1cd, 0x8, 0x5e, 0x9, 0x88, 0x9, 0x12b, 0x9, 0x172,
    0x9, 0x10a, 0x9, 0x8d, 0x9, 0x13a, 0x9, 0x11c, 0xa, 0x1e1, 0xa, 0x1e0, 0x9, 0x187, 0xa, 0x1dc,
    0xa, 0x1df, 0x7, 0x74, 0x9, 0x19f, 0x8, 0x8d, 0x8, 0xe4, 0x7, 0x79, 0x9, 0xea, 0x9, 0xe1,
    0x8, 0x40, 0x7, 0x41, 0x9, 0x10b, 0x9, 0xb0, 0x8, 0x6a, 0x8, 0xc1, 0x7, 0x71, 0x7, 0x78,
    0x8, 0xb1, 0x9, 0x14c, 0x7, 0x43, 0x8, 0x76, 0x7, 0x66, 0x7, 0x4d, 0x9, 0x8a, 0x6, 0x2f,
    0x8, 0xc9, 0x9, 0xce, 0x9, 0x149, 0x9, 0x160, 0xa, 0x1ba, 0xa, 0x19e, 0xa, 0x39f, 0x9, 0xe5,
    0x9, 0x194, 0x9, 0x184, 0x9, 0x126, 0x7, 0x30, 0x8, 0x6c, 0x9, 0x121, 0x9, 0x1e8, 0xa, 0x1c1,
    0xa, 0x11d, 0xa, 0x163, 0xa, 0x385, 0xa, 0x3db, 0xa, 0x17d, 0xa, 0x106, 0xa, 0x397, 0xa, 0x24e,
    0x7, 0x2e, 0x8, 0x98, 0xa, 0x33c, 0xa, 0x32e, 0xa, 0x1e9, 0x9, 0xbf, 0xa, 0x3df, 0xa, 0x1dd,
    0xa, 0x32d, 0xa, 0x2ed, 0xa, 0x30b, 0xa, 0x107, 0xa, 0x2e8, 0xa, 0x3de, 0xa, 0x125, 0xa, 0x1e8,
    0x9, 0xe9, 0xa, 0x1cd, 0xa, 0x1b5, 0x9, 0x165, 0xa, 0x232, 0xa, 0x2e1, 0xb, 0x3ae, 0xb, 0x3c6,
    0xb, 0x3e2, 0xa, 0x205, 0xa, 0x29a, 0xa, 0x248, 0xa, 0x2cd, 0xa, 0x23b, 0xb, 0x3c5, 0xa, 0x251,
    0xa, 0x2e9, 0xa, 0x252, 0x9, 0x1ea, 0xb, 0x3a0, 0xb, 0x391, 0xa, 0x23c, 0xb, 0x392, 0xb, 0x3d5,
    0xa, 0x233, 0xa, 0x2cc, 0xb, 0x390, 0xa, 0x1bb, 0xb, 0x3a1, 0xb, 0x3c4, 0xa, 0x211, 0xa, 0x203,
    0x9, 0x12a, 0xa, 0x231, 0xb, 0x3e0, 0xa, 0x29b, 0xb, 0x3d7, 0xa, 0x202, 0xb, 0x3ad, 0xa, 0x213,
    0xa, 0x253, 0xa, 0x32c, 0xa, 0x23d, 0xa, 0x23f, 0xa, 0x32f, 0xa, 0x11c, 0xa, 0x384, 0xa, 0x31c,
    0xa, 0x17c, 0xa, 0x30a, 0xa, 0x2e0, 0xa, 0x276, 0xa, 0x250, 0xb, 0x3e3, 0xa, 0x396, 0xa, 0x18f,
    0xa, 0x204, 0xa, 0x206, 0xa, 0x230, 0xa, 0x265, 0xa, 0x212, 0xa, 0x23e, 0xb, 0x3ac, 0xb, 0x393,
    0xb, 0x3e1, 0xa, 0x1de, 0xb, 0x3d6, 0xa, 0x31d, 0xb, 0x3e5, 0xb, 0x3e4, 0xa, 0x207, 0xb, 0x3c7,
    0xa, 0x277, 0xb, 0x3d4, 0x8, 0xc0, 0xa, 0x162, 0xa, 0x3da, 0xa, 0x124, 0xa, 0x1b4, 0xa, 0x264,
    0xa, 0x33d, 0xa, 0x1d1, 0xa, 0x1af, 0xa, 0x39e, 0xa, 0x24f, 0xb, 0x373, 0xa, 0x249, 0xb, 0x372,
    0x9, 0x167, 0xa, 0x210, 0xa, 0x23a, 0xa, 0x1b8, 0xb, 0x3af, 0xa, 0x18e, 0xa, 0x2ec, 0x7, 0x62,
    0x4, 0xd,
];

/// Decoding tree of the stream compression: node `k` (the root is 0) has its
/// two children at entries `2 * k` (bit 0) and `2 * k + 1` (bit 1). A positive
/// entry is the next node, an entry in `-255..=0` is the negated byte it decodes
/// to, and -256 or below marks the end of a packet.
pub const HUFFMAN_DECODE: [i16; 512] = [
    2, 1, 4, 3, 0, 5, 7, 6, 9, 8, 11, 10, 13, 12, 14, -256,
    16, 15, 18, 17, 20, 19, 22, 21, 23, -1, 25, 24, 27, 26, 29, 28,
    31, 30, 33, 32, 35, 34, 37, 36, 39, 38, -64, 40, 42, 41, 44, 43,
    45, -6, 47, 46, 49, 48, 51, 50, 52, -119, 53, -32, -14, 54, -5, 55,
    57, 56, 59, 58, -2, 60, 62, 61, 64, 63, 66, 65, 68, 67, 70, 69,
    72, 71, 73, -51, 75, 74, 77, 76, -111, -101, -97, -4, 79, 78, 80, -110,
    -116, 81, 83, 82, -255, 84, 86, 85, 88, 87, 90, 89, -10, -15, 92, 91,
    93, -21, 94, -117, 96, 95, 98, 97, 100, 99, 101, -114, 102, -105, 103, -26,
    105, 104, 107, 106, 109, 108, 111, 110, -3, 112, -7, 113, -131, 114, -144, 115,
    117, 116, 118, -20, 120, 119, 122, 121, 124, 123, 126, 125, 128, 127, -100, 129,
    -8, 130, 132, 131, 134, 133, 135, -120, -31, 136, 138, 137, -234, -109, 140, 139,
    142, 141, 144, 143, 145, -112, 146, -19, 148, 147, -66, 149, -145, 150, -65, -13,
    152, 151, 154, 153, 155, -30, 157, 156, 158, -99, 160, 159, 162, 161, 163, -23,
    164, -29, 165, -11, -115, 166, 168, 167, 170, 169, 171, -16, 172, -34, -132, 173,
    -108, 174, -22, 175, -9, 176, -84, 177, -37, -17, 178, -28, 180, 179, 182, 181,
    184, 183, 186, 185, -104, 187, -78, 188, -61, 189, -178, -79, -134, -59, -25, 190,
    -18, -83, -57, 191, 192, -67, 193, -98, -68, -12, 195, 194, -128, -55, -50, -24,
    196, -70, -33, -94, -129, 197, 198, -74, 199, -82, -87, -56, 200, -44, 201, -248,
    -81, -163, -123, -52, -113, 202, -41, -48, -40, -122, -90, 203, 204, -54, -192, -86,
    206, 205, -130, 207, 208, -53, -45, -133, 210, 209, -91, 211, 213, 212, -88, -106,
    215, 214, 217, 216, -49, 218, 220, 219, 222, 221, 224, 223, 226, 225, -102, 227,
    228, -160, 229, -46, 230, -127, 231, -103, 233, 232, 234, -60, -76, 235, -121, 236,
    -73, 237, 238, -149, -107, 239, 240, -35, -27, -71, 241, -69, -77, -89, -118, -62,
    -85, -75, -58, -72, -80, -63, -42, 242, -157, -150, -236, -139, -243, -126, -214, -142,
    -206, -138, -146, -240, -147, -204, -201, -152, -207, -227, -209, -154, -254, -153, -156, -176,
    -210, -165, -185, -172, -170, -195, -211, -232, -239, -219, -177, -200, -212, -175, -143, -244,
    -171, -246, -221, -203, -181, -202, -250, -173, -164, -184, -218, -193, -220, -199, -249, -190,
    -217, -230, -216, -169, -197, -191, 243, -47, 245, 244, 247, 246, -159, -148, 249, 248,
    -93, -92, -225, -96, -95, -151, 251, 250, 252, -241, -36, -161, 254, 253, -39, -135,
    -124, -187, -251, 255, -238, -162, -38, -242, -125, -43, -253, -215, -208, -140, -235, -137,
    -237, -158, -205, -136, -141, -155, -229, -228, -168, -213, -194, -224, -226, -196, -233, -183,
    -167, -231, -189, -174, -166, -252, -222, -198, -179, -188, -182, -223, -186, -180, -247, -245,
];

/// The length in bits of the code of symbol `s` (0 to 255 for a byte, 256 for
/// the end marker).
pub open spec fn code_length(s: int) -> nat {
    HUFFMAN_ENCODE@[2 * s] as nat
}

/// The code of symbol `s`, as a number.
pub open spec fn code_value(s: int) -> int {
    HUFFMAN_ENCODE@[2 * s + 1] as int
}

/// The table entry that the decoder reads in state `entry` (`None` at the root)
/// on input bit `bit`.
pub open spec fn decode_next(entry: Option<usize>, bit: bool) -> i16 {
    let base: int = match entry {
        Some(e) => e as int,
        None => 0,
    };
    HUFFMAN_DECODE@[base + if bit {
        1int
    } else {
        0int
    }]
}

/// Follows a code down the decoding tree from state `entry`, most significant
/// bit first: `v` holds the bits not yet read, `p` the weight of the next one
/// (a power of two). The result is the entry reached by the last bit, provided
/// that every earlier bit leads to an inner node; 1000 otherwise.
pub open spec fn walk_code(entry: Option<usize>, v: int, p: int) -> int
    decreases p,
{
    let next = decode_next(entry, (v / p) % 2 == 1);
    if p <= 1 {
        next as int
    } else if next >= 1 {
        walk_code(Some((next * 2) as usize), v % p, p / 2)
    } else {
        1000
    }
}

/// The code of symbol `s` fits its length, and the decoding tree maps it back
/// to `s` (to the end mark for the end marker).
pub open spec fn symbol_decodes(s: int) -> bool {
    &&& 1 <= code_length(s) <= 11
    &&& code_value(s) < pow2(code_length(s))
    &&& if s < 256 {
        walk_code(None, code_value(s), pow2(code_length(s)) as int / 2) == -s
    } else {
        walk_code(None, code_value(s), pow2(code_length(s)) as int / 2) <= -256
    }
}

#[verifier::rlimit(30)]
proof fn lemma_symbols_decode_0(s: int)
    requires
        0 <= s < 16,
    ensures
        symbol_decodes(s),
{
    lemma2_to64();
    if s == 0 {
        assert(code_length(0) == 2 && code_value(0) == 0);
        assert(walk_code(Some(4usize), 0, 1) == 0);
        assert(walk_code(None, 0, 2) == 0);
        assert(symbol_decodes(0));
    } else if s == 1 {
        assert(code_length(1) == 5 && code_value(1) == 31);
        assert(walk_code(Some(24usize), 1, 1) == -1);
        assert(walk_code(Some(12usize), 3, 2) == -1);
        assert(walk_code(Some(6usize), 7, 4) == -1);
        assert(walk_code(Some(2usize), 15, 8) == -1);
        assert(walk_code(None, 31, 16) == -1);
        assert(symbol_decodes(1));
    } else if s == 2 {
        assert(code_length(2) == 6 && code_value(2) == 34);
        assert(walk_code(Some(68usize), 0, 1) == -2);
        assert(walk_code(Some(36usize), 2, 2) == -2);
        assert(walk_code(Some(18usize), 2, 4) == -2);
        assert(walk_code(Some(8usize), 2, 8) == -2);
        assert(walk_code(Some(2usize), 2, 16) == -2);
        assert(walk_code(None, 34, 32) == -2);
        assert(symbol_decodes(2));
    } else if s == 3 {
        assert(code_length(3) == 7 && code_value(3) == 52);
        assert(walk_code(Some(136usize), 0, 1) == -3);
        assert(walk_code(Some(76usize), 0, 2) == -3);
        assert(walk_code(Some(40usize), 4, 4) == -3);
        assert(walk_code(Some(20usize), 4, 8) == -3);
        assert(walk_code(Some(10usize), 20, 16) == -3);
        assert(walk_code(Some(4usize), 52, 32) == -3);
        assert(walk_code(None, 52, 64) == -3);
        assert(symbol_decodes(3));
    } else if s == 4 {
        assert(code_length(4) == 7 && code_value(4) == 117);
        assert(walk_code(Some(90usize), 1, 1) == -4);
        assert(walk_code(Some(48usize), 1, 2) == -4);
        assert(walk_code(Some(26usize), 5, 4) == -4);
        assert(walk_code(Some(12usize), 5, 8) == -4);
        assert(walk_code(Some(6usize), 21, 16) == -4);
        assert(walk_code(Some(2usize), 53, 32) == -4);
        assert(walk_code(None, 117, 64) == -4);
        assert(symbol_decodes(4));
    } else if s == 5 {
        assert(code_length(5) == 6 && code_value(5) == 40);
        assert(walk_code(Some(62usize), 0, 1) == -5);
        assert(walk_code(Some(32usize), 0, 2) == -5);
        assert(walk_code(Some(16usize), 0, 4) == -5);
        assert(walk_code(Some(8usize), 8, 8) == -5);
        assert(walk_code(Some(2usize), 8, 16) == -5);
        assert(walk_code(None, 40, 32) == -5);
        assert(symbol_decodes(5));
    } else if s == 6 {
        assert(code_length(6) == 6 && code_value(6) == 59);
        assert(walk_code(Some(48usize), 1, 1) == -6);
        assert(walk_code(Some(26usize), 3, 2) == -6);
        assert(walk_code(Some(12usize), 3, 4) == -6);
        assert(walk_code(Some(6usize), 11, 8) == -6);
        assert(walk_code(Some(2usize), 27, 16) == -6);
        assert(walk_code(None, 59, 32) == -6);
        assert(symbol_decodes(6));
    } else if s == 7 {
        assert(code_length(7) == 7 && code_value(7) == 50);
        assert(walk_code(Some(138usize), 0, 1) == -7);
        assert(walk_code(Some(78usize), 2, 2) == -7);
        assert(walk_code(Some(40usize), 2, 4) == -7);
        assert(walk_code(Some(20usize), 2, 8) == -7);
        assert(walk_code(Some(10usize), 18, 16) == -7);
        assert(walk_code(Some(4usize), 50, 32) == -7);
        assert(walk_code(None, 50, 64) == -7);
        assert(symbol_decodes(7));
    } else if s == 8 {
        assert(code_length(8) == 8 && code_value(8) == 224);
        assert(walk_code(Some(160usize), 0, 1) == -8);
        assert(walk_code(Some(94usize), 0, 2) == -8);
        assert(walk_code(Some(50usize), 0, 4) == -8);
        assert(walk_code(Some(26usize), 0, 8) == -8);
        assert(walk_code(Some(12usize), 0, 16) == -8);
        assert(walk_code(Some(6usize), 32, 32) == -8);
        assert(walk_code(Some(2usize), 96, 64) == -8);
        assert(walk_code(None, 224, 128) == -8);
        assert(symbol_decodes(8));
    } else if s == 9 {
        assert(code_length(9) == 8 && code_value(9) == 98);
        assert(walk_code(Some(228usize), 0, 1) == -9);
        assert(walk_code(Some(140usize), 2, 2) == -9);
        assert(walk_code(Some(78usize), 2, 4) == -9);
        assert(walk_code(Some(40usize), 2, 8) == -9);
        assert(walk_code(Some(20usize), 2, 16) == -9);
        assert(walk_code(Some(10usize), 34, 32) == -9);
        assert(walk_code(Some(4usize), 98, 64) == -9);
        assert(walk_code(None, 98, 128) == -9);
        assert(symbol_decodes(9));
    } else if s == 10 {
        assert(code_length(10) == 7 && code_value(10) == 86);
        assert(walk_code(Some(108usize), 0, 1) == -10);
        assert(walk_code(Some(60usize), 2, 2) == -10);
        assert(walk_code(Some(32usize), 6, 4) == -10);
        assert(walk_code(Some(16usize), 6, 8) == -10);
        assert(walk_code(Some(8usize), 22, 16) == -10);
        assert(walk_code(Some(2usize), 22, 32) == -10);
        assert(walk_code(None, 86, 64) == -10);
        assert(symbol_decodes(10));
    } else if s == 11 {
        assert(code_length(11) == 8 && code_value(11) == 121);
        assert(walk_code(Some(210usize), 1, 1) == -11);
        assert(walk_code(Some(128usize), 1, 2) == -11);
        assert(walk_code(Some(72usize), 1, 4) == -11);
        assert(walk_code(Some(38usize), 9, 8) == -11);
        assert(walk_code(Some(20usize), 25, 16) == -11);
        assert(walk_code(Some(10usize), 57, 32) == -11);
        assert(walk_code(Some(4usize), 121, 64) == -11);
        assert(walk_code(None, 121, 128) == -11);
        assert(symbol_decodes(11));
    } else if s == 12 {
        assert(code_length(12) == 9 && code_value(12) == 413);
        assert(walk_code(Some(264usize), 1, 1) == -12);
        assert(walk_code(Some(162usize), 1, 2) == -12);
        assert(walk_code(Some(96usize), 5, 4) == -12);
        assert(walk_code(Some(52usize), 13, 8) == -12);
        assert(walk_code(Some(28usize), 29, 16) == -12);
        assert(walk_code(Some(14usize), 29, 32) == -12);
        assert(walk_code(Some(6usize), 29, 64) == -12);
        assert(walk_code(Some(2usize), 157, 128) == -12);
        assert(walk_code(None, 413, 256) == -12);
        assert(symbol_decodes(12));
    } else if s == 13 {
        assert(code_length(13) == 8 && code_value(13) == 151);
        assert(walk_code(Some(190usize), 1, 1) == -13);
        assert(walk_code(Some(116usize), 3, 2) == -13);
        assert(walk_code(Some(66usize), 7, 4) == -13);
        assert(walk_code(Some(34usize), 7, 8) == -13);
        assert(walk_code(Some(18usize), 23, 16) == -13);
        assert(walk_code(Some(8usize), 23, 32) == -13);
        assert(walk_code(Some(2usize), 23, 64) == -13);
        assert(walk_code(None, 151, 128) == -13);
        assert(symbol_decodes(13));
    } else if s == 14 {
        assert(code_length(14) == 6 && code_value(14) == 42);
        assert(walk_code(Some(60usize), 0, 1) == -14);
        assert(walk_code(Some(32usize), 2, 2) == -14);
        assert(walk_code(Some(16usize), 2, 4) == -14);
        assert(walk_code(Some(8usize), 10, 8) == -14);
        assert(walk_code(Some(2usize), 10, 16) == -14);
        assert(walk_code(None, 42, 32) == -14);
        assert(symbol_decodes(14));
    } else if s == 15 {
        assert(code_length(15) == 7 && code_value(15) == 87);
        assert(walk_code(Some(108usize), 1, 1) == -15);
        assert(walk_code(Some(60usize), 3, 2) == -15);
        assert(walk_code(Some(32usize), 7, 4) == -15);
        assert(walk_code(Some(16usize), 7, 8) == -15);
        assert(walk_code(Some(8usize), 23, 16) == -15);
        assert(walk_code(Some(2usize), 23, 32) == -15);
        assert(walk_code(None, 87, 64) == -15);
        assert(symbol_decodes(15));
    }
}

#[verifier::rlimit(30)]
proof fn lemma_symbols_decode_16(s: int)
    requires
        16 <= s < 32,
    ensures
        symbol_decodes(s),
{
    lemma2_to64();
    if s == 16 {
        assert(code_length(16) == 8 && code_value(16) == 113);
        assert(walk_code(Some(218usize), 1, 1) == -16);
        assert(walk_code(Some(132usize), 1, 2) == -16);
        assert(walk_code(Some(74usize), 1, 4) == -16);
        assert(walk_code(Some(38usize), 1, 8) == -16);
        assert(walk_code(Some(20usize), 17, 16) == -16);
        assert(walk_code(Some(10usize), 49, 32) == -16);
        assert(walk_code(Some(4usize), 113, 64) == -16);
        assert(walk_code(None, 113, 128) == -16);
        assert(symbol_decodes(16));
    } else if s == 17 {
        assert(code_length(17) == 8 && code_value(17) == 91);
        assert(walk_code(Some(232usize), 1, 1) == -17);
        assert(walk_code(Some(144usize), 3, 2) == -17);
        assert(walk_code(Some(80usize), 3, 4) == -17);
        assert(walk_code(Some(42usize), 11, 8) == -17);
        assert(walk_code(Some(22usize), 27, 16) == -17);
        assert(walk_code(Some(10usize), 27, 32) == -17);
        assert(walk_code(Some(4usize), 91, 64) == -17);
        assert(walk_code(None, 91, 128) == -17);
        assert(symbol_decodes(17));
    } else if s == 18 {
        assert(code_length(18) == 9 && code_value(18) == 460);
        assert(walk_code(Some(256usize), 0, 1) == -18);
        assert(walk_code(Some(156usize), 0, 2) == -18);
        assert(walk_code(Some(92usize), 4, 4) == -18);
        assert(walk_code(Some(50usize), 12, 8) == -18);
        assert(walk_code(Some(26usize), 12, 16) == -18);
        assert(walk_code(Some(12usize), 12, 32) == -18);
        assert(walk_code(Some(6usize), 76, 64) == -18);
        assert(walk_code(Some(2usize), 204, 128) == -18);
        assert(walk_code(None, 460, 256) == -18);
        assert(symbol_decodes(18));
    } else if s == 19 {
        assert(code_length(19) == 8 && code_value(19) == 167);
        assert(walk_code(Some(182usize), 1, 1) == -19);
        assert(walk_code(Some(110usize), 3, 2) == -19);
        assert(walk_code(Some(62usize), 7, 4) == -19);
        assert(walk_code(Some(32usize), 7, 8) == -19);
        assert(walk_code(Some(16usize), 7, 16) == -19);
        assert(walk_code(Some(8usize), 39, 32) == -19);
        assert(walk_code(Some(2usize), 39, 64) == -19);
        assert(walk_code(None, 167, 128) == -19);
        assert(symbol_decodes(19));
    } else if s == 20 {
        assert(code_length(20) == 7 && code_value(20) == 37);
        assert(walk_code(Some(146usize), 1, 1) == -20);
        assert(walk_code(Some(82usize), 1, 2) == -20);
        assert(walk_code(Some(44usize), 5, 4) == -20);
        assert(walk_code(Some(22usize), 5, 8) == -20);
        assert(walk_code(Some(10usize), 5, 16) == -20);
        assert(walk_code(Some(4usize), 37, 32) == -20);
        assert(walk_code(None, 37, 64) == -20);
        assert(symbol_decodes(20));
    } else if s == 21 {
        assert(code_length(21) == 7 && code_value(21) == 79);
        assert(walk_code(Some(112usize), 1, 1) == -21);
        assert(walk_code(Some(64usize), 3, 2) == -21);
        assert(walk_code(Some(34usize), 7, 4) == -21);
        assert(walk_code(Some(18usize), 15, 8) == -21);
        assert(walk_code(Some(8usize), 15, 16) == -21);
        assert(walk_code(Some(2usize), 15, 32) == -21);
        assert(walk_code(None, 79, 64) == -21);
        assert(symbol_decodes(21));
    } else if s == 22 {
        assert(code_length(22) == 8 && code_value(22) == 102);
        assert(walk_code(Some(226usize), 0, 1) == -22);
        assert(walk_code(Some(138usize), 2, 2) == -22);
        assert(walk_code(Some(78usize), 6, 4) == -22);
        assert(walk_code(Some(40usize), 6, 8) == -22);
        assert(walk_code(Some(20usize), 6, 16) == -22);
        assert(walk_code(Some(10usize), 38, 32) == -22);
        assert(walk_code(Some(4usize), 102, 64) == -22);
        assert(walk_code(None, 102, 128) == -22);
        assert(symbol_decodes(22));
    } else if s == 23 {
        assert(code_length(23) == 8 && code_value(23) == 125);
        assert(walk_code(Some(206usize), 1, 1) == -23);
        assert(walk_code(Some(126usize), 1, 2) == -23);
        assert(walk_code(Some(72usize), 5, 4) == -23);
        assert(walk_code(Some(38usize), 13, 8) == -23);
        assert(walk_code(Some(20usize), 29, 16) == -23);
        assert(walk_code(Some(10usize), 61, 32) == -23);
        assert(walk_code(Some(4usize), 125, 64) == -23);
        assert(walk_code(None, 125, 128) == -23);
        assert(symbol_decodes(23));
    } else if s == 24 {
        assert(code_length(24) == 9 && code_value(24) == 401);
        assert(walk_code(Some(270usize), 1, 1) == -24);
        assert(walk_code(Some(166usize), 1, 2) == -24);
        assert(walk_code(Some(98usize), 1, 4) == -24);
        assert(walk_code(Some(52usize), 1, 8) == -24);
        assert(walk_code(Some(28usize), 17, 16) == -24);
        assert(walk_code(Some(14usize), 17, 32) == -24);
        assert(walk_code(Some(6usize), 17, 64) == -24);
        assert(walk_code(Some(2usize), 145, 128) == -24);
        assert(walk_code(None, 401, 256) == -24);
        assert(symbol_decodes(24));
    } else if s == 25 {
        assert(code_length(25) == 9 && code_value(25) == 462);
        assert(walk_code(Some(254usize), 0, 1) == -25);
        assert(walk_code(Some(156usize), 2, 2) == -25);
        assert(walk_code(Some(92usize), 6, 4) == -25);
        assert(walk_code(Some(50usize), 14, 8) == -25);
        assert(walk_code(Some(26usize), 14, 16) == -25);
        assert(walk_code(Some(12usize), 14, 32) == -25);
        assert(walk_code(Some(6usize), 78, 64) == -25);
        assert(walk_code(Some(2usize), 206, 128) == -25);
        assert(walk_code(None, 462, 256) == -25);
        assert(symbol_decodes(25));
    } else if s == 26 {
        assert(code_length(26) == 7 && code_value(26) == 63);
        assert(walk_code(Some(126usize), 1, 1) == -26);
        assert(walk_code(Some(72usize), 3, 2) == -26);
        assert(walk_code(Some(38usize), 7, 4) == -26);
        assert(walk_code(Some(20usize), 15, 8) == -26);
        assert(walk_code(Some(10usize), 31, 16) == -26);
        assert(walk_code(Some(4usize), 63, 32) == -26);
        assert(walk_code(None, 63, 64) == -26);
        assert(symbol_decodes(26));
    } else if s == 27 {
        assert(code_length(27) == 9 && code_value(27) == 144);
        assert(walk_code(Some(360usize), 0, 1) == -27);
        assert(walk_code(Some(236usize), 0, 2) == -27);
        assert(walk_code(Some(146usize), 0, 4) == -27);
        assert(walk_code(Some(82usize), 0, 8) == -27);
        assert(walk_code(Some(44usize), 16, 16) == -27);
        assert(walk_code(Some(22usize), 16, 32) == -27);
        assert(walk_code(Some(10usize), 16, 64) == -27);
        assert(walk_code(Some(4usize), 144, 128) == -27);
        assert(walk_code(None, 144, 256) == -27);
        assert(symbol_decodes(27));
    } else if s == 28 {
        assert(code_length(28) == 8 && code_value(28) == 89);
        assert(walk_code(Some(234usize), 1, 1) == -28);
        assert(walk_code(Some(144usize), 1, 2) == -28);
        assert(walk_code(Some(80usize), 1, 4) == -28);
        assert(walk_code(Some(42usize), 9, 8) == -28);
        assert(walk_code(Some(22usize), 25, 16) == -28);
        assert(walk_code(Some(10usize), 25, 32) == -28);
        assert(walk_code(Some(4usize), 89, 64) == -28);
        assert(walk_code(None, 89, 128) == -28);
        assert(symbol_decodes(28));
    } else if s == 29 {
        assert(code_length(29) == 8 && code_value(29) == 123);
        assert(walk_code(Some(208usize), 1, 1) == -29);
        assert(walk_code(Some(128usize), 3, 2) == -29);
        assert(walk_code(Some(72usize), 3, 4) == -29);
        assert(walk_code(Some(38usize), 11, 8) == -29);
        assert(walk_code(Some(20usize), 27, 16) == -29);
        assert(walk_code(Some(10usize), 59, 32) == -29);
        assert(walk_code(Some(4usize), 123, 64) == -29);
        assert(walk_code(None, 123, 128) == -29);
        assert(symbol_decodes(29));
    } else if s == 30 {
        assert(code_length(30) == 8 && code_value(30) == 145);
        assert(walk_code(Some(196usize), 1, 1) == -30);
        assert(walk_code(Some(118usize), 1, 2) == -30);
        assert(walk_code(Some(66usize), 1, 4) == -30);
        assert(walk_code(Some(34usize), 1, 8) == -30);
        assert(walk_code(Some(18usize), 17, 16) == -30);
        assert(walk_code(Some(8usize), 17, 32) == -30);
        assert(walk_code(Some(2usize), 17, 64) == -30);
        assert(walk_code(None, 145, 128) == -30);
        assert(symbol_decodes(30));
    } else if s == 31 {
        assert(code_length(31) == 8 && code_value(31) == 198);
        assert(walk_code(Some(168usize), 0, 1) == -31);
        assert(walk_code(Some(100usize), 2, 2) == -31);
        assert(walk_code(Some(54usize), 6, 4) == -31);
        assert(walk_code(Some(28usize), 6, 8) == -31);
        assert(walk_code(Some(14usize), 6, 16) == -31);
        assert(walk_code(Some(6usize), 6, 32) == -31);
        assert(walk_code(Some(2usize), 70, 64) == -31);
        assert(walk_code(None, 198, 128) == -31);
        assert(symbol_decodes(31));
    }
}

#[verifier::rlimit(30)]
proof fn lemma_symbols_decode_32(s: int)
    requires
        32 <= s < 48,
    ensures
        symbol_decodes(s),
{
    lemma2_to64();
    if s == 32 {
        assert(code_length(32) == 6 && code_value(32) == 45);
        assert(walk_code(Some(58usize), 1, 1) == -32);
        assert(walk_code(Some(30usize), 1, 2) == -32);
        assert(walk_code(Some(16usize), 5, 4) == -32);
        assert(walk_code(Some(8usize), 13, 8) == -32);
        assert(walk_code(Some(2usize), 13, 16) == -32);
        assert(walk_code(None, 45, 32) == -32);
        assert(symbol_decodes(32));
    } else if s == 33 {
        assert(code_length(33) == 9 && code_value(33) == 390);
        assert(walk_code(Some(274usize), 0, 1) == -33);
        assert(walk_code(Some(170usize), 2, 2) == -33);
        assert(walk_code(Some(102usize), 6, 4) == -33);
        assert(walk_code(Some(54usize), 6, 8) == -33);
        assert(walk_code(Some(28usize), 6, 16) == -33);
        assert(walk_code(Some(14usize), 6, 32) == -33);
        assert(walk_code(Some(6usize), 6, 64) == -33);
        assert(walk_code(Some(2usize), 134, 128) == -33);
        assert(walk_code(None, 390, 256) == -33);
        assert(symbol_decodes(33));
    } else if s == 34 {
        assert(code_length(34) == 8 && code_value(34) == 111);
        assert(walk_code(Some(220usize), 1, 1) == -34);
        assert(walk_code(Some(134usize), 3, 2) == -34);
        assert(walk_code(Some(76usize), 7, 4) == -34);
        assert(walk_code(Some(40usize), 15, 8) == -34);
        assert(walk_code(Some(20usize), 15, 16) == -34);
        assert(walk_code(Some(10usize), 47, 32) == -34);
        assert(walk_code(Some(4usize), 111, 64) == -34);
        assert(walk_code(None, 111, 128) == -34);
        assert(symbol_decodes(34));
    } else if s == 35 {
        assert(code_length(35) == 9 && code_value(35) == 147);
        assert(walk_code(Some(358usize), 1, 1) == -35);
        assert(walk_code(Some(236usize), 3, 2) == -35);
        assert(walk_code(Some(146usize), 3, 4) == -35);
        assert(walk_code(Some(82usize), 3, 8) == -35);
        assert(walk_code(Some(44usize), 19, 16) == -35);
        assert(walk_code(Some(22usize), 19, 32) == -35);
        assert(walk_code(Some(10usize), 19, 64) == -35);
        assert(walk_code(Some(4usize), 147, 128) == -35);
        assert(walk_code(None, 147, 256) == -35);
        assert(symbol_decodes(35));
    } else if s == 36 {
        assert(code_length(36) == 10 && code_value(36) == 460);
        assert(walk_code(Some(458usize), 0, 1) == -36);
        assert(walk_code(Some(338usize), 0, 2) == -36);
        assert(walk_code(Some(216usize), 4, 4) == -36);
        assert(walk_code(Some(132usize), 12, 8) == -36);
        assert(walk_code(Some(74usize), 12, 16) == -36);
        assert(walk_code(Some(38usize), 12, 32) == -36);
        assert(walk_code(Some(20usize), 76, 64) == -36);
        assert(walk_code(Some(10usize), 204, 128) == -36);
        assert(walk_code(Some(4usize), 460, 256) == -36);
        assert(walk_code(None, 460, 512) == -36);
        assert(symbol_decodes(36));
    } else if s == 37 {
        assert(code_length(37) == 8 && code_value(37) == 90);
        assert(walk_code(Some(232usize), 0, 1) == -37);
        assert(walk_code(Some(144usize), 2, 2) == -37);
        assert(walk_code(Some(80usize), 2, 4) == -37);
        assert(walk_code(Some(42usize), 10, 8) == -37);
        assert(walk_code(Some(22usize), 26, 16) == -37);
        assert(walk_code(Some(10usize), 26, 32) == -37);
        assert(walk_code(Some(4usize), 90, 64) == -37);
        assert(walk_code(None, 90, 128) == -37);
        assert(symbol_decodes(37));
    } else if s == 38 {
        assert(code_length(38) == 10 && code_value(38) == 430);
        assert(walk_code(Some(470usize), 0, 1) == -38);
        assert(walk_code(Some(348usize), 2, 2) == -38);
        assert(walk_code(Some(224usize), 6, 4) == -38);
        assert(walk_code(Some(136usize), 14, 8) == -38);
        assert(walk_code(Some(76usize), 14, 16) == -38);
        assert(walk_code(Some(40usize), 46, 32) == -38);
        assert(walk_code(Some(20usize), 46, 64) == -38);
        assert(walk_code(Some(10usize), 174, 128) == -38);
        assert(walk_code(Some(4usize), 430, 256) == -38);
        assert(walk_code(None, 430, 512) == -38);
        assert(symbol_decodes(38));
    } else if s == 39 {
        assert(code_length(39) == 10 && code_value(39) == 448);
        assert(walk_code(Some(462usize), 0, 1) == -39);
        assert(walk_code(Some(342usize), 0, 2) == -39);
        assert(walk_code(Some(218usize), 0, 4) == -39);
        assert(walk_code(Some(132usize), 0, 8) == -39);
        assert(walk_code(Some(74usize), 0, 16) == -39);
        assert(walk_code(Some(38usize), 0, 32) == -39);
        assert(walk_code(Some(20usize), 64, 64) == -39);
        assert(walk_code(Some(10usize), 192, 128) == -39);
        assert(walk_code(Some(4usize), 448, 256) == -39);
        assert(walk_code(None, 448, 512) == -39);
        assert(symbol_decodes(39));
    } else if s == 40 {
        assert(code_length(40) == 9 && code_value(40) == 328);
        assert(walk_code(Some(296usize), 0, 1) == -40);
        assert(walk_code(Some(184usize), 0, 2) == -40);
        assert(walk_code(Some(110usize), 0, 4) == -40);
        assert(walk_code(Some(62usize), 8, 8) == -40);
        assert(walk_code(Some(32usize), 8, 16) == -40);
        assert(walk_code(Some(16usize), 8, 32) == -40);
        assert(walk_code(Some(8usize), 72, 64) == -40);
        assert(walk_code(Some(2usize), 72, 128) == -40);
        assert(walk_code(None, 328, 256) == -40);
        assert(symbol_decodes(40));
    } else if s == 41 {
        assert(code_length(41) == 9 && code_value(41) == 330);
        assert(walk_code(Some(294usize), 0, 1) == -41);
        assert(walk_code(Some(184usize), 2, 2) == -41);
        assert(walk_code(Some(110usize), 2, 4) == -41);
        assert(walk_code(Some(62usize), 10, 8) == -41);
        assert(walk_code(Some(32usize), 10, 16) == -41);
        assert(walk_code(Some(16usize), 10, 32) == -41);
        assert(walk_code(Some(8usize), 74, 64) == -41);
        assert(walk_code(Some(2usize), 74, 128) == -41);
        assert(walk_code(None, 330, 256) == -41);
        assert(symbol_decodes(41));
    } else if s == 42 {
        assert(code_length(42) == 9 && code_value(42) == 130);
        assert(walk_code(Some(374usize), 0, 1) == -42);
        assert(walk_code(Some(244usize), 2, 2) == -42);
        assert(walk_code(Some(150usize), 2, 4) == -42);
        assert(walk_code(Some(84usize), 2, 8) == -42);
        assert(walk_code(Some(44usize), 2, 16) == -42);
        assert(walk_code(Some(22usize), 2, 32) == -42);
        assert(walk_code(Some(10usize), 2, 64) == -42);
        assert(walk_code(Some(4usize), 130, 128) == -42);
        assert(walk_code(None, 130, 256) == -42);
        assert(symbol_decodes(42));
    } else if s == 43 {
        assert(code_length(43) == 10 && code_value(43) == 415);
        assert(walk_code(Some(472usize), 1, 1) == -43);
        assert(walk_code(Some(350usize), 3, 2) == -43);
        assert(walk_code(Some(226usize), 7, 4) == -43);
        assert(walk_code(Some(138usize), 15, 8) == -43);
        assert(walk_code(Some(78usize), 31, 16) == -43);
        assert(walk_code(Some(40usize), 31, 32) == -43);
        assert(walk_code(Some(20usize), 31, 64) == -43);
        assert(walk_code(Some(10usize), 159, 128) == -43);
        assert(walk_code(Some(4usize), 415, 256) == -43);
        assert(walk_code(None, 415, 512) == -43);
        assert(symbol_decodes(43));
    } else if s == 44 {
        assert(code_length(44) == 9 && code_value(44) == 369);
        assert(walk_code(Some(284usize), 1, 1) == -44);
        assert(walk_code(Some(176usize), 1, 2) == -44);
        assert(walk_code(Some(104usize), 1, 4) == -44);
        assert(walk_code(Some(56usize), 1, 8) == -44);
        assert(walk_code(Some(30usize), 17, 16) == -44);
        assert(walk_code(Some(16usize), 49, 32) == -44);
        assert(walk_code(Some(8usize), 113, 64) == -44);
        assert(walk_code(Some(2usize), 113, 128) == -44);
        assert(walk_code(None, 369, 256) == -44);
        assert(symbol_decodes(44));
    } else if s == 45 {
        assert(code_length(45) == 9 && code_value(45) == 288);
        assert(walk_code(Some(310usize), 0, 1) == -45);
        assert(walk_code(Some(196usize), 0, 2) == -45);
        assert(walk_code(Some(118usize), 0, 4) == -45);
        assert(walk_code(Some(66usize), 0, 8) == -45);
        assert(walk_code(Some(34usize), 0, 16) == -45);
        assert(walk_code(Some(18usize), 32, 32) == -45);
        assert(walk_code(Some(8usize), 32, 64) == -45);
        assert(walk_code(Some(2usize), 32, 128) == -45);
        assert(walk_code(None, 288, 256) == -45);
        assert(symbol_decodes(45));
    } else if s == 46 {
        assert(code_length(46) == 9 && code_value(46) == 231);
        assert(walk_code(Some(338usize), 1, 1) == -46);
        assert(walk_code(Some(216usize), 3, 2) == -46);
        assert(walk_code(Some(132usize), 7, 4) == -46);
        assert(walk_code(Some(74usize), 7, 8) == -46);
        assert(walk_code(Some(38usize), 7, 16) == -46);
        assert(walk_code(Some(20usize), 39, 32) == -46);
        assert(walk_code(Some(10usize), 103, 64) == -46);
        assert(walk_code(Some(4usize), 231, 128) == -46);
        assert(walk_code(None, 231, 256) == -46);
        assert(symbol_decodes(46));
    } else if s == 47 {
        assert(code_length(47) == 10 && code_value(47) == 499);
        assert(walk_code(Some(438usize), 1, 1) == -47);
        assert(walk_code(Some(326usize), 3, 2) == -47);
        assert(walk_code(Some(206usize), 3, 4) == -47);
        assert(walk_code(Some(126usize), 3, 8) == -47);
        assert(walk_code(Some(72usize), 19, 16) == -47);
        assert(walk_code(Some(38usize), 51, 32) == -47);
        assert(walk_code(Some(20usize), 115, 64) == -47);
        assert(walk_code(Some(10usize), 243, 128) == -47);
        assert(walk_code(Some(4usize), 499, 256) == -47);
        assert(walk_code(None, 499, 512) == -47);
        assert(symbol_decodes(47));
    }
}

#[verifier::rlimit(30)]
proof fn lemma_symbols_decode_48(s: int)
    requires
        48 <= s < 64,
    ensures
        symbol_decodes(s),
{
    lemma2_to64();
    if s == 48 {
        assert(code_length(48) == 9 && code_value(48) == 331);
        assert(walk_code(Some(294usize), 1, 1) == -48);
        assert(walk_code(Some(184usize), 3, 2) == -48);
        assert(walk_code(Some(110usize), 3, 4) == -48);
        assert(walk_code(Some(62usize), 11, 8) == -48);
        assert(walk_code(Some(32usize), 11, 16) == -48);
        assert(walk_code(Some(16usize), 11, 32) == -48);
        assert(walk_code(Some(8usize), 75, 64) == -48);
        assert(walk_code(Some(2usize), 75, 128) == -48);
        assert(walk_code(None, 331, 256) == -48);
        assert(symbol_decodes(48));
    } else if s == 49 {
        assert(code_length(49) == 9 && code_value(49) == 256);
        assert(walk_code(Some(324usize), 0, 1) == -49);
        assert(walk_code(Some(204usize), 0, 2) == -49);
        assert(walk_code(Some(124usize), 0, 4) == -49);
        assert(walk_code(Some(70usize), 0, 8) == -49);
        assert(walk_code(Some(36usize), 0, 16) == -49);
        assert(walk_code(Some(18usize), 0, 32) == -49);
        assert(walk_code(Some(8usize), 0, 64) == -49);
        assert(walk_code(Some(2usize), 0, 128) == -49);
        assert(walk_code(None, 256, 256) == -49);
        assert(symbol_decodes(49));
    } else if s == 50 {
        assert(code_length(50) == 9 && code_value(50) == 400);
        assert(walk_code(Some(270usize), 0, 1) == -50);
        assert(walk_code(Some(166usize), 0, 2) == -50);
        assert(walk_code(Some(98usize), 0, 4) == -50);
        assert(walk_code(Some(52usize), 0, 8) == -50);
        assert(walk_code(Some(28usize), 16, 16) == -50);
        assert(walk_code(Some(14usize), 16, 32) == -50);
        assert(walk_code(Some(6usize), 16, 64) == -50);
        assert(walk_code(Some(2usize), 144, 128) == -50);
        assert(walk_code(None, 400, 256) == -50);
        assert(symbol_decodes(50));
    } else if s == 51 {
        assert(code_length(51) == 6 && code_value(51) == 19);
        assert(walk_code(Some(82usize), 1, 1) == -51);
        assert(walk_code(Some(44usize), 3, 2) == -51);
        assert(walk_code(Some(22usize), 3, 4) == -51);
        assert(walk_code(Some(10usize), 3, 8) == -51);
        assert(walk_code(Some(4usize), 19, 16) == -51);
        assert(walk_code(None, 19, 32) == -51);
        assert(symbol_decodes(51));
    } else if s == 52 {
        assert(code_length(52) == 9 && code_value(52) == 353);
        assert(walk_code(Some(290usize), 1, 1) == -52);
        assert(walk_code(Some(180usize), 1, 2) == -52);
        assert(walk_code(Some(106usize), 1, 4) == -52);
        assert(walk_code(Some(58usize), 1, 8) == -52);
        assert(walk_code(Some(30usize), 1, 16) == -52);
        assert(walk_code(Some(16usize), 33, 32) == -52);
        assert(walk_code(Some(8usize), 97, 64) == -52);
        assert(walk_code(Some(2usize), 97, 128) == -52);
        assert(walk_code(None, 353, 256) == -52);
        assert(symbol_decodes(52));
    } else if s == 53 {
        assert(code_length(53) == 9 && code_value(53) == 293);
        assert(walk_code(Some(308usize), 1, 1) == -53);
        assert(walk_code(Some(194usize), 1, 2) == -53);
        assert(walk_code(Some(118usize), 5, 4) == -53);
        assert(walk_code(Some(66usize), 5, 8) == -53);
        assert(walk_code(Some(34usize), 5, 16) == -53);
        assert(walk_code(Some(18usize), 37, 32) == -53);
        assert(walk_code(Some(8usize), 37, 64) == -53);
        assert(walk_code(Some(2usize), 37, 128) == -53);
        assert(walk_code(None, 293, 256) == -53);
        assert(symbol_decodes(53));
    } else if s == 54 {
        assert(code_length(54) == 9 && code_value(54) == 307);
        assert(walk_code(Some(300usize), 1, 1) == -54);
        assert(walk_code(Some(188usize), 3, 2) == -54);
        assert(walk_code(Some(114usize), 3, 4) == -54);
        assert(walk_code(Some(64usize), 3, 8) == -54);
        assert(walk_code(Some(34usize), 19, 16) == -54);
        assert(walk_code(Some(18usize), 51, 32) == -54);
        assert(walk_code(Some(8usize), 51, 64) == -54);
        assert(walk_code(Some(2usize), 51, 128) == -54);
        assert(walk_code(None, 307, 256) == -54);
        assert(symbol_decodes(54));
    } else if s == 55 {
        assert(code_length(55) == 9 && code_value(55) == 405);
        assert(walk_code(Some(268usize), 1, 1) == -55);
        assert(walk_code(Some(164usize), 1, 2) == -55);
        assert(walk_code(Some(98usize), 5, 4) == -55);
        assert(walk_code(Some(52usize), 5, 8) == -55);
        assert(walk_code(Some(28usize), 21, 16) == -55);
        assert(walk_code(Some(14usize), 21, 32) == -55);
        assert(walk_code(Some(6usize), 21, 64) == -55);
        assert(walk_code(Some(2usize), 149, 128) == -55);
        assert(walk_code(None, 405, 256) == -55);
        assert(symbol_decodes(55));
    } else if s == 56 {
        assert(code_length(56) == 9 && code_value(56) == 371);
        assert(walk_code(Some(282usize), 1, 1) == -56);
        assert(walk_code(Some(176usize), 3, 2) == -56);
        assert(walk_code(Some(104usize), 3, 4) == -56);
        assert(walk_code(Some(56usize), 3, 8) == -56);
        assert(walk_code(Some(30usize), 19, 16) == -56);
        assert(walk_code(Some(16usize), 51, 32) == -56);
        assert(walk_code(Some(8usize), 115, 64) == -56);
        assert(walk_code(Some(2usize), 115, 128) == -56);
        assert(walk_code(None, 371, 256) == -56);
        assert(symbol_decodes(56));
    } else if s == 57 {
        assert(code_length(57) == 9 && code_value(57) == 458);
        assert(walk_code(Some(258usize), 0, 1) == -57);
        assert(walk_code(Some(158usize), 2, 2) == -57);
        assert(walk_code(Some(92usize), 2, 4) == -57);
        assert(walk_code(Some(50usize), 10, 8) == -57);
        assert(walk_code(Some(26usize), 10, 16) == -57);
        assert(walk_code(Some(12usize), 10, 32) == -57);
        assert(walk_code(Some(6usize), 74, 64) == -57);
        assert(walk_code(Some(2usize), 202, 128) == -57);
        assert(walk_code(None, 458, 256) == -57);
        assert(symbol_decodes(57));
    } else if s == 58 {
        assert(code_length(58) == 9 && code_value(58) == 134);
        assert(walk_code(Some(370usize), 0, 1) == -58);
        assert(walk_code(Some(242usize), 2, 2) == -58);
        assert(walk_code(Some(150usize), 6, 4) == -58);
        assert(walk_code(Some(84usize), 6, 8) == -58);
        assert(walk_code(Some(44usize), 6, 16) == -58);
        assert(walk_code(Some(22usize), 6, 32) == -58);
        assert(walk_code(Some(10usize), 6, 64) == -58);
        assert(walk_code(Some(4usize), 134, 128) == -58);
        assert(walk_code(None, 134, 256) == -58);
        assert(symbol_decodes(58));
    } else if s == 59 {
        assert(code_length(59) == 9 && code_value(59) == 489);
        assert(walk_code(Some(252usize), 1, 1) == -59);
        assert(walk_code(Some(154usize), 1, 2) == -59);
        assert(walk_code(Some(86usize), 1, 4) == -59);
        assert(walk_code(Some(46usize), 9, 8) == -59);
        assert(walk_code(Some(24usize), 9, 16) == -59);
        assert(walk_code(Some(12usize), 41, 32) == -59);
        assert(walk_code(Some(6usize), 105, 64) == -59);
        assert(walk_code(Some(2usize), 233, 128) == -59);
        assert(walk_code(None, 489, 256) == -59);
        assert(symbol_decodes(59));
    } else if s == 60 {
        assert(code_length(60) == 9 && code_value(60) == 219);
        assert(walk_code(Some(346usize), 1, 1) == -60);
        assert(walk_code(Some(222usize), 3, 2) == -60);
        assert(walk_code(Some(134usize), 3, 4) == -60);
        assert(walk_code(Some(76usize), 11, 8) == -60);
        assert(walk_code(Some(40usize), 27, 16) == -60);
        assert(walk_code(Some(20usize), 27, 32) == -60);
        assert(walk_code(Some(10usize), 91, 64) == -60);
        assert(walk_code(Some(4usize), 219, 128) == -60);
        assert(walk_code(None, 219, 256) == -60);
        assert(symbol_decodes(60));
    } else if s == 61 {
        assert(code_length(61) == 9 && code_value(61) == 492);
        assert(walk_code(Some(248usize), 0, 1) == -61);
        assert(walk_code(Some(152usize), 0, 2) == -61);
        assert(walk_code(Some(86usize), 4, 4) == -61);
        assert(walk_code(Some(46usize), 12, 8) == -61);
        assert(walk_code(Some(24usize), 12, 16) == -61);
        assert(walk_code(Some(12usize), 44, 32) == -61);
        assert(walk_code(Some(6usize), 108, 64) == -61);
        assert(walk_code(Some(2usize), 236, 128) == -61);
        assert(walk_code(None, 492, 256) == -61);
        assert(symbol_decodes(61));
    } else if s == 62 {
        assert(code_length(62) == 9 && code_value(62) == 139);
        assert(walk_code(Some(366usize), 1, 1) == -62);
        assert(walk_code(Some(240usize), 3, 2) == -62);
        assert(walk_code(Some(148usize), 3, 4) == -62);
        assert(walk_code(Some(84usize), 11, 8) == -62);
        assert(walk_code(Some(44usize), 11, 16) == -62);
        assert(walk_code(Some(22usize), 11, 32) == -62);
        assert(walk_code(Some(10usize), 11, 64) == -62);
        assert(walk_code(Some(4usize), 139, 128) == -62);
        assert(walk_code(None, 139, 256) == -62);
        assert(symbol_decodes(62));
    } else if s == 63 {
        assert(code_length(63) == 9 && code_value(63) == 133);
        assert(walk_code(Some(372usize), 1, 1) == -63);
        assert(walk_code(Some(242usize), 1, 2) == -63);
        assert(walk_code(Some(150usize), 5, 4) == -63);
        assert(walk_code(Some(84usize), 5, 8) == -63);
        assert(walk_code(Some(44usize), 5, 16) == -63);
        assert(walk_code(Some(22usize), 5, 32) == -63);
        assert(walk_code(Some(10usize), 5, 64) == -63);
        assert(walk_code(Some(4usize), 133, 128) == -63);
        assert(walk_code(None, 133, 256) == -63);
        assert(symbol_decodes(63));
    }
}

#[verifier::rlimit(30)]
proof fn lemma_symbols_decode_64(s: int)
    requires
        64 <= s < 80,
    ensures
        symbol_decodes(s),
{
    lemma2_to64();
    if s == 64 {
        assert(code_length(64) == 5 && code_value(64) == 10);
        assert(walk_code(Some(42usize), 0, 1) == -64);
        assert(walk_code(Some(22usize), 2, 2) == -64);
        assert(walk_code(Some(10usize), 2, 4) == -64);
        assert(walk_code(Some(4usize), 10, 8) == -64);
        assert(walk_code(None, 10, 16) == -64);
        assert(symbol_decodes(64));
    } else if s == 65 {
        assert(code_length(65) == 8 && code_value(65) == 150);
        assert(walk_code(Some(190usize), 0, 1) == -65);
        assert(walk_code(Some(116usize), 2, 2) == -65);
        assert(walk_code(Some(66usize), 6, 4) == -65);
        assert(walk_code(Some(34usize), 6, 8) == -65);
        assert(walk_code(Some(18usize), 22, 16) == -65);
        assert(walk_code(Some(8usize), 22, 32) == -65);
        assert(walk_code(Some(2usize), 22, 64) == -65);
        assert(walk_code(None, 150, 128) == -65);
        assert(symbol_decodes(65));
    } else if s == 66 {
        assert(code_length(66) == 8 && code_value(66) == 156);
        assert(walk_code(Some(186usize), 0, 1) == -66);
        assert(walk_code(Some(112usize), 0, 2) == -66);
        assert(walk_code(Some(64usize), 4, 4) == -66);
        assert(walk_code(Some(34usize), 12, 8) == -66);
        assert(walk_code(Some(18usize), 28, 16) == -66);
        assert(walk_code(Some(8usize), 28, 32) == -66);
        assert(walk_code(Some(2usize), 28, 64) == -66);
        assert(walk_code(None, 156, 128) == -66);
        assert(symbol_decodes(66));
    } else if s == 67 {
        assert(code_length(67) == 9 && code_value(67) == 451);
        assert(walk_code(Some(260usize), 1, 1) == -67);
        assert(walk_code(Some(160usize), 3, 2) == -67);
        assert(walk_code(Some(94usize), 3, 4) == -67);
        assert(walk_code(Some(50usize), 3, 8) == -67);
        assert(walk_code(Some(26usize), 3, 16) == -67);
        assert(walk_code(Some(12usize), 3, 32) == -67);
        assert(walk_code(Some(6usize), 67, 64) == -67);
        assert(walk_code(Some(2usize), 195, 128) == -67);
        assert(walk_code(None, 451, 256) == -67);
        assert(symbol_decodes(67));
    } else if s == 68 {
        assert(code_length(68) == 9 && code_value(68) == 412);
        assert(walk_code(Some(264usize), 0, 1) == -68);
        assert(walk_code(Some(162usize), 0, 2) == -68);
        assert(walk_code(Some(96usize), 4, 4) == -68);
        assert(walk_code(Some(52usize), 12, 8) == -68);
        assert(walk_code(Some(28usize), 28, 16) == -68);
        assert(walk_code(Some(14usize), 28, 32) == -68);
        assert(walk_code(Some(6usize), 28, 64) == -68);
        assert(walk_code(Some(2usize), 156, 128) == -68);
        assert(walk_code(None, 412, 256) == -68);
        assert(symbol_decodes(68));
    } else if s == 69 {
        assert(code_length(69) == 9 && code_value(69) == 143);
        assert(walk_code(Some(362usize), 1, 1) == -69);
        assert(walk_code(Some(238usize), 3, 2) == -69);
        assert(walk_code(Some(148usize), 7, 4) == -69);
        assert(walk_code(Some(84usize), 15, 8) == -69);
        assert(walk_code(Some(44usize), 15, 16) == -69);
        assert(walk_code(Some(22usize), 15, 32) == -69);
        assert(walk_code(Some(10usize), 15, 64) == -69);
        assert(walk_code(Some(4usize), 143, 128) == -69);
        assert(walk_code(None, 143, 256) == -69);
        assert(symbol_decodes(69));
    } else if s == 70 {
        assert(code_length(70) == 9 && code_value(70) == 399);
        assert(walk_code(Some(272usize), 1, 1) == -70);
        assert(walk_code(Some(168usize), 3, 2) == -70);
        assert(walk_code(Some(100usize), 7, 4) == -70);
        assert(walk_code(Some(54usize), 15, 8) == -70);
        assert(walk_code(Some(28usize), 15, 16) == -70);
        assert(walk_code(Some(14usize), 15, 32) == -70);
        assert(walk_code(Some(6usize), 15, 64) == -70);
        assert(walk_code(Some(2usize), 143, 128) == -70);
        assert(walk_code(None, 399, 256) == -70);
        assert(symbol_decodes(70));
    } else if s == 71 {
        assert(code_length(71) == 9 && code_value(71) == 145);
        assert(walk_code(Some(360usize), 1, 1) == -71);
        assert(walk_code(Some(236usize), 1, 2) == -71);
        assert(walk_code(Some(146usize), 1, 4) == -71);
        assert(walk_code(Some(82usize), 1, 8) == -71);
        assert(walk_code(Some(44usize), 17, 16) == -71);
        assert(walk_code(Some(22usize), 17, 32) == -71);
        assert(walk_code(Some(10usize), 17, 64) == -71);
        assert(walk_code(Some(4usize), 145, 128) == -71);
        assert(walk_code(None, 145, 256) == -71);
        assert(symbol_decodes(71));
    } else if s == 72 {
        assert(code_length(72) == 9 && code_value(72) == 135);
        assert(walk_code(Some(370usize), 1, 1) == -72);
        assert(walk_code(Some(242usize), 3, 2) == -72);
        assert(walk_code(Some(150usize), 7, 4) == -72);
        assert(walk_code(Some(84usize), 7, 8) == -72);
        assert(walk_code(Some(44usize), 7, 16) == -72);
        assert(walk_code(Some(22usize), 7, 32) == -72);
        assert(walk_code(Some(10usize), 7, 64) == -72);
        assert(walk_code(Some(4usize), 135, 128) == -72);
        assert(walk_code(None, 135, 256) == -72);
        assert(symbol_decodes(72));
    } else if s == 73 {
        assert(code_length(73) == 9 && code_value(73) == 198);
        assert(walk_code(Some(352usize), 0, 1) == -73);
        assert(walk_code(Some(228usize), 2, 2) == -73);
        assert(walk_code(Some(140usize), 6, 4) == -73);
        assert(walk_code(Some(78usize), 6, 8) == -73);
        assert(walk_code(Some(40usize), 6, 16) == -73);
        assert(walk_code(Some(20usize), 6, 32) == -73);
        assert(walk_code(Some(10usize), 70, 64) == -73);
        assert(walk_code(Some(4usize), 198, 128) == -73);
        assert(walk_code(None, 198, 256) == -73);
        assert(symbol_decodes(73));
    } else if s == 74 {
        assert(code_length(74) == 9 && code_value(74) == 375);
        assert(walk_code(Some(278usize), 1, 1) == -74);
        assert(walk_code(Some(174usize), 3, 2) == -74);
        assert(walk_code(Some(104usize), 7, 4) == -74);
        assert(walk_code(Some(56usize), 7, 8) == -74);
        assert(walk_code(Some(30usize), 23, 16) == -74);
        assert(walk_code(Some(16usize), 55, 32) == -74);
        assert(walk_code(Some(8usize), 119, 64) == -74);
        assert(walk_code(Some(2usize), 119, 128) == -74);
        assert(walk_code(None, 375, 256) == -74);
        assert(symbol_decodes(74));
    } else if s == 75 {
        assert(code_length(75) == 9 && code_value(75) == 137);
        assert(walk_code(Some(368usize), 1, 1) == -75);
        assert(walk_code(Some(240usize), 1, 2) == -75);
        assert(walk_code(Some(148usize), 1, 4) == -75);
        assert(walk_code(Some(84usize), 9, 8) == -75);
        assert(walk_code(Some(44usize), 9, 16) == -75);
        assert(walk_code(Some(22usize), 9, 32) == -75);
        assert(walk_code(Some(10usize), 9, 64) == -75);
        assert(walk_code(Some(4usize), 137, 128) == -75);
        assert(walk_code(None, 137, 256) == -75);
        assert(symbol_decodes(75));
    } else if s == 76 {
        assert(code_length(76) == 9 && code_value(76) == 214);
        assert(walk_code(Some(348usize), 0, 1) == -76);
        assert(walk_code(Some(224usize), 2, 2) == -76);
        assert(walk_code(Some(136usize), 6, 4) == -76);
        assert(walk_code(Some(76usize), 6, 8) == -76);
        assert(walk_code(Some(40usize), 22, 16) == -76);
        assert(walk_code(Some(20usize), 22, 32) == -76);
        assert(walk_code(Some(10usize), 86, 64) == -76);
        assert(walk_code(Some(4usize), 214, 128) == -76);
        assert(walk_code(None, 214, 256) == -76);
        assert(symbol_decodes(76));
    } else if s == 77 {
        assert(code_length(77) == 9 && code_value(77) == 140);
        assert(walk_code(Some(364usize), 0, 1) == -77);
        assert(walk_code(Some(238usize), 0, 2) == -77);
        assert(walk_code(Some(148usize), 4, 4) == -77);
        assert(walk_code(Some(84usize), 12, 8) == -77);
        assert(walk_code(Some(44usize), 12, 16) == -77);
        assert(walk_code(Some(22usize), 12, 32) == -77);
        assert(walk_code(Some(10usize), 12, 64) == -77);
        assert(walk_code(Some(4usize), 140, 128) == -77);
        assert(walk_code(None, 140, 256) == -77);
        assert(symbol_decodes(77));
    } else if s == 78 {
        assert(code_length(78) == 9 && code_value(78) == 494);
        assert(walk_code(Some(246usize), 0, 1) == -78);
        assert(walk_code(Some(152usize), 2, 2) == -78);
        assert(walk_code(Some(86usize), 6, 4) == -78);
        assert(walk_code(Some(46usize), 14, 8) == -78);
        assert(walk_code(Some(24usize), 14, 16) == -78);
        assert(walk_code(Some(12usize), 46, 32) == -78);
        assert(walk_code(Some(6usize), 110, 64) == -78);
        assert(walk_code(Some(2usize), 238, 128) == -78);
        assert(walk_code(None, 494, 256) == -78);
        assert(symbol_decodes(78));
    } else if s == 79 {
        assert(code_length(79) == 9 && code_value(79) == 491);
        assert(walk_code(Some(250usize), 1, 1) == -79);
        assert(walk_code(Some(154usize), 3, 2) == -79);
        assert(walk_code(Some(86usize), 3, 4) == -79);
        assert(walk_code(Some(46usize), 11, 8) == -79);
        assert(walk_code(Some(24usize), 11, 16) == -79);
        assert(walk_code(Some(12usize), 43, 32) == -79);
        assert(walk_code(Some(6usize), 107, 64) == -79);
        assert(walk_code(Some(2usize), 235, 128) == -79);
        assert(walk_code(None, 491, 256) == -79);
        assert(symbol_decodes(79));
    }
}

#[verifier::rlimit(30)]
proof fn lemma_symbols_decode_80(s: int)
    requires
        80 <= s < 96,
    ensures
        symbol_decodes(s),
{
    lemma2_to64();
    if s == 80 {
        assert(code_length(80) == 9 && code_value(80) == 132);
        assert(walk_code(Some(372usize), 0, 1) == -80);
        assert(walk_code(Some(242usize), 0, 2) == -80);
        assert(walk_code(Some(150usize), 4, 4) == -80);
        assert(walk_code(Some(84usize), 4, 8) == -80);
        assert(walk_code(Some(44usize), 4, 16) == -80);
        assert(walk_code(Some(22usize), 4, 32) == -80);
        assert(walk_code(Some(10usize), 4, 64) == -80);
        assert(walk_code(Some(4usize), 132, 128) == -80);
        assert(walk_code(None, 132, 256) == -80);
        assert(symbol_decodes(80));
    } else if s == 81 {
        assert(code_length(81) == 9 && code_value(81) == 356);
        assert(walk_code(Some(288usize), 0, 1) == -81);
        assert(walk_code(Some(178usize), 0, 2) == -81);
        assert(walk_code(Some(106usize), 4, 4) == -81);
        assert(walk_code(Some(58usize), 4, 8) == -81);
        assert(walk_code(Some(30usize), 4, 16) == -81);
        assert(walk_code(Some(16usize), 36, 32) == -81);
        assert(walk_code(Some(8usize), 100, 64) == -81);
        assert(walk_code(Some(2usize), 100, 128) == -81);
        assert(walk_code(None, 356, 256) == -81);
        assert(symbol_decodes(81));
    } else if s == 82 {
        assert(code_length(82) == 9 && code_value(82) == 373);
        assert(walk_code(Some(280usize), 1, 1) == -82);
        assert(walk_code(Some(174usize), 1, 2) == -82);
        assert(walk_code(Some(104usize), 5, 4) == -82);
        assert(walk_code(Some(56usize), 5, 8) == -82);
        assert(walk_code(Some(30usize), 21, 16) == -82);
        assert(walk_code(Some(16usize), 53, 32) == -82);
        assert(walk_code(Some(8usize), 117, 64) == -82);
        assert(walk_code(Some(2usize), 117, 128) == -82);
        assert(walk_code(None, 373, 256) == -82);
        assert(symbol_decodes(82));
    } else if s == 83 {
        assert(code_length(83) == 9 && code_value(83) == 461);
        assert(walk_code(Some(256usize), 1, 1) == -83);
        assert(walk_code(Some(156usize), 1, 2) == -83);
        assert(walk_code(Some(92usize), 5, 4) == -83);
        assert(walk_code(Some(50usize), 13, 8) == -83);
        assert(walk_code(Some(26usize), 13, 16) == -83);
        assert(walk_code(Some(12usize), 13, 32) == -83);
        assert(walk_code(Some(6usize), 77, 64) == -83);
        assert(walk_code(Some(2usize), 205, 128) == -83);
        assert(walk_code(None, 461, 256) == -83);
        assert(symbol_decodes(83));
    } else if s == 84 {
        assert(code_length(84) == 8 && code_value(84) == 94);
        assert(walk_code(Some(230usize), 0, 1) == -84);
        assert(walk_code(Some(142usize), 2, 2) == -84);
        assert(walk_code(Some(80usize), 6, 4) == -84);
        assert(walk_code(Some(42usize), 14, 8) == -84);
        assert(walk_code(Some(22usize), 30, 16) == -84);
        assert(walk_code(Some(10usize), 30, 32) == -84);
        assert(walk_code(Some(4usize), 94, 64) == -84);
        assert(walk_code(None, 94, 128) == -84);
        assert(symbol_decodes(84));
    } else if s == 85 {
        assert(code_length(85) == 9 && code_value(85) == 136);
        assert(walk_code(Some(368usize), 0, 1) == -85);
        assert(walk_code(Some(240usize), 0, 2) == -85);
        assert(walk_code(Some(148usize), 0, 4) == -85);
        assert(walk_code(Some(84usize), 8, 8) == -85);
        assert(walk_code(Some(44usize), 8, 16) == -85);
        assert(walk_code(Some(22usize), 8, 32) == -85);
        assert(walk_code(Some(10usize), 8, 64) == -85);
        assert(walk_code(Some(4usize), 136, 128) == -85);
        assert(walk_code(None, 136, 256) == -85);
        assert(symbol_decodes(85));
    } else if s == 86 {
        assert(code_length(86) == 9 && code_value(86) == 299);
        assert(walk_code(Some(302usize), 1, 1) == -86);
        assert(walk_code(Some(192usize), 3, 2) == -86);
        assert(walk_code(Some(116usize), 3, 4) == -86);
        assert(walk_code(Some(66usize), 11, 8) == -86);
        assert(walk_code(Some(34usize), 11, 16) == -86);
        assert(walk_code(Some(18usize), 43, 32) == -86);
        assert(walk_code(Some(8usize), 43, 64) == -86);
        assert(walk_code(Some(2usize), 43, 128) == -86);
        assert(walk_code(None, 299, 256) == -86);
        assert(symbol_decodes(86));
    } else if s == 87 {
        assert(code_length(87) == 9 && code_value(87) == 370);
        assert(walk_code(Some(282usize), 0, 1) == -87);
        assert(walk_code(Some(176usize), 2, 2) == -87);
        assert(walk_code(Some(104usize), 2, 4) == -87);
        assert(walk_code(Some(56usize), 2, 8) == -87);
        assert(walk_code(Some(30usize), 18, 16) == -87);
        assert(walk_code(Some(16usize), 50, 32) == -87);
        assert(walk_code(Some(8usize), 114, 64) == -87);
        assert(walk_code(Some(2usize), 114, 128) == -87);
        assert(walk_code(None, 370, 256) == -87);
        assert(symbol_decodes(87));
    } else if s == 88 {
        assert(code_length(88) == 9 && code_value(88) == 266);
        assert(walk_code(Some(318usize), 0, 1) == -88);
        assert(walk_code(Some(202usize), 2, 2) == -88);
        assert(walk_code(Some(122usize), 2, 4) == -88);
        assert(walk_code(Some(70usize), 10, 8) == -88);
        assert(walk_code(Some(36usize), 10, 16) == -88);
        assert(walk_code(Some(18usize), 10, 32) == -88);
        assert(walk_code(Some(8usize), 10, 64) == -88);
        assert(walk_code(Some(2usize), 10, 128) == -88);
        assert(walk_code(None, 266, 256) == -88);
        assert(symbol_decodes(88));
    } else if s == 89 {
        assert(code_length(89) == 9 && code_value(89) == 141);
        assert(walk_code(Some(364usize), 1, 1) == -89);
        assert(walk_code(Some(238usize), 1, 2) == -89);
        assert(walk_code(Some(148usize), 5, 4) == -89);
        assert(walk_code(Some(84usize), 13, 8) == -89);
        assert(walk_code(Some(44usize), 13, 16) == -89);
        assert(walk_code(Some(22usize), 13, 32) == -89);
        assert(walk_code(Some(10usize), 13, 64) == -89);
        assert(walk_code(Some(4usize), 141, 128) == -89);
        assert(walk_code(None, 141, 256) == -89);
        assert(symbol_decodes(89));
    } else if s == 90 {
        assert(code_length(90) == 9 && code_value(90) == 314);
        assert(walk_code(Some(298usize), 0, 1) == -90);
        assert(walk_code(Some(186usize), 2, 2) == -90);
        assert(walk_code(Some(112usize), 2, 4) == -90);
        assert(walk_code(Some(64usize), 10, 8) == -90);
        assert(walk_code(Some(34usize), 26, 16) == -90);
        assert(walk_code(Some(18usize), 58, 32) == -90);
        assert(walk_code(Some(8usize), 58, 64) == -90);
        assert(walk_code(Some(2usize), 58, 128) == -90);
        assert(walk_code(None, 314, 256) == -90);
        assert(symbol_decodes(90));
    } else if s == 91 {
        assert(code_length(91) == 9 && code_value(91) == 284);
        assert(walk_code(Some(314usize), 0, 1) == -91);
        assert(walk_code(Some(198usize), 0, 2) == -91);
        assert(walk_code(Some(120usize), 4, 4) == -91);
        assert(walk_code(Some(68usize), 12, 8) == -91);
        assert(walk_code(Some(36usize), 28, 16) == -91);
        assert(walk_code(Some(18usize), 28, 32) == -91);
        assert(walk_code(Some(8usize), 28, 64) == -91);
        assert(walk_code(Some(2usize), 28, 128) == -91);
        assert(walk_code(None, 284, 256) == -91);
        assert(symbol_decodes(91));
    } else if s == 92 {
        assert(code_length(92) == 10 && code_value(92) == 481);
        assert(walk_code(Some(448usize), 1, 1) == -92);
        assert(walk_code(Some(330usize), 1, 2) == -92);
        assert(walk_code(Some(210usize), 1, 4) == -92);
        assert(walk_code(Some(128usize), 1, 8) == -92);
        assert(walk_code(Some(72usize), 1, 16) == -92);
        assert(walk_code(Some(38usize), 33, 32) == -92);
        assert(walk_code(Some(20usize), 97, 64) == -92);
        assert(walk_code(Some(10usize), 225, 128) == -92);
        assert(walk_code(Some(4usize), 481, 256) == -92);
        assert(walk_code(None, 481, 512) == -92);
        assert(symbol_decodes(92));
    } else if s == 93 {
        assert(code_length(93) == 10 && code_value(93) == 480);
        assert(walk_code(Some(448usize), 0, 1) == -93);
        assert(walk_code(Some(330usize), 0, 2) == -93);
        assert(walk_code(Some(210usize), 0, 4) == -93);
        assert(walk_code(Some(128usize), 0, 8) == -93);
        assert(walk_code(Some(72usize), 0, 16) == -93);
        assert(walk_code(Some(38usize), 32, 32) == -93);
        assert(walk_code(Some(20usize), 96, 64) == -93);
        assert(walk_code(Some(10usize), 224, 128) == -93);
        assert(walk_code(Some(4usize), 480, 256) == -93);
        assert(walk_code(None, 480, 512) == -93);
        assert(symbol_decodes(93));
    } else if s == 94 {
        assert(code_length(94) == 9 && code_value(94) == 391);
        assert(walk_code(Some(274usize), 1, 1) == -94);
        assert(walk_code(Some(170usize), 3, 2) == -94);
        assert(walk_code(Some(102usize), 7, 4) == -94);
        assert(walk_code(Some(54usize), 7, 8) == -94);
        assert(walk_code(Some(28usize), 7, 16) == -94);
        assert(walk_code(Some(14usize), 7, 32) == -94);
        assert(walk_code(Some(6usize), 7, 64) == -94);
        assert(walk_code(Some(2usize), 135, 128) == -94);
        assert(walk_code(None, 391, 256) == -94);
        assert(symbol_decodes(94));
    } else if s == 95 {
        assert(code_length(95) == 10 && code_value(95) == 476);
        assert(walk_code(Some(452usize), 0, 1) == -95);
        assert(walk_code(Some(332usize), 0, 2) == -95);
        assert(walk_code(Some(212usize), 4, 4) == -95);
        assert(walk_code(Some(130usize), 12, 8) == -95);
        assert(walk_code(Some(74usize), 28, 16) == -95);
        assert(walk_code(Some(38usize), 28, 32) == -95);
        assert(walk_code(Some(20usize), 92, 64) == -95);
        assert(walk_code(Some(10usize), 220, 128) == -95);
        assert(walk_code(Some(4usize), 476, 256) == -95);
        assert(walk_code(None, 476, 512) == -95);
        assert(symbol_decodes(95));
    }
}

#[verifier::rlimit(30)]
proof fn lemma_symbols_decode_96(s: int)
    requires
        96 <= s < 112,
    ensures
        symbol_decodes(s),
{
    lemma2_to64();
    if s == 96 {
        assert(code_length(96) == 10 && code_value(96) == 479);
        assert(walk_code(Some(450usize), 1, 1) == -96);
        assert(walk_code(Some(332usize), 3, 2) == -96);
        assert(walk_code(Some(212usize), 7, 4) == -96);
        assert(walk_code(Some(130usize), 15, 8) == -96);
        assert(walk_code(Some(74usize), 31, 16) == -96);
        assert(walk_code(Some(38usize), 31, 32) == -96);
        assert(walk_code(Some(20usize), 95, 64) == -96);
        assert(walk_code(Some(10usize), 223, 128) == -96);
        assert(walk_code(Some(4usize), 479, 256) == -96);
        assert(walk_code(None, 479, 512) == -96);
        assert(symbol_decodes(96));
    } else if s == 97 {
        assert(code_length(97) == 7 && code_value(97) == 116);
        assert(walk_code(Some(90usize), 0, 1) == -97);
        assert(walk_code(Some(48usize), 0, 2) == -97);
        assert(walk_code(Some(26usize), 4, 4) == -97);
        assert(walk_code(Some(12usize), 4, 8) == -97);
        assert(walk_code(Some(6usize), 20, 16) == -97);
        assert(walk_code(Some(2usize), 52, 32) == -97);
        assert(walk_code(None, 116, 64) == -97);
        assert(symbol_decodes(97));
    } else if s == 98 {
        assert(code_length(98) == 9 && code_value(98) == 415);
        assert(walk_code(Some(262usize), 1, 1) == -98);
        assert(walk_code(Some(162usize), 3, 2) == -98);
        assert(walk_code(Some(96usize), 7, 4) == -98);
        assert(walk_code(Some(52usize), 15, 8) == -98);
        assert(walk_code(Some(28usize), 31, 16) == -98);
        assert(walk_code(Some(14usize), 31, 32) == -98);
        assert(walk_code(Some(6usize), 31, 64) == -98);
        assert(walk_code(Some(2usize), 159, 128) == -98);
        assert(walk_code(None, 415, 256) == -98);
        assert(symbol_decodes(98));
    } else if s == 99 {
        assert(code_length(99) == 8 && code_value(99) == 141);
        assert(walk_code(Some(200usize), 1, 1) == -99);
        assert(walk_code(Some(120usize), 1, 2) == -99);
        assert(walk_code(Some(68usize), 5, 4) == -99);
        assert(walk_code(Some(36usize), 13, 8) == -99);
        assert(walk_code(Some(18usize), 13, 16) == -99);
        assert(walk_code(Some(8usize), 13, 32) == -99);
        assert(walk_code(Some(2usize), 13, 64) == -99);
        assert(walk_code(None, 141, 128) == -99);
        assert(symbol_decodes(99));
    } else if s == 100 {
        assert(code_length(100) == 8 && code_value(100) == 228);
        assert(walk_code(Some(158usize), 0, 1) == -100);
        assert(walk_code(Some(92usize), 0, 2) == -100);
        assert(walk_code(Some(50usize), 4, 4) == -100);
        assert(walk_code(Some(26usize), 4, 8) == -100);
        assert(walk_code(Some(12usize), 4, 16) == -100);
        assert(walk_code(Some(6usize), 36, 32) == -100);
        assert(walk_code(Some(2usize), 100, 64) == -100);
        assert(walk_code(None, 228, 128) == -100);
        assert(symbol_decodes(100));
    } else if s == 101 {
        assert(code_length(101) == 7 && code_value(101) == 121);
        assert(walk_code(Some(88usize), 1, 1) == -101);
        assert(walk_code(Some(46usize), 1, 2) == -101);
        assert(walk_code(Some(24usize), 1, 4) == -101);
        assert(walk_code(Some(12usize), 9, 8) == -101);
        assert(walk_code(Some(6usize), 25, 16) == -101);
        assert(walk_code(Some(2usize), 57, 32) == -101);
        assert(walk_code(None, 121, 64) == -101);
        assert(symbol_decodes(101));
    } else if s == 102 {
        assert(code_length(102) == 9 && code_value(102) == 234);
        assert(walk_code(Some(334usize), 0, 1) == -102);
        assert(walk_code(Some(214usize), 2, 2) == -102);
        assert(walk_code(Some(130usize), 2, 4) == -102);
        assert(walk_code(Some(74usize), 10, 8) == -102);
        assert(walk_code(Some(38usize), 10, 16) == -102);
        assert(walk_code(Some(20usize), 42, 32) == -102);
        assert(walk_code(Some(10usize), 106, 64) == -102);
        assert(walk_code(Some(4usize), 234, 128) == -102);
        assert(walk_code(None, 234, 256) == -102);
        assert(symbol_decodes(102));
    } else if s == 103 {
        assert(code_length(103) == 9 && code_value(103) == 225);
        assert(walk_code(Some(342usize), 1, 1) == -103);
        assert(walk_code(Some(218usize), 1, 2) == -103);
        assert(walk_code(Some(132usize), 1, 4) == -103);
        assert(walk_code(Some(74usize), 1, 8) == -103);
        assert(walk_code(Some(38usize), 1, 16) == -103);
        assert(walk_code(Some(20usize), 33, 32) == -103);
        assert(walk_code(Some(10usize), 97, 64) == -103);
        assert(walk_code(Some(4usize), 225, 128) == -103);
        assert(walk_code(None, 225, 256) == -103);
        assert(symbol_decodes(103));
    } else if s == 104 {
        assert(code_length(104) == 8 && code_value(104) == 64);
        assert(walk_code(Some(244usize), 0, 1) == -104);
        assert(walk_code(Some(150usize), 0, 2) == -104);
        assert(walk_code(Some(84usize), 0, 4) == -104);
        assert(walk_code(Some(44usize), 0, 8) == -104);
        assert(walk_code(Some(22usize), 0, 16) == -104);
        assert(walk_code(Some(10usize), 0, 32) == -104);
        assert(walk_code(Some(4usize), 64, 64) == -104);
        assert(walk_code(None, 64, 128) == -104);
        assert(symbol_decodes(104));
    } else if s == 105 {
        assert(code_length(105) == 7 && code_value(105) == 65);
        assert(walk_code(Some(124usize), 1, 1) == -105);
        assert(walk_code(Some(70usize), 1, 2) == -105);
        assert(walk_code(Some(36usize), 1, 4) == -105);
        assert(walk_code(Some(18usize), 1, 8) == -105);
        assert(walk_code(Some(8usize), 1, 16) == -105);
        assert(walk_code(Some(2usize), 1, 32) == -105);
        assert(walk_code(None, 65, 64) == -105);
        assert(symbol_decodes(105));
    } else if s == 106 {
        assert(code_length(106) == 9 && code_value(106) == 267);
        assert(walk_code(Some(318usize), 1, 1) == -106);
        assert(walk_code(Some(202usize), 3, 2) == -106);
        assert(walk_code(Some(122usize), 3, 4) == -106);
        assert(walk_code(Some(70usize), 11, 8) == -106);
        assert(walk_code(Some(36usize), 11, 16) == -106);
        assert(walk_code(Some(18usize), 11, 32) == -106);
        assert(walk_code(Some(8usize), 11, 64) == -106);
        assert(walk_code(Some(2usize), 11, 128) == -106);
        assert(walk_code(None, 267, 256) == -106);
        assert(symbol_decodes(106));
    } else if s == 107 {
        assert(code_length(107) == 9 && code_value(107) == 176);
        assert(walk_code(Some(356usize), 0, 1) == -107);
        assert(walk_code(Some(234usize), 0, 2) == -107);
        assert(walk_code(Some(144usize), 0, 4) == -107);
        assert(walk_code(Some(80usize), 0, 8) == -107);
        assert(walk_code(Some(42usize), 16, 16) == -107);
        assert(walk_code(Some(22usize), 48, 32) == -107);
        assert(walk_code(Some(10usize), 48, 64) == -107);
        assert(walk_code(Some(4usize), 176, 128) == -107);
        assert(walk_code(None, 176, 256) == -107);
        assert(symbol_decodes(107));
    } else if s == 108 {
        assert(code_length(108) == 8 && code_value(108) == 106);
        assert(walk_code(Some(224usize), 0, 1) == -108);
        assert(walk_code(Some(136usize), 2, 2) == -108);
        assert(walk_code(Some(76usize), 2, 4) == -108);
        assert(walk_code(Some(40usize), 10, 8) == -108);
        assert(walk_code(Some(20usize), 10, 16) == -108);
        assert(walk_code(Some(10usize), 42, 32) == -108);
        assert(walk_code(Some(4usize), 106, 64) == -108);
        assert(walk_code(None, 106, 128) == -108);
        assert(symbol_decodes(108));
    } else if s == 109 {
        assert(code_length(109) == 8 && code_value(109) == 193);
        assert(walk_code(Some(172usize), 1, 1) == -109);
        assert(walk_code(Some(102usize), 1, 2) == -109);
        assert(walk_code(Some(54usize), 1, 4) == -109);
        assert(walk_code(Some(28usize), 1, 8) == -109);
        assert(walk_code(Some(14usize), 1, 16) == -109);
        assert(walk_code(Some(6usize), 1, 32) == -109);
        assert(walk_code(Some(2usize), 65, 64) == -109);
        assert(walk_code(None, 193, 128) == -109);
        assert(symbol_decodes(109));
    } else if s == 110 {
        assert(code_length(110) == 7 && code_value(110) == 113);
        assert(walk_code(Some(94usize), 1, 1) == -110);
        assert(walk_code(Some(50usize), 1, 2) == -110);
        assert(walk_code(Some(26usize), 1, 4) == -110);
        assert(walk_code(Some(12usize), 1, 8) == -110);
        assert(walk_code(Some(6usize), 17, 16) == -110);
        assert(walk_code(Some(2usize), 49, 32) == -110);
        assert(walk_code(None, 113, 64) == -110);
        assert(symbol_decodes(110));
    } else if s == 111 {
        assert(code_length(111) == 7 && code_value(111) == 120);
        assert(walk_code(Some(88usize), 0, 1) == -111);
        assert(walk_code(Some(46usize), 0, 2) == -111);
        assert(walk_code(Some(24usize), 0, 4) == -111);
        assert(walk_code(Some(12usize), 8, 8) == -111);
        assert(walk_code(Some(6usize), 24, 16) == -111);
        assert(walk_code(Some(2usize), 56, 32) == -111);
        assert(walk_code(None, 120, 64) == -111);
        assert(symbol_decodes(111));
    }
}

#[verifier::rlimit(30)]
proof fn lemma_symbols_decode_112(s: int)
    requires
        112 <= s < 128,
    ensures
        symbol_decodes(s),
{
    lemma2_to64();
    if s == 112 {
        assert(code_length(112) == 8 && code_value(112) == 177);
        assert(walk_code(Some(180usize), 1, 1) == -112);
        assert(walk_code(Some(106usize), 1, 2) == -112);
        assert(walk_code(Some(58usize), 1, 4) == -112);
        assert(walk_code(Some(30usize), 1, 8) == -112);
        assert(walk_code(Some(16usize), 17, 16) == -112);
        assert(walk_code(Some(8usize), 49, 32) == -112);
        assert(walk_code(Some(2usize), 49, 64) == -112);
        assert(walk_code(None, 177, 128) == -112);
        assert(symbol_decodes(112));
    } else if s == 113 {
        assert(code_length(113) == 9 && code_value(113) == 332);
        assert(walk_code(Some(292usize), 0, 1) == -113);
        assert(walk_code(Some(182usize), 0, 2) == -113);
        assert(walk_code(Some(110usize), 4, 4) == -113);
        assert(walk_code(Some(62usize), 12, 8) == -113);
        assert(walk_code(Some(32usize), 12, 16) == -113);
        assert(walk_code(Some(16usize), 12, 32) == -113);
        assert(walk_code(Some(8usize), 76, 64) == -113);
        assert(walk_code(Some(2usize), 76, 128) == -113);
        assert(walk_code(None, 332, 256) == -113);
        assert(symbol_decodes(113));
    } else if s == 114 {
        assert(code_length(114) == 7 && code_value(114) == 67);
        assert(walk_code(Some(122usize), 1, 1) == -114);
        assert(walk_code(Some(70usize), 3, 2) == -114);
        assert(walk_code(Some(36usize), 3, 4) == -114);
        assert(walk_code(Some(18usize), 3, 8) == -114);
        assert(walk_code(Some(8usize), 3, 16) == -114);
        assert(walk_code(Some(2usize), 3, 32) == -114);
        assert(walk_code(None, 67, 64) == -114);
        assert(symbol_decodes(114));
    } else if s == 115 {
        assert(code_length(115) == 8 && code_value(115) == 118);
        assert(walk_code(Some(212usize), 0, 1) == -115);
        assert(walk_code(Some(130usize), 2, 2) == -115);
        assert(walk_code(Some(74usize), 6, 4) == -115);
        assert(walk_code(Some(38usize), 6, 8) == -115);
        assert(walk_code(Some(20usize), 22, 16) == -115);
        assert(walk_code(Some(10usize), 54, 32) == -115);
        assert(walk_code(Some(4usize), 118, 64) == -115);
        assert(walk_code(None, 118, 128) == -115);
        assert(symbol_decodes(115));
    } else if s == 116 {
        assert(code_length(116) == 7 && code_value(116) == 102);
        assert(walk_code(Some(96usize), 0, 1) == -116);
        assert(walk_code(Some(52usize), 2, 2) == -116);
        assert(walk_code(Some(28usize), 6, 4) == -116);
        assert(walk_code(Some(14usize), 6, 8) == -116);
        assert(walk_code(Some(6usize), 6, 16) == -116);
        assert(walk_code(Some(2usize), 38, 32) == -116);
        assert(walk_code(None, 102, 64) == -116);
        assert(symbol_decodes(116));
    } else if s == 117 {
        assert(code_length(117) == 7 && code_value(117) == 77);
        assert(walk_code(Some(114usize), 1, 1) == -117);
        assert(walk_code(Some(64usize), 1, 2) == -117);
        assert(walk_code(Some(34usize), 5, 4) == -117);
        assert(walk_code(Some(18usize), 13, 8) == -117);
        assert(walk_code(Some(8usize), 13, 16) == -117);
        assert(walk_code(Some(2usize), 13, 32) == -117);
        assert(walk_code(None, 77, 64) == -117);
        assert(symbol_decodes(117));
    } else if s == 118 {
        assert(code_length(118) == 9 && code_value(118) == 138);
        assert(walk_code(Some(366usize), 0, 1) == -118);
        assert(walk_code(Some(240usize), 2, 2) == -118);
        assert(walk_code(Some(148usize), 2, 4) == -118);
        assert(walk_code(Some(84usize), 10, 8) == -118);
        assert(walk_code(Some(44usize), 10, 16) == -118);
        assert(walk_code(Some(22usize), 10, 32) == -118);
        assert(walk_code(Some(10usize), 10, 64) == -118);
        assert(walk_code(Some(4usize), 138, 128) == -118);
        assert(walk_code(None, 138, 256) == -118);
        assert(symbol_decodes(118));
    } else if s == 119 {
        assert(code_length(119) == 6 && code_value(119) == 47);
        assert(walk_code(Some(56usize), 1, 1) == -119);
        assert(walk_code(Some(30usize), 3, 2) == -119);
        assert(walk_code(Some(16usize), 7, 4) == -119);
        assert(walk_code(Some(8usize), 15, 8) == -119);
        assert(walk_code(Some(2usize), 15, 16) == -119);
        assert(walk_code(None, 47, 32) == -119);
        assert(symbol_decodes(119));
    } else if s == 120 {
        assert(code_length(120) == 8 && code_value(120) == 201);
        assert(walk_code(Some(166usize), 1, 1) == -120);
        assert(walk_code(Some(98usize), 1, 2) == -120);
        assert(walk_code(Some(52usize), 1, 4) == -120);
        assert(walk_code(Some(28usize), 9, 8) == -120);
        assert(walk_code(Some(14usize), 9, 16) == -120);
        assert(walk_code(Some(6usize), 9, 32) == -120);
        assert(walk_code(Some(2usize), 73, 64) == -120);
        assert(walk_code(None, 201, 128) == -120);
        assert(symbol_decodes(120));
    } else if s == 121 {
        assert(code_length(121) == 9 && code_value(121) == 206);
        assert(walk_code(Some(350usize), 0, 1) == -121);
        assert(walk_code(Some(226usize), 2, 2) == -121);
        assert(walk_code(Some(138usize), 6, 4) == -121);
        assert(walk_code(Some(78usize), 14, 8) == -121);
        assert(walk_code(Some(40usize), 14, 16) == -121);
        assert(walk_code(Some(20usize), 14, 32) == -121);
        assert(walk_code(Some(10usize), 78, 64) == -121);
        assert(walk_code(Some(4usize), 206, 128) == -121);
        assert(walk_code(None, 206, 256) == -121);
        assert(symbol_decodes(121));
    } else if s == 122 {
        assert(code_length(122) == 9 && code_value(122) == 329);
        assert(walk_code(Some(296usize), 1, 1) == -122);
        assert(walk_code(Some(184usize), 1, 2) == -122);
        assert(walk_code(Some(110usize), 1, 4) == -122);
        assert(walk_code(Some(62usize), 9, 8) == -122);
        assert(walk_code(Some(32usize), 9, 16) == -122);
        assert(walk_code(Some(16usize), 9, 32) == -122);
        assert(walk_code(Some(8usize), 73, 64) == -122);
        assert(walk_code(Some(2usize), 73, 128) == -122);
        assert(walk_code(None, 329, 256) == -122);
        assert(symbol_decodes(122));
    } else if s == 123 {
        assert(code_length(123) == 9 && code_value(123) == 352);
        assert(walk_code(Some(290usize), 0, 1) == -123);
        assert(walk_code(Some(180usize), 0, 2) == -123);
        assert(walk_code(Some(106usize), 0, 4) == -123);
        assert(walk_code(Some(58usize), 0, 8) == -123);
        assert(walk_code(Some(30usize), 0, 16) == -123);
        assert(walk_code(Some(16usize), 32, 32) == -123);
        assert(walk_code(Some(8usize), 96, 64) == -123);
        assert(walk_code(Some(2usize), 96, 128) == -123);
        assert(walk_code(None, 352, 256) == -123);
        assert(symbol_decodes(123));
    } else if s == 124 {
        assert(code_length(124) == 10 && code_value(124) == 442);
        assert(walk_code(Some(464usize), 0, 1) == -124);
        assert(walk_code(Some(344usize), 2, 2) == -124);
        assert(walk_code(Some(220usize), 2, 4) == -124);
        assert(walk_code(Some(134usize), 10, 8) == -124);
        assert(walk_code(Some(76usize), 26, 16) == -124);
        assert(walk_code(Some(40usize), 58, 32) == -124);
        assert(walk_code(Some(20usize), 58, 64) == -124);
        assert(walk_code(Some(10usize), 186, 128) == -124);
        assert(walk_code(Some(4usize), 442, 256) == -124);
        assert(walk_code(None, 442, 512) == -124);
        assert(symbol_decodes(124));
    } else if s == 125 {
        assert(code_length(125) == 10 && code_value(125) == 414);
        assert(walk_code(Some(472usize), 0, 1) == -125);
        assert(walk_code(Some(350usize), 2, 2) == -125);
        assert(walk_code(Some(226usize), 6, 4) == -125);
        assert(walk_code(Some(138usize), 14, 8) == -125);
        assert(walk_code(Some(78usize), 30, 16) == -125);
        assert(walk_code(Some(40usize), 30, 32) == -125);
        assert(walk_code(Some(20usize), 30, 64) == -125);
        assert(walk_code(Some(10usize), 158, 128) == -125);
        assert(walk_code(Some(4usize), 414, 256) == -125);
        assert(walk_code(None, 414, 512) == -125);
        assert(symbol_decodes(125));
    } else if s == 126 {
        assert(code_length(126) == 10 && code_value(126) == 927);
        assert(walk_code(Some(380usize), 1, 1) == -126);
        assert(walk_code(Some(254usize), 3, 2) == -126);
        assert(walk_code(Some(156usize), 7, 4) == -126);
        assert(walk_code(Some(92usize), 15, 8) == -126);
        assert(walk_code(Some(50usize), 31, 16) == -126);
        assert(walk_code(Some(26usize), 31, 32) == -126);
        assert(walk_code(Some(12usize), 31, 64) == -126);
        assert(walk_code(Some(6usize), 159, 128) == -126);
        assert(walk_code(Some(2usize), 415, 256) == -126);
        assert(walk_code(None, 927, 512) == -126);
        assert(symbol_decodes(126));
    } else if s == 127 {
        assert(code_length(127) == 9 && code_value(127) == 229);
        assert(walk_code(Some(340usize), 1, 1) == -127);
        assert(walk_code(Some(216usize), 1, 2) == -127);
        assert(walk_code(Some(132usize), 5, 4) == -127);
        assert(walk_code(Some(74usize), 5, 8) == -127);
        assert(walk_code(Some(38usize), 5, 16) == -127);
        assert(walk_code(Some(20usize), 37, 32) == -127);
        assert(walk_code(Some(10usize), 101, 64) == -127);
        assert(walk_code(Some(4usize), 229, 128) == -127);
        assert(walk_code(None, 229, 256) == -127);
        assert(symbol_decodes(127));
    }
}

#[verifier::rlimit(30)]
proof fn lemma_symbols_decode_128(s: int)
    requires
        128 <= s < 144,
    ensures
        symbol_decodes(s),
{
    lemma2_to64();
    if s == 128 {
        assert(code_length(128) == 9 && code_value(128) == 404);
        assert(walk_code(Some(268usize), 0, 1) == -128);
        assert(walk_code(Some(164usize), 0, 2) == -128);
        assert(walk_code(Some(98usize), 4, 4) == -128);
        assert(walk_code(Some(52usize), 4, 8) == -128);
        assert(walk_code(Some(28usize), 20, 16) == -128);
        assert(walk_code(Some(14usize), 20, 32) == -128);
        assert(walk_code(Some(6usize), 20, 64) == -128);
        assert(walk_code(Some(2usize), 148, 128) == -128);
        assert(walk_code(None, 404, 256) == -128);
        assert(symbol_decodes(128));
    } else if s == 129 {
        assert(code_length(129) == 9 && code_value(129) == 388);
        assert(walk_code(Some(276usize), 0, 1) == -129);
        assert(walk_code(Some(170usize), 0, 2) == -129);
        assert(walk_code(Some(102usize), 4, 4) == -129);
        assert(walk_code(Some(54usize), 4, 8) == -129);
        assert(walk_code(Some(28usize), 4, 16) == -129);
        assert(walk_code(Some(14usize), 4, 32) == -129);
        assert(walk_code(Some(6usize), 4, 64) == -129);
        assert(walk_code(Some(2usize), 132, 128) == -129);
        assert(walk_code(None, 388, 256) == -129);
        assert(symbol_decodes(129));
    } else if s == 130 {
        assert(code_length(130) == 9 && code_value(130) == 294);
        assert(walk_code(Some(306usize), 0, 1) == -130);
        assert(walk_code(Some(194usize), 2, 2) == -130);
        assert(walk_code(Some(118usize), 6, 4) == -130);
        assert(walk_code(Some(66usize), 6, 8) == -130);
        assert(walk_code(Some(34usize), 6, 16) == -130);
        assert(walk_code(Some(18usize), 38, 32) == -130);
        assert(walk_code(Some(8usize), 38, 64) == -130);
        assert(walk_code(Some(2usize), 38, 128) == -130);
        assert(walk_code(None, 294, 256) == -130);
        assert(symbol_decodes(130));
    } else if s == 131 {
        assert(code_length(131) == 7 && code_value(131) == 48);
        assert(walk_code(Some(140usize), 0, 1) == -131);
        assert(walk_code(Some(78usize), 0, 2) == -131);
        assert(walk_code(Some(40usize), 0, 4) == -131);
        assert(walk_code(Some(20usize), 0, 8) == -131);
        assert(walk_code(Some(10usize), 16, 16) == -131);
        assert(walk_code(Some(4usize), 48, 32) == -131);
        assert(walk_code(None, 48, 64) == -131);
        assert(symbol_decodes(131));
    } else if s == 132 {
        assert(code_length(132) == 8 && code_value(132) == 108);
        assert(walk_code(Some(222usize), 0, 1) == -132);
        assert(walk_code(Some(134usize), 0, 2) == -132);
        assert(walk_code(Some(76usize), 4, 4) == -132);
        assert(walk_code(Some(40usize), 12, 8) == -132);
        assert(walk_code(Some(20usize), 12, 16) == -132);
        assert(walk_code(Some(10usize), 44, 32) == -132);
        assert(walk_code(Some(4usize), 108, 64) == -132);
        assert(walk_code(None, 108, 128) == -132);
        assert(symbol_decodes(132));
    } else if s == 133 {
        assert(code_length(133) == 9 && code_value(133) == 289);
        assert(walk_code(Some(310usize), 1, 1) == -133);
        assert(walk_code(Some(196usize), 1, 2) == -133);
        assert(walk_code(Some(118usize), 1, 4) == -133);
        assert(walk_code(Some(66usize), 1, 8) == -133);
        assert(walk_code(Some(34usize), 1, 16) == -133);
        assert(walk_code(Some(18usize), 33, 32) == -133);
        assert(walk_code(Some(8usize), 33, 64) == -133);
        assert(walk_code(Some(2usize), 33, 128) == -133);
        assert(walk_code(None, 289, 256) == -133);
        assert(symbol_decodes(133));
    } else if s == 134 {
        assert(code_length(134) == 9 && code_value(134) == 488);
        assert(walk_code(Some(252usize), 0, 1) == -134);
        assert(walk_code(Some(154usize), 0, 2) == -134);
        assert(walk_code(Some(86usize), 0, 4) == -134);
        assert(walk_code(Some(46usize), 8, 8) == -134);
        assert(walk_code(Some(24usize), 8, 16) == -134);
        assert(walk_code(Some(12usize), 40, 32) == -134);
        assert(walk_code(Some(6usize), 104, 64) == -134);
        assert(walk_code(Some(2usize), 232, 128) == -134);
        assert(walk_code(None, 488, 256) == -134);
        assert(symbol_decodes(134));
    } else if s == 135 {
        assert(code_length(135) == 10 && code_value(135) == 449);
        assert(walk_code(Some(462usize), 1, 1) == -135);
        assert(walk_code(Some(342usize), 1, 2) == -135);
        assert(walk_code(Some(218usize), 1, 4) == -135);
        assert(walk_code(Some(132usize), 1, 8) == -135);
        assert(walk_code(Some(74usize), 1, 16) == -135);
        assert(walk_code(Some(38usize), 1, 32) == -135);
        assert(walk_code(Some(20usize), 65, 64) == -135);
        assert(walk_code(Some(10usize), 193, 128) == -135);
        assert(walk_code(Some(4usize), 449, 256) == -135);
        assert(walk_code(None, 449, 512) == -135);
        assert(symbol_decodes(135));
    } else if s == 136 {
        assert(code_length(136) == 10 && code_value(136) == 285);
        assert(walk_code(Some(482usize), 1, 1) == -136);
        assert(walk_code(Some(362usize), 1, 2) == -136);
        assert(walk_code(Some(238usize), 5, 4) == -136);
        assert(walk_code(Some(148usize), 13, 8) == -136);
        assert(walk_code(Some(84usize), 29, 16) == -136);
        assert(walk_code(Some(44usize), 29, 32) == -136);
        assert(walk_code(Some(22usize), 29, 64) == -136);
        assert(walk_code(Some(10usize), 29, 128) == -136);
        assert(walk_code(Some(4usize), 285, 256) == -136);
        assert(walk_code(None, 285, 512) == -136);
        assert(symbol_decodes(136));
    } else if s == 137 {
        assert(code_length(137) == 10 && code_value(137) == 355);
        assert(walk_code(Some(478usize), 1, 1) == -137);
        assert(walk_code(Some(356usize), 3, 2) == -137);
        assert(walk_code(Some(234usize), 3, 4) == -137);
        assert(walk_code(Some(144usize), 3, 8) == -137);
        assert(walk_code(Some(80usize), 3, 16) == -137);
        assert(walk_code(Some(42usize), 35, 32) == -137);
        assert(walk_code(Some(22usize), 99, 64) == -137);
        assert(walk_code(Some(10usize), 99, 128) == -137);
        assert(walk_code(Some(4usize), 355, 256) == -137);
        assert(walk_code(None, 355, 512) == -137);
        assert(symbol_decodes(137));
    } else if s == 138 {
        assert(code_length(138) == 10 && code_value(138) == 901);
        assert(walk_code(Some(384usize), 1, 1) == -138);
        assert(walk_code(Some(260usize), 1, 2) == -138);
        assert(walk_code(Some(160usize), 5, 4) == -138);
        assert(walk_code(Some(94usize), 5, 8) == -138);
        assert(walk_code(Some(50usize), 5, 16) == -138);
        assert(walk_code(Some(26usize), 5, 32) == -138);
        assert(walk_code(Some(12usize), 5, 64) == -138);
        assert(walk_code(Some(6usize), 133, 128) == -138);
        assert(walk_code(Some(2usize), 389, 256) == -138);
        assert(walk_code(None, 901, 512) == -138);
        assert(symbol_decodes(138));
    } else if s == 139 {
        assert(code_length(139) == 10 && code_value(139) == 987);
        assert(walk_code(Some(378usize), 1, 1) == -139);
        assert(walk_code(Some(248usize), 3, 2) == -139);
        assert(walk_code(Some(152usize), 3, 4) == -139);
        assert(walk_code(Some(86usize), 11, 8) == -139);
        assert(walk_code(Some(46usize), 27, 16) == -139);
        assert(walk_code(Some(24usize), 27, 32) == -139);
        assert(walk_code(Some(12usize), 91, 64) == -139);
        assert(walk_code(Some(6usize), 219, 128) == -139);
        assert(walk_code(Some(2usize), 475, 256) == -139);
        assert(walk_code(None, 987, 512) == -139);
        assert(symbol_decodes(139));
    } else if s == 140 {
        assert(code_length(140) == 10 && code_value(140) == 381);
        assert(walk_code(Some(476usize), 1, 1) == -140);
        assert(walk_code(Some(354usize), 1, 2) == -140);
        assert(walk_code(Some(230usize), 5, 4) == -140);
        assert(walk_code(Some(142usize), 13, 8) == -140);
        assert(walk_code(Some(80usize), 29, 16) == -140);
        assert(walk_code(Some(42usize), 61, 32) == -140);
        assert(walk_code(Some(22usize), 125, 64) == -140);
        assert(walk_code(Some(10usize), 125, 128) == -140);
        assert(walk_code(Some(4usize), 381, 256) == -140);
        assert(walk_code(None, 381, 512) == -140);
        assert(symbol_decodes(140));
    } else if s == 141 {
        assert(code_length(141) == 10 && code_value(141) == 262);
        assert(walk_code(Some(484usize), 0, 1) == -141);
        assert(walk_code(Some(374usize), 2, 2) == -141);
        assert(walk_code(Some(244usize), 6, 4) == -141);
        assert(walk_code(Some(150usize), 6, 8) == -141);
        assert(walk_code(Some(84usize), 6, 16) == -141);
        assert(walk_code(Some(44usize), 6, 32) == -141);
        assert(walk_code(Some(22usize), 6, 64) == -141);
        assert(walk_code(Some(10usize), 6, 128) == -141);
        assert(walk_code(Some(4usize), 262, 256) == -141);
        assert(walk_code(None, 262, 512) == -141);
        assert(symbol_decodes(141));
    } else if s == 142 {
        assert(code_length(142) == 10 && code_value(142) == 919);
        assert(walk_code(Some(382usize), 1, 1) == -142);
        assert(walk_code(Some(258usize), 3, 2) == -142);
        assert(walk_code(Some(158usize), 7, 4) == -142);
        assert(walk_code(Some(92usize), 7, 8) == -142);
        assert(walk_code(Some(50usize), 23, 16) == -142);
        assert(walk_code(Some(26usize), 23, 32) == -142);
        assert(walk_code(Some(12usize), 23, 64) == -142);
        assert(walk_code(Some(6usize), 151, 128) == -142);
        assert(walk_code(Some(2usize), 407, 256) == -142);
        assert(walk_code(None, 919, 512) == -142);
        assert(symbol_decodes(142));
    } else if s == 143 {
        assert(code_length(143) == 10 && code_value(143) == 590);
        assert(walk_code(Some(414usize), 0, 1) == -143);
        assert(walk_code(Some(306usize), 2, 2) == -143);
        assert(walk_code(Some(194usize), 6, 4) == -143);
        assert(walk_code(Some(118usize), 14, 8) == -143);
        assert(walk_code(Some(66usize), 14, 16) == -143);
        assert(walk_code(Some(34usize), 14, 32) == -143);
        assert(walk_code(Some(18usize), 78, 64) == -143);
        assert(walk_code(Some(8usize), 78, 128) == -143);
        assert(walk_code(Some(2usize), 78, 256) == -143);
        assert(walk_code(None, 590, 512) == -143);
        assert(symbol_decodes(143));
    }
}

#[verifier::rlimit(30)]
proof fn lemma_symbols_decode_144(s: int)
    requires
        144 <= s < 160,
    ensures
        symbol_decodes(s),
{
    lemma2_to64();
    if s == 144 {
        assert(code_length(144) == 7 && code_value(144) == 46);
        assert(walk_code(Some(142usize), 0, 1) == -144);
        assert(walk_code(Some(80usize), 2, 2) == -144);
        assert(walk_code(Some(42usize), 6, 4) == -144);
        assert(walk_code(Some(22usize), 14, 8) == -144);
        assert(walk_code(Some(10usize), 14, 16) == -144);
        assert(walk_code(Some(4usize), 46, 32) == -144);
        assert(walk_code(None, 46, 64) == -144);
        assert(symbol_decodes(144));
    } else if s == 145 {
        assert(code_length(145) == 8 && code_value(145) == 152);
        assert(walk_code(Some(188usize), 0, 1) == -145);
        assert(walk_code(Some(114usize), 0, 2) == -145);
        assert(walk_code(Some(64usize), 0, 4) == -145);
        assert(walk_code(Some(34usize), 8, 8) == -145);
        assert(walk_code(Some(18usize), 24, 16) == -145);
        assert(walk_code(Some(8usize), 24, 32) == -145);
        assert(walk_code(Some(2usize), 24, 64) == -145);
        assert(walk_code(None, 152, 128) == -145);
        assert(symbol_decodes(145));
    } else if s == 146 {
        assert(code_length(146) == 10 && code_value(146) == 828);
        assert(walk_code(Some(386usize), 0, 1) == -146);
        assert(walk_code(Some(262usize), 0, 2) == -146);
        assert(walk_code(Some(162usize), 4, 4) == -146);
        assert(walk_code(Some(96usize), 12, 8) == -146);
        assert(walk_code(Some(52usize), 28, 16) == -146);
        assert(walk_code(Some(28usize), 60, 32) == -146);
        assert(walk_code(Some(14usize), 60, 64) == -146);
        assert(walk_code(Some(6usize), 60, 128) == -146);
        assert(walk_code(Some(2usize), 316, 256) == -146);
        assert(walk_code(None, 828, 512) == -146);
        assert(symbol_decodes(146));
    } else if s == 147 {
        assert(code_length(147) == 10 && code_value(147) == 814);
        assert(walk_code(Some(388usize), 0, 1) == -147);
        assert(walk_code(Some(266usize), 2, 2) == -147);
        assert(walk_code(Some(164usize), 6, 4) == -147);
        assert(walk_code(Some(98usize), 14, 8) == -147);
        assert(walk_code(Some(52usize), 14, 16) == -147);
        assert(walk_code(Some(28usize), 46, 32) == -147);
        assert(walk_code(Some(14usize), 46, 64) == -147);
        assert(walk_code(Some(6usize), 46, 128) == -147);
        assert(walk_code(Some(2usize), 302, 256) == -147);
        assert(walk_code(None, 814, 512) == -147);
        assert(symbol_decodes(147));
    } else if s == 148 {
        assert(code_length(148) == 10 && code_value(148) == 489);
        assert(walk_code(Some(444usize), 1, 1) == -148);
        assert(walk_code(Some(328usize), 1, 2) == -148);
        assert(walk_code(Some(208usize), 1, 4) == -148);
        assert(walk_code(Some(128usize), 9, 8) == -148);
        assert(walk_code(Some(72usize), 9, 16) == -148);
        assert(walk_code(Some(38usize), 41, 32) == -148);
        assert(walk_code(Some(20usize), 105, 64) == -148);
        assert(walk_code(Some(10usize), 233, 128) == -148);
        assert(walk_code(Some(4usize), 489, 256) == -148);
        assert(walk_code(None, 489, 512) == -148);
        assert(symbol_decodes(148));
    } else if s == 149 {
        assert(code_length(149) == 9 && code_value(149) == 191);
        assert(walk_code(Some(354usize), 1, 1) == -149);
        assert(walk_code(Some(230usize), 3, 2) == -149);
        assert(walk_code(Some(142usize), 7, 4) == -149);
        assert(walk_code(Some(80usize), 15, 8) == -149);
        assert(walk_code(Some(42usize), 31, 16) == -149);
        assert(walk_code(Some(22usize), 63, 32) == -149);
        assert(walk_code(Some(10usize), 63, 64) == -149);
        assert(walk_code(Some(4usize), 191, 128) == -149);
        assert(walk_code(None, 191, 256) == -149);
        assert(symbol_decodes(149));
    } else if s == 150 {
        assert(code_length(150) == 10 && code_value(150) == 991);
        assert(walk_code(Some(376usize), 1, 1) == -150);
        assert(walk_code(Some(246usize), 3, 2) == -150);
        assert(walk_code(Some(152usize), 7, 4) == -150);
        assert(walk_code(Some(86usize), 15, 8) == -150);
        assert(walk_code(Some(46usize), 31, 16) == -150);
        assert(walk_code(Some(24usize), 31, 32) == -150);
        assert(walk_code(Some(12usize), 95, 64) == -150);
        assert(walk_code(Some(6usize), 223, 128) == -150);
        assert(walk_code(Some(2usize), 479, 256) == -150);
        assert(walk_code(None, 991, 512) == -150);
        assert(symbol_decodes(150));
    } else if s == 151 {
        assert(code_length(151) == 10 && code_value(151) == 477);
        assert(walk_code(Some(452usize), 1, 1) == -151);
        assert(walk_code(Some(332usize), 1, 2) == -151);
        assert(walk_code(Some(212usize), 5, 4) == -151);
        assert(walk_code(Some(130usize), 13, 8) == -151);
        assert(walk_code(Some(74usize), 29, 16) == -151);
        assert(walk_code(Some(38usize), 29, 32) == -151);
        assert(walk_code(Some(20usize), 93, 64) == -151);
        assert(walk_code(Some(10usize), 221, 128) == -151);
        assert(walk_code(Some(4usize), 477, 256) == -151);
        assert(walk_code(None, 477, 512) == -151);
        assert(symbol_decodes(151));
    } else if s == 152 {
        assert(code_length(152) == 10 && code_value(152) == 813);
        assert(walk_code(Some(390usize), 1, 1) == -152);
        assert(walk_code(Some(266usize), 1, 2) == -152);
        assert(walk_code(Some(164usize), 5, 4) == -152);
        assert(walk_code(Some(98usize), 13, 8) == -152);
        assert(walk_code(Some(52usize), 13, 16) == -152);
        assert(walk_code(Some(28usize), 45, 32) == -152);
        assert(walk_code(Some(14usize), 45, 64) == -152);
        assert(walk_code(Some(6usize), 45, 128) == -152);
        assert(walk_code(Some(2usize), 301, 256) == -152);
        assert(walk_code(None, 813, 512) == -152);
        assert(symbol_decodes(152));
    } else if s == 153 {
        assert(code_length(153) == 10 && code_value(153) == 749);
        assert(walk_code(Some(396usize), 1, 1) == -153);
        assert(walk_code(Some(278usize), 1, 2) == -153);
        assert(walk_code(Some(174usize), 5, 4) == -153);
        assert(walk_code(Some(104usize), 13, 8) == -153);
        assert(walk_code(Some(56usize), 13, 16) == -153);
        assert(walk_code(Some(30usize), 45, 32) == -153);
        assert(walk_code(Some(16usize), 109, 64) == -153);
        assert(walk_code(Some(8usize), 237, 128) == -153);
        assert(walk_code(Some(2usize), 237, 256) == -153);
        assert(walk_code(None, 749, 512) == -153);
        assert(symbol_decodes(153));
    } else if s == 154 {
        assert(code_length(154) == 10 && code_value(154) == 779);
        assert(walk_code(Some(394usize), 1, 1) == -154);
        assert(walk_code(Some(276usize), 3, 2) == -154);
        assert(walk_code(Some(170usize), 3, 4) == -154);
        assert(walk_code(Some(102usize), 11, 8) == -154);
        assert(walk_code(Some(54usize), 11, 16) == -154);
        assert(walk_code(Some(28usize), 11, 32) == -154);
        assert(walk_code(Some(14usize), 11, 64) == -154);
        assert(walk_code(Some(6usize), 11, 128) == -154);
        assert(walk_code(Some(2usize), 267, 256) == -154);
        assert(walk_code(None, 779, 512) == -154);
        assert(symbol_decodes(154));
    } else if s == 155 {
        assert(code_length(155) == 10 && code_value(155) == 263);
        assert(walk_code(Some(484usize), 1, 1) == -155);
        assert(walk_code(Some(374usize), 3, 2) == -155);
        assert(walk_code(Some(244usize), 7, 4) == -155);
        assert(walk_code(Some(150usize), 7, 8) == -155);
        assert(walk_code(Some(84usize), 7, 16) == -155);
        assert(walk_code(Some(44usize), 7, 32) == -155);
        assert(walk_code(Some(22usize), 7, 64) == -155);
        assert(walk_code(Some(10usize), 7, 128) == -155);
        assert(walk_code(Some(4usize), 263, 256) == -155);
        assert(walk_code(None, 263, 512) == -155);
        assert(symbol_decodes(155));
    } else if s == 156 {
        assert(code_length(156) == 10 && code_value(156) == 744);
        assert(walk_code(Some(398usize), 0, 1) == -156);
        assert(walk_code(Some(280usize), 0, 2) == -156);
        assert(walk_code(Some(174usize), 0, 4) == -156);
        assert(walk_code(Some(104usize), 8, 8) == -156);
        assert(walk_code(Some(56usize), 8, 16) == -156);
        assert(walk_code(Some(30usize), 40, 32) == -156);
        assert(walk_code(Some(16usize), 104, 64) == -156);
        assert(walk_code(Some(8usize), 232, 128) == -156);
        assert(walk_code(Some(2usize), 232, 256) == -156);
        assert(walk_code(None, 744, 512) == -156);
        assert(symbol_decodes(156));
    } else if s == 157 {
        assert(code_length(157) == 10 && code_value(157) == 990);
        assert(walk_code(Some(376usize), 0, 1) == -157);
        assert(walk_code(Some(246usize), 2, 2) == -157);
        assert(walk_code(Some(152usize), 6, 4) == -157);
        assert(walk_code(Some(86usize), 14, 8) == -157);
        assert(walk_code(Some(46usize), 30, 16) == -157);
        assert(walk_code(Some(24usize), 30, 32) == -157);
        assert(walk_code(Some(12usize), 94, 64) == -157);
        assert(walk_code(Some(6usize), 222, 128) == -157);
        assert(walk_code(Some(2usize), 478, 256) == -157);
        assert(walk_code(None, 990, 512) == -157);
        assert(symbol_decodes(157));
    } else if s == 158 {
        assert(code_length(158) == 10 && code_value(158) == 293);
        assert(walk_code(Some(480usize), 1, 1) == -158);
        assert(walk_code(Some(358usize), 1, 2) == -158);
        assert(walk_code(Some(236usize), 5, 4) == -158);
        assert(walk_code(Some(146usize), 5, 8) == -158);
        assert(walk_code(Some(82usize), 5, 16) == -158);
        assert(walk_code(Some(44usize), 37, 32) == -158);
        assert(walk_code(Some(22usize), 37, 64) == -158);
        assert(walk_code(Some(10usize), 37, 128) == -158);
        assert(walk_code(Some(4usize), 293, 256) == -158);
        assert(walk_code(None, 293, 512) == -158);
        assert(symbol_decodes(158));
    } else if s == 159 {
        assert(code_length(159) == 10 && code_value(159) == 488);
        assert(walk_code(Some(444usize), 0, 1) == -159);
        assert(walk_code(Some(328usize), 0, 2) == -159);
        assert(walk_code(Some(208usize), 0, 4) == -159);
        assert(walk_code(Some(128usize), 8, 8) == -159);
        assert(walk_code(Some(72usize), 8, 16) == -159);
        assert(walk_code(Some(38usize), 40, 32) == -159);
        assert(walk_code(Some(20usize), 104, 64) == -159);
        assert(walk_code(Some(10usize), 232, 128) == -159);
        assert(walk_code(Some(4usize), 488, 256) == -159);
        assert(walk_code(None, 488, 512) == -159);
        assert(symbol_decodes(159));
    }
}

#[verifier::rlimit(30)]
proof fn lemma_symbols_decode_160(s: int)
    requires
        160 <= s < 176,
    ensures
        symbol_decodes(s),
{
    lemma2_to64();
    if s == 160 {
        assert(code_length(160) == 9 && code_value(160) == 233);
        assert(walk_code(Some(336usize), 1, 1) == -160);
        assert(walk_code(Some(214usize), 1, 2) == -160);
        assert(walk_code(Some(130usize), 1, 4) == -160);
        assert(walk_code(Some(74usize), 9, 8) == -160);
        assert(walk_code(Some(38usize), 9, 16) == -160);
        assert(walk_code(Some(20usize), 41, 32) == -160);
        assert(walk_code(Some(10usize), 105, 64) == -160);
        assert(walk_code(Some(4usize), 233, 128) == -160);
        assert(walk_code(None, 233, 256) == -160);
        assert(symbol_decodes(160));
    } else if s == 161 {
        assert(code_length(161) == 10 && code_value(161) == 461);
        assert(walk_code(Some(458usize), 1, 1) == -161);
        assert(walk_code(Some(338usize), 1, 2) == -161);
        assert(walk_code(Some(216usize), 5, 4) == -161);
        assert(walk_code(Some(132usize), 13, 8) == -161);
        assert(walk_code(Some(74usize), 13, 16) == -161);
        assert(walk_code(Some(38usize), 13, 32) == -161);
        assert(walk_code(Some(20usize), 77, 64) == -161);
        assert(walk_code(Some(10usize), 205, 128) == -161);
        assert(walk_code(Some(4usize), 461, 256) == -161);
        assert(walk_code(None, 461, 512) == -161);
        assert(symbol_decodes(161));
    } else if s == 162 {
        assert(code_length(162) == 10 && code_value(162) == 437);
        assert(walk_code(Some(468usize), 1, 1) == -162);
        assert(walk_code(Some(346usize), 1, 2) == -162);
        assert(walk_code(Some(222usize), 5, 4) == -162);
        assert(walk_code(Some(134usize), 5, 8) == -162);
        assert(walk_code(Some(76usize), 21, 16) == -162);
        assert(walk_code(Some(40usize), 53, 32) == -162);
        assert(walk_code(Some(20usize), 53, 64) == -162);
        assert(walk_code(Some(10usize), 181, 128) == -162);
        assert(walk_code(Some(4usize), 437, 256) == -162);
        assert(walk_code(None, 437, 512) == -162);
        assert(symbol_decodes(162));
    } else if s == 163 {
        assert(code_length(163) == 9 && code_value(163) == 357);
        assert(walk_code(Some(288usize), 1, 1) == -163);
        assert(walk_code(Some(178usize), 1, 2) == -163);
        assert(walk_code(Some(106usize), 5, 4) == -163);
        assert(walk_code(Some(58usize), 5, 8) == -163);
        assert(walk_code(Some(30usize), 5, 16) == -163);
        assert(walk_code(Some(16usize), 37, 32) == -163);
        assert(walk_code(Some(8usize), 101, 64) == -163);
        assert(walk_code(Some(2usize), 101, 128) == -163);
        assert(walk_code(None, 357, 256) == -163);
        assert(symbol_decodes(163));
    } else if s == 164 {
        assert(code_length(164) == 10 && code_value(164) == 562);
        assert(walk_code(Some(424usize), 0, 1) == -164);
        assert(walk_code(Some(316usize), 2, 2) == -164);
        assert(walk_code(Some(200usize), 2, 4) == -164);
        assert(walk_code(Some(120usize), 2, 8) == -164);
        assert(walk_code(Some(68usize), 18, 16) == -164);
        assert(walk_code(Some(36usize), 50, 32) == -164);
        assert(walk_code(Some(18usize), 50, 64) == -164);
        assert(walk_code(Some(8usize), 50, 128) == -164);
        assert(walk_code(Some(2usize), 50, 256) == -164);
        assert(walk_code(None, 562, 512) == -164);
        assert(symbol_decodes(164));
    } else if s == 165 {
        assert(code_length(165) == 10 && code_value(165) == 737);
        assert(walk_code(Some(400usize), 1, 1) == -165);
        assert(walk_code(Some(284usize), 1, 2) == -165);
        assert(walk_code(Some(176usize), 1, 4) == -165);
        assert(walk_code(Some(104usize), 1, 8) == -165);
        assert(walk_code(Some(56usize), 1, 16) == -165);
        assert(walk_code(Some(30usize), 33, 32) == -165);
        assert(walk_code(Some(16usize), 97, 64) == -165);
        assert(walk_code(Some(8usize), 225, 128) == -165);
        assert(walk_code(Some(2usize), 225, 256) == -165);
        assert(walk_code(None, 737, 512) == -165);
        assert(symbol_decodes(165));
    } else if s == 166 {
        assert(code_length(166) == 11 && code_value(166) == 942);
        assert(walk_code(Some(500usize), 0, 1) == -166);
        assert(walk_code(Some(454usize), 2, 2) == -166);
        assert(walk_code(Some(334usize), 6, 4) == -166);
        assert(walk_code(Some(214usize), 14, 8) == -166);
        assert(walk_code(Some(130usize), 14, 16) == -166);
        assert(walk_code(Some(74usize), 46, 32) == -166);
        assert(walk_code(Some(38usize), 46, 64) == -166);
        assert(walk_code(Some(20usize), 174, 128) == -166);
        assert(walk_code(Some(10usize), 430, 256) == -166);
        assert(walk_code(Some(4usize), 942, 512) == -166);
        assert(walk_code(None, 942, 1024) == -166);
        assert(symbol_decodes(166));
    } else if s == 167 {
        assert(code_length(167) == 11 && code_value(167) == 966);
        assert(walk_code(Some(496usize), 0, 1) == -167);
        assert(walk_code(Some(446usize), 2, 2) == -167);
        assert(walk_code(Some(330usize), 6, 4) == -167);
        assert(walk_code(Some(210usize), 6, 8) == -167);
        assert(walk_code(Some(128usize), 6, 16) == -167);
        assert(walk_code(Some(72usize), 6, 32) == -167);
        assert(walk_code(Some(38usize), 70, 64) == -167);
        assert(walk_code(Some(20usize), 198, 128) == -167);
        assert(walk_code(Some(10usize), 454, 256) == -167);
        assert(walk_code(Some(4usize), 966, 512) == -167);
        assert(walk_code(None, 966, 1024) == -167);
        assert(symbol_decodes(167));
    } else if s == 168 {
        assert(code_length(168) == 11 && code_value(168) == 994);
        assert(walk_code(Some(488usize), 0, 1) == -168);
        assert(walk_code(Some(440usize), 2, 2) == -168);
        assert(walk_code(Some(326usize), 2, 4) == -168);
        assert(walk_code(Some(206usize), 2, 8) == -168);
        assert(walk_code(Some(126usize), 2, 16) == -168);
        assert(walk_code(Some(72usize), 34, 32) == -168);
        assert(walk_code(Some(38usize), 98, 64) == -168);
        assert(walk_code(Some(20usize), 226, 128) == -168);
        assert(walk_code(Some(10usize), 482, 256) == -168);
        assert(walk_code(Some(4usize), 994, 512) == -168);
        assert(walk_code(None, 994, 1024) == -168);
        assert(symbol_decodes(168));
    } else if s == 169 {
        assert(code_length(169) == 10 && code_value(169) == 517);
        assert(walk_code(Some(434usize), 1, 1) == -169);
        assert(walk_code(Some(322usize), 1, 2) == -169);
        assert(walk_code(Some(204usize), 5, 4) == -169);
        assert(walk_code(Some(124usize), 5, 8) == -169);
        assert(walk_code(Some(70usize), 5, 16) == -169);
        assert(walk_code(Some(36usize), 5, 32) == -169);
        assert(walk_code(Some(18usize), 5, 64) == -169);
        assert(walk_code(Some(8usize), 5, 128) == -169);
        assert(walk_code(Some(2usize), 5, 256) == -169);
        assert(walk_code(None, 517, 512) == -169);
        assert(symbol_decodes(169));
    } else if s == 170 {
        assert(code_length(170) == 10 && code_value(170) == 666);
        assert(walk_code(Some(404usize), 0, 1) == -170);
        assert(walk_code(Some(292usize), 2, 2) == -170);
        assert(walk_code(Some(182usize), 2, 4) == -170);
        assert(walk_code(Some(110usize), 10, 8) == -170);
        assert(walk_code(Some(62usize), 26, 16) == -170);
        assert(walk_code(Some(32usize), 26, 32) == -170);
        assert(walk_code(Some(16usize), 26, 64) == -170);
        assert(walk_code(Some(8usize), 154, 128) == -170);
        assert(walk_code(Some(2usize), 154, 256) == -170);
        assert(walk_code(None, 666, 512) == -170);
        assert(symbol_decodes(170));
    } else if s == 171 {
        assert(code_length(171) == 10 && code_value(171) == 584);
        assert(walk_code(Some(416usize), 0, 1) == -171);
        assert(walk_code(Some(308usize), 0, 2) == -171);
        assert(walk_code(Some(194usize), 0, 4) == -171);
        assert(walk_code(Some(118usize), 8, 8) == -171);
        assert(walk_code(Some(66usize), 8, 16) == -171);
        assert(walk_code(Some(34usize), 8, 32) == -171);
        assert(walk_code(Some(18usize), 72, 64) == -171);
        assert(walk_code(Some(8usize), 72, 128) == -171);
        assert(walk_code(Some(2usize), 72, 256) == -171);
        assert(walk_code(None, 584, 512) == -171);
        assert(symbol_decodes(171));
    } else if s == 172 {
        assert(code_length(172) == 10 && code_value(172) == 717);
        assert(walk_code(Some(402usize), 1, 1) == -172);
        assert(walk_code(Some(286usize), 1, 2) == -172);
        assert(walk_code(Some(178usize), 5, 4) == -172);
        assert(walk_code(Some(106usize), 13, 8) == -172);
        assert(walk_code(Some(58usize), 13, 16) == -172);
        assert(walk_code(Some(30usize), 13, 32) == -172);
        assert(walk_code(Some(16usize), 77, 64) == -172);
        assert(walk_code(Some(8usize), 205, 128) == -172);
        assert(walk_code(Some(2usize), 205, 256) == -172);
        assert(walk_code(None, 717, 512) == -172);
        assert(symbol_decodes(172));
    } else if s == 173 {
        assert(code_length(173) == 10 && code_value(173) == 571);
        assert(walk_code(Some(422usize), 1, 1) == -173);
        assert(walk_code(Some(314usize), 3, 2) == -173);
        assert(walk_code(Some(198usize), 3, 4) == -173);
        assert(walk_code(Some(120usize), 11, 8) == -173);
        assert(walk_code(Some(68usize), 27, 16) == -173);
        assert(walk_code(Some(36usize), 59, 32) == -173);
        assert(walk_code(Some(18usize), 59, 64) == -173);
        assert(walk_code(Some(8usize), 59, 128) == -173);
        assert(walk_code(Some(2usize), 59, 256) == -173);
        assert(walk_code(None, 571, 512) == -173);
        assert(symbol_decodes(173));
    } else if s == 174 {
        assert(code_length(174) == 11 && code_value(174) == 965);
        assert(walk_code(Some(498usize), 1, 1) == -174);
        assert(walk_code(Some(446usize), 1, 2) == -174);
        assert(walk_code(Some(330usize), 5, 4) == -174);
        assert(walk_code(Some(210usize), 5, 8) == -174);
        assert(walk_code(Some(128usize), 5, 16) == -174);
        assert(walk_code(Some(72usize), 5, 32) == -174);
        assert(walk_code(Some(38usize), 69, 64) == -174);
        assert(walk_code(Some(20usize), 197, 128) == -174);
        assert(walk_code(Some(10usize), 453, 256) == -174);
        assert(walk_code(Some(4usize), 965, 512) == -174);
        assert(walk_code(None, 965, 1024) == -174);
        assert(symbol_decodes(174));
    } else if s == 175 {
        assert(code_length(175) == 10 && code_value(175) == 593);
        assert(walk_code(Some(412usize), 1, 1) == -175);
        assert(walk_code(Some(304usize), 1, 2) == -175);
        assert(walk_code(Some(192usize), 1, 4) == -175);
        assert(walk_code(Some(116usize), 1, 8) == -175);
        assert(walk_code(Some(66usize), 17, 16) == -175);
        assert(walk_code(Some(34usize), 17, 32) == -175);
        assert(walk_code(Some(18usize), 81, 64) == -175);
        assert(walk_code(Some(8usize), 81, 128) == -175);
        assert(walk_code(Some(2usize), 81, 256) == -175);
        assert(walk_code(None, 593, 512) == -175);
        assert(symbol_decodes(175));
    }
}

#[verifier::rlimit(30)]
proof fn lemma_symbols_decode_176(s: int)
    requires
        176 <= s < 192,
    ensures
        symbol_decodes(s),
{
    lemma2_to64();
    if s == 176 {
        assert(code_length(176) == 10 && code_value(176) == 745);
        assert(walk_code(Some(398usize), 1, 1) == -176);
        assert(walk_code(Some(280usize), 1, 2) == -176);
        assert(walk_code(Some(174usize), 1, 4) == -176);
        assert(walk_code(Some(104usize), 9, 8) == -176);
        assert(walk_code(Some(56usize), 9, 16) == -176);
        assert(walk_code(Some(30usize), 41, 32) == -176);
        assert(walk_code(Some(16usize), 105, 64) == -176);
        assert(walk_code(Some(8usize), 233, 128) == -176);
        assert(walk_code(Some(2usize), 233, 256) == -176);
        assert(walk_code(None, 745, 512) == -176);
        assert(symbol_decodes(176));
    } else if s == 177 {
        assert(code_length(177) == 10 && code_value(177) == 594);
        assert(walk_code(Some(410usize), 0, 1) == -177);
        assert(walk_code(Some(304usize), 2, 2) == -177);
        assert(walk_code(Some(192usize), 2, 4) == -177);
        assert(walk_code(Some(116usize), 2, 8) == -177);
        assert(walk_code(Some(66usize), 18, 16) == -177);
        assert(walk_code(Some(34usize), 18, 32) == -177);
        assert(walk_code(Some(18usize), 82, 64) == -177);
        assert(walk_code(Some(8usize), 82, 128) == -177);
        assert(walk_code(Some(2usize), 82, 256) == -177);
        assert(walk_code(None, 594, 512) == -177);
        assert(symbol_decodes(177));
    } else if s == 178 {
        assert(code_length(178) == 9 && code_value(178) == 490);
        assert(walk_code(Some(250usize), 0, 1) == -178);
        assert(walk_code(Some(154usize), 2, 2) == -178);
        assert(walk_code(Some(86usize), 2, 4) == -178);
        assert(walk_code(Some(46usize), 10, 8) == -178);
        assert(walk_code(Some(24usize), 10, 16) == -178);
        assert(walk_code(Some(12usize), 42, 32) == -178);
        assert(walk_code(Some(6usize), 106, 64) == -178);
        assert(walk_code(Some(2usize), 234, 128) == -178);
        assert(walk_code(None, 490, 256) == -178);
        assert(symbol_decodes(178));
    } else if s == 179 {
        assert(code_length(179) == 11 && code_value(179) == 928);
        assert(walk_code(Some(504usize), 0, 1) == -179);
        assert(walk_code(Some(456usize), 0, 2) == -179);
        assert(walk_code(Some(336usize), 0, 4) == -179);
        assert(walk_code(Some(214usize), 0, 8) == -179);
        assert(walk_code(Some(130usize), 0, 16) == -179);
        assert(walk_code(Some(74usize), 32, 32) == -179);
        assert(walk_code(Some(38usize), 32, 64) == -179);
        assert(walk_code(Some(20usize), 160, 128) == -179);
        assert(walk_code(Some(10usize), 416, 256) == -179);
        assert(walk_code(Some(4usize), 928, 512) == -179);
        assert(walk_code(None, 928, 1024) == -179);
        assert(symbol_decodes(179));
    } else if s == 180 {
        assert(code_length(180) == 11 && code_value(180) == 913);
        assert(walk_code(Some(508usize), 1, 1) == -180);
        assert(walk_code(Some(460usize), 1, 2) == -180);
        assert(walk_code(Some(340usize), 1, 4) == -180);
        assert(walk_code(Some(216usize), 1, 8) == -180);
        assert(walk_code(Some(132usize), 17, 16) == -180);
        assert(walk_code(Some(74usize), 17, 32) == -180);
        assert(walk_code(Some(38usize), 17, 64) == -180);
        assert(walk_code(Some(20usize), 145, 128) == -180);
        assert(walk_code(Some(10usize), 401, 256) == -180);
        assert(walk_code(Some(4usize), 913, 512) == -180);
        assert(walk_code(None, 913, 1024) == -180);
        assert(symbol_decodes(180));
    } else if s == 181 {
        assert(code_length(181) == 10 && code_value(181) == 572);
        assert(walk_code(Some(420usize), 0, 1) == -181);
        assert(walk_code(Some(312usize), 0, 2) == -181);
        assert(walk_code(Some(198usize), 4, 4) == -181);
        assert(walk_code(Some(120usize), 12, 8) == -181);
        assert(walk_code(Some(68usize), 28, 16) == -181);
        assert(walk_code(Some(36usize), 60, 32) == -181);
        assert(walk_code(Some(18usize), 60, 64) == -181);
        assert(walk_code(Some(8usize), 60, 128) == -181);
        assert(walk_code(Some(2usize), 60, 256) == -181);
        assert(walk_code(None, 572, 512) == -181);
        assert(symbol_decodes(181));
    } else if s == 182 {
        assert(code_length(182) == 11 && code_value(182) == 914);
        assert(walk_code(Some(506usize), 0, 1) == -182);
        assert(walk_code(Some(460usize), 2, 2) == -182);
        assert(walk_code(Some(340usize), 2, 4) == -182);
        assert(walk_code(Some(216usize), 2, 8) == -182);
        assert(walk_code(Some(132usize), 18, 16) == -182);
        assert(walk_code(Some(74usize), 18, 32) == -182);
        assert(walk_code(Some(38usize), 18, 64) == -182);
        assert(walk_code(Some(20usize), 146, 128) == -182);
        assert(walk_code(Some(10usize), 402, 256) == -182);
        assert(walk_code(Some(4usize), 914, 512) == -182);
        assert(walk_code(None, 914, 1024) == -182);
        assert(symbol_decodes(182));
    } else if s == 183 {
        assert(code_length(183) == 11 && code_value(183) == 981);
        assert(walk_code(Some(494usize), 1, 1) == -183);
        assert(walk_code(Some(442usize), 1, 2) == -183);
        assert(walk_code(Some(328usize), 5, 4) == -183);
        assert(walk_code(Some(208usize), 5, 8) == -183);
        assert(walk_code(Some(128usize), 21, 16) == -183);
        assert(walk_code(Some(72usize), 21, 32) == -183);
        assert(walk_code(Some(38usize), 85, 64) == -183);
        assert(walk_code(Some(20usize), 213, 128) == -183);
        assert(walk_code(Some(10usize), 469, 256) == -183);
        assert(walk_code(Some(4usize), 981, 512) == -183);
        assert(walk_code(None, 981, 1024) == -183);
        assert(symbol_decodes(183));
    } else if s == 184 {
        assert(code_length(184) == 10 && code_value(184) == 563);
        assert(walk_code(Some(424usize), 1, 1) == -184);
        assert(walk_code(Some(316usize), 3, 2) == -184);
        assert(walk_code(Some(200usize), 3, 4) == -184);
        assert(walk_code(Some(120usize), 3, 8) == -184);
        assert(walk_code(Some(68usize), 19, 16) == -184);
        assert(walk_code(Some(36usize), 51, 32) == -184);
        assert(walk_code(Some(18usize), 51, 64) == -184);
        assert(walk_code(Some(8usize), 51, 128) == -184);
        assert(walk_code(Some(2usize), 51, 256) == -184);
        assert(walk_code(None, 563, 512) == -184);
        assert(symbol_decodes(184));
    } else if s == 185 {
        assert(code_length(185) == 10 && code_value(185) == 716);
        assert(walk_code(Some(402usize), 0, 1) == -185);
        assert(walk_code(Some(286usize), 0, 2) == -185);
        assert(walk_code(Some(178usize), 4, 4) == -185);
        assert(walk_code(Some(106usize), 12, 8) == -185);
        assert(walk_code(Some(58usize), 12, 16) == -185);
        assert(walk_code(Some(30usize), 12, 32) == -185);
        assert(walk_code(Some(16usize), 76, 64) == -185);
        assert(walk_code(Some(8usize), 204, 128) == -185);
        assert(walk_code(Some(2usize), 204, 256) == -185);
        assert(walk_code(None, 716, 512) == -185);
        assert(symbol_decodes(185));
    } else if s == 186 {
        assert(code_length(186) == 11 && code_value(186) == 912);
        assert(walk_code(Some(508usize), 0, 1) == -186);
        assert(walk_code(Some(460usize), 0, 2) == -186);
        assert(walk_code(Some(340usize), 0, 4) == -186);
        assert(walk_code(Some(216usize), 0, 8) == -186);
        assert(walk_code(Some(132usize), 16, 16) == -186);
        assert(walk_code(Some(74usize), 16, 32) == -186);
        assert(walk_code(Some(38usize), 16, 64) == -186);
        assert(walk_code(Some(20usize), 144, 128) == -186);
        assert(walk_code(Some(10usize), 400, 256) == -186);
        assert(walk_code(Some(4usize), 912, 512) == -186);
        assert(walk_code(None, 912, 1024) == -186);
        assert(symbol_decodes(186));
    } else if s == 187 {
        assert(code_length(187) == 10 && code_value(187) == 443);
        assert(walk_code(Some(464usize), 1, 1) == -187);
        assert(walk_code(Some(344usize), 3, 2) == -187);
        assert(walk_code(Some(220usize), 3, 4) == -187);
        assert(walk_code(Some(134usize), 11, 8) == -187);
        assert(walk_code(Some(76usize), 27, 16) == -187);
        assert(walk_code(Some(40usize), 59, 32) == -187);
        assert(walk_code(Some(20usize), 59, 64) == -187);
        assert(walk_code(Some(10usize), 187, 128) == -187);
        assert(walk_code(Some(4usize), 443, 256) == -187);
        assert(walk_code(None, 443, 512) == -187);
        assert(symbol_decodes(187));
    } else if s == 188 {
        assert(code_length(188) == 11 && code_value(188) == 929);
        assert(walk_code(Some(504usize), 1, 1) == -188);
        assert(walk_code(Some(456usize), 1, 2) == -188);
        assert(walk_code(Some(336usize), 1, 4) == -188);
        assert(walk_code(Some(214usize), 1, 8) == -188);
        assert(walk_code(Some(130usize), 1, 16) == -188);
        assert(walk_code(Some(74usize), 33, 32) == -188);
        assert(walk_code(Some(38usize), 33, 64) == -188);
        assert(walk_code(Some(20usize), 161, 128) == -188);
        assert(walk_code(Some(10usize), 417, 256) == -188);
        assert(walk_code(Some(4usize), 929, 512) == -188);
        assert(walk_code(None, 929, 1024) == -188);
        assert(symbol_decodes(188));
    } else if s == 189 {
        assert(code_length(189) == 11 && code_value(189) == 964);
        assert(walk_code(Some(498usize), 0, 1) == -189);
        assert(walk_code(Some(446usize), 0, 2) == -189);
        assert(walk_code(Some(330usize), 4, 4) == -189);
        assert(walk_code(Some(210usize), 4, 8) == -189);
        assert(walk_code(Some(128usize), 4, 16) == -189);
        assert(walk_code(Some(72usize), 4, 32) == -189);
        assert(walk_code(Some(38usize), 68, 64) == -189);
        assert(walk_code(Some(20usize), 196, 128) == -189);
        assert(walk_code(Some(10usize), 452, 256) == -189);
        assert(walk_code(Some(4usize), 964, 512) == -189);
        assert(walk_code(None, 964, 1024) == -189);
        assert(symbol_decodes(189));
    } else if s == 190 {
        assert(code_length(190) == 10 && code_value(190) == 529);
        assert(walk_code(Some(430usize), 1, 1) == -190);
        assert(walk_code(Some(320usize), 1, 2) == -190);
        assert(walk_code(Some(202usize), 1, 4) == -190);
        assert(walk_code(Some(122usize), 1, 8) == -190);
        assert(walk_code(Some(70usize), 17, 16) == -190);
        assert(walk_code(Some(36usize), 17, 32) == -190);
        assert(walk_code(Some(18usize), 17, 64) == -190);
        assert(walk_code(Some(8usize), 17, 128) == -190);
        assert(walk_code(Some(2usize), 17, 256) == -190);
        assert(walk_code(None, 529, 512) == -190);
        assert(symbol_decodes(190));
    } else if s == 191 {
        assert(code_length(191) == 10 && code_value(191) == 515);
        assert(walk_code(Some(436usize), 1, 1) == -191);
        assert(walk_code(Some(324usize), 3, 2) == -191);
        assert(walk_code(Some(204usize), 3, 4) == -191);
        assert(walk_code(Some(124usize), 3, 8) == -191);
        assert(walk_code(Some(70usize), 3, 16) == -191);
        assert(walk_code(Some(36usize), 3, 32) == -191);
        assert(walk_code(Some(18usize), 3, 64) == -191);
        assert(walk_code(Some(8usize), 3, 128) == -191);
        assert(walk_code(Some(2usize), 3, 256) == -191);
        assert(walk_code(None, 515, 512) == -191);
        assert(symbol_decodes(191));
    }
}

#[verifier::rlimit(30)]
proof fn lemma_symbols_decode_192(s: int)
    requires
        192 <= s < 208,
    ensures
        symbol_decodes(s),
{
    lemma2_to64();
    if s == 192 {
        assert(code_length(192) == 9 && code_value(192) == 298);
        assert(walk_code(Some(302usize), 0, 1) == -192);
        assert(walk_code(Some(192usize), 2, 2) == -192);
        assert(walk_code(Some(116usize), 2, 4) == -192);
        assert(walk_code(Some(66usize), 10, 8) == -192);
        assert(walk_code(Some(34usize), 10, 16) == -192);
        assert(walk_code(Some(18usize), 42, 32) == -192);
        assert(walk_code(Some(8usize), 42, 64) == -192);
        assert(walk_code(Some(2usize), 42, 128) == -192);
        assert(walk_code(None, 298, 256) == -192);
        assert(symbol_decodes(192));
    } else if s == 193 {
        assert(code_length(193) == 10 && code_value(193) == 561);
        assert(walk_code(Some(426usize), 1, 1) == -193);
        assert(walk_code(Some(316usize), 1, 2) == -193);
        assert(walk_code(Some(200usize), 1, 4) == -193);
        assert(walk_code(Some(120usize), 1, 8) == -193);
        assert(walk_code(Some(68usize), 17, 16) == -193);
        assert(walk_code(Some(36usize), 49, 32) == -193);
        assert(walk_code(Some(18usize), 49, 64) == -193);
        assert(walk_code(Some(8usize), 49, 128) == -193);
        assert(walk_code(Some(2usize), 49, 256) == -193);
        assert(walk_code(None, 561, 512) == -193);
        assert(symbol_decodes(193));
    } else if s == 194 {
        assert(code_length(194) == 11 && code_value(194) == 992);
        assert(walk_code(Some(490usize), 0, 1) == -194);
        assert(walk_code(Some(440usize), 0, 2) == -194);
        assert(walk_code(Some(326usize), 0, 4) == -194);
        assert(walk_code(Some(206usize), 0, 8) == -194);
        assert(walk_code(Some(126usize), 0, 16) == -194);
        assert(walk_code(Some(72usize), 32, 32) == -194);
        assert(walk_code(Some(38usize), 96, 64) == -194);
        assert(walk_code(Some(20usize), 224, 128) == -194);
        assert(walk_code(Some(10usize), 480, 256) == -194);
        assert(walk_code(Some(4usize), 992, 512) == -194);
        assert(walk_code(None, 992, 1024) == -194);
        assert(symbol_decodes(194));
    } else if s == 195 {
        assert(code_length(195) == 10 && code_value(195) == 667);
        assert(walk_code(Some(404usize), 1, 1) == -195);
        assert(walk_code(Some(292usize), 3, 2) == -195);
        assert(walk_code(Some(182usize), 3, 4) == -195);
        assert(walk_code(Some(110usize), 11, 8) == -195);
        assert(walk_code(Some(62usize), 27, 16) == -195);
        assert(walk_code(Some(32usize), 27, 32) == -195);
        assert(walk_code(Some(16usize), 27, 64) == -195);
        assert(walk_code(Some(8usize), 155, 128) == -195);
        assert(walk_code(Some(2usize), 155, 256) == -195);
        assert(walk_code(None, 667, 512) == -195);
        assert(symbol_decodes(195));
    } else if s == 196 {
        assert(code_length(196) == 11 && code_value(196) == 983);
        assert(walk_code(Some(492usize), 1, 1) == -196);
        assert(walk_code(Some(442usize), 3, 2) == -196);
        assert(walk_code(Some(328usize), 7, 4) == -196);
        assert(walk_code(Some(208usize), 7, 8) == -196);
        assert(walk_code(Some(128usize), 23, 16) == -196);
        assert(walk_code(Some(72usize), 23, 32) == -196);
        assert(walk_code(Some(38usize), 87, 64) == -196);
        assert(walk_code(Some(20usize), 215, 128) == -196);
        assert(walk_code(Some(10usize), 471, 256) == -196);
        assert(walk_code(Some(4usize), 983, 512) == -196);
        assert(walk_code(None, 983, 1024) == -196);
        assert(symbol_decodes(196));
    } else if s == 197 {
        assert(code_length(197) == 10 && code_value(197) == 514);
        assert(walk_code(Some(436usize), 0, 1) == -197);
        assert(walk_code(Some(324usize), 2, 2) == -197);
        assert(walk_code(Some(204usize), 2, 4) == -197);
        assert(walk_code(Some(124usize), 2, 8) == -197);
        assert(walk_code(Some(70usize), 2, 16) == -197);
        assert(walk_code(Some(36usize), 2, 32) == -197);
        assert(walk_code(Some(18usize), 2, 64) == -197);
        assert(walk_code(Some(8usize), 2, 128) == -197);
        assert(walk_code(Some(2usize), 2, 256) == -197);
        assert(walk_code(None, 514, 512) == -197);
        assert(symbol_decodes(197));
    } else if s == 198 {
        assert(code_length(198) == 11 && code_value(198) == 941);
        assert(walk_code(Some(502usize), 1, 1) == -198);
        assert(walk_code(Some(454usize), 1, 2) == -198);
        assert(walk_code(Some(334usize), 5, 4) == -198);
        assert(walk_code(Some(214usize), 13, 8) == -198);
        assert(walk_code(Some(130usize), 13, 16) == -198);
        assert(walk_code(Some(74usize), 45, 32) == -198);
        assert(walk_code(Some(38usize), 45, 64) == -198);
        assert(walk_code(Some(20usize), 173, 128) == -198);
        assert(walk_code(Some(10usize), 429, 256) == -198);
        assert(walk_code(Some(4usize), 941, 512) == -198);
        assert(walk_code(None, 941, 1024) == -198);
        assert(symbol_decodes(198));
    } else if s == 199 {
        assert(code_length(199) == 10 && code_value(199) == 531);
        assert(walk_code(Some(428usize), 1, 1) == -199);
        assert(walk_code(Some(320usize), 3, 2) == -199);
        assert(walk_code(Some(202usize), 3, 4) == -199);
        assert(walk_code(Some(122usize), 3, 8) == -199);
        assert(walk_code(Some(70usize), 19, 16) == -199);
        assert(walk_code(Some(36usize), 19, 32) == -199);
        assert(walk_code(Some(18usize), 19, 64) == -199);
        assert(walk_code(Some(8usize), 19, 128) == -199);
        assert(walk_code(Some(2usize), 19, 256) == -199);
        assert(walk_code(None, 531, 512) == -199);
        assert(symbol_decodes(199));
    } else if s == 200 {
        assert(code_length(200) == 10 && code_value(200) == 595);
        assert(walk_code(Some(410usize), 1, 1) == -200);
        assert(walk_code(Some(304usize), 3, 2) == -200);
        assert(walk_code(Some(192usize), 3, 4) == -200);
        assert(walk_code(Some(116usize), 3, 8) == -200);
        assert(walk_code(Some(66usize), 19, 16) == -200);
        assert(walk_code(Some(34usize), 19, 32) == -200);
        assert(walk_code(Some(18usize), 83, 64) == -200);
        assert(walk_code(Some(8usize), 83, 128) == -200);
        assert(walk_code(Some(2usize), 83, 256) == -200);
        assert(walk_code(None, 595, 512) == -200);
        assert(symbol_decodes(200));
    } else if s == 201 {
        assert(code_length(201) == 10 && code_value(201) == 812);
        assert(walk_code(Some(390usize), 0, 1) == -201);
        assert(walk_code(Some(266usize), 0, 2) == -201);
        assert(walk_code(Some(164usize), 4, 4) == -201);
        assert(walk_code(Some(98usize), 12, 8) == -201);
        assert(walk_code(Some(52usize), 12, 16) == -201);
        assert(walk_code(Some(28usize), 44, 32) == -201);
        assert(walk_code(Some(14usize), 44, 64) == -201);
        assert(walk_code(Some(6usize), 44, 128) == -201);
        assert(walk_code(Some(2usize), 300, 256) == -201);
        assert(walk_code(None, 812, 512) == -201);
        assert(symbol_decodes(201));
    } else if s == 202 {
        assert(code_length(202) == 10 && code_value(202) == 573);
        assert(walk_code(Some(420usize), 1, 1) == -202);
        assert(walk_code(Some(312usize), 1, 2) == -202);
        assert(walk_code(Some(198usize), 5, 4) == -202);
        assert(walk_code(Some(120usize), 13, 8) == -202);
        assert(walk_code(Some(68usize), 29, 16) == -202);
        assert(walk_code(Some(36usize), 61, 32) == -202);
        assert(walk_code(Some(18usize), 61, 64) == -202);
        assert(walk_code(Some(8usize), 61, 128) == -202);
        assert(walk_code(Some(2usize), 61, 256) == -202);
        assert(walk_code(None, 573, 512) == -202);
        assert(symbol_decodes(202));
    } else if s == 203 {
        assert(code_length(203) == 10 && code_value(203) == 575);
        assert(walk_code(Some(418usize), 1, 1) == -203);
        assert(walk_code(Some(312usize), 3, 2) == -203);
        assert(walk_code(Some(198usize), 7, 4) == -203);
        assert(walk_code(Some(120usize), 15, 8) == -203);
        assert(walk_code(Some(68usize), 31, 16) == -203);
        assert(walk_code(Some(36usize), 63, 32) == -203);
        assert(walk_code(Some(18usize), 63, 64) == -203);
        assert(walk_code(Some(8usize), 63, 128) == -203);
        assert(walk_code(Some(2usize), 63, 256) == -203);
        assert(walk_code(None, 575, 512) == -203);
        assert(symbol_decodes(203));
    } else if s == 204 {
        assert(code_length(204) == 10 && code_value(204) == 815);
        assert(walk_code(Some(388usize), 1, 1) == -204);
        assert(walk_code(Some(266usize), 3, 2) == -204);
        assert(walk_code(Some(164usize), 7, 4) == -204);
        assert(walk_code(Some(98usize), 15, 8) == -204);
        assert(walk_code(Some(52usize), 15, 16) == -204);
        assert(walk_code(Some(28usize), 47, 32) == -204);
        assert(walk_code(Some(14usize), 47, 64) == -204);
        assert(walk_code(Some(6usize), 47, 128) == -204);
        assert(walk_code(Some(2usize), 303, 256) == -204);
        assert(walk_code(None, 815, 512) == -204);
        assert(symbol_decodes(204));
    } else if s == 205 {
        assert(code_length(205) == 10 && code_value(205) == 284);
        assert(walk_code(Some(482usize), 0, 1) == -205);
        assert(walk_code(Some(362usize), 0, 2) == -205);
        assert(walk_code(Some(238usize), 4, 4) == -205);
        assert(walk_code(Some(148usize), 12, 8) == -205);
        assert(walk_code(Some(84usize), 28, 16) == -205);
        assert(walk_code(Some(44usize), 28, 32) == -205);
        assert(walk_code(Some(22usize), 28, 64) == -205);
        assert(walk_code(Some(10usize), 28, 128) == -205);
        assert(walk_code(Some(4usize), 284, 256) == -205);
        assert(walk_code(None, 284, 512) == -205);
        assert(symbol_decodes(205));
    } else if s == 206 {
        assert(code_length(206) == 10 && code_value(206) == 900);
        assert(walk_code(Some(384usize), 0, 1) == -206);
        assert(walk_code(Some(260usize), 0, 2) == -206);
        assert(walk_code(Some(160usize), 4, 4) == -206);
        assert(walk_code(Some(94usize), 4, 8) == -206);
        assert(walk_code(Some(50usize), 4, 16) == -206);
        assert(walk_code(Some(26usize), 4, 32) == -206);
        assert(walk_code(Some(12usize), 4, 64) == -206);
        assert(walk_code(Some(6usize), 132, 128) == -206);
        assert(walk_code(Some(2usize), 388, 256) == -206);
        assert(walk_code(None, 900, 512) == -206);
        assert(symbol_decodes(206));
    } else if s == 207 {
        assert(code_length(207) == 10 && code_value(207) == 796);
        assert(walk_code(Some(392usize), 0, 1) == -207);
        assert(walk_code(Some(272usize), 0, 2) == -207);
        assert(walk_code(Some(168usize), 4, 4) == -207);
        assert(walk_code(Some(100usize), 12, 8) == -207);
        assert(walk_code(Some(54usize), 28, 16) == -207);
        assert(walk_code(Some(28usize), 28, 32) == -207);
        assert(walk_code(Some(14usize), 28, 64) == -207);
        assert(walk_code(Some(6usize), 28, 128) == -207);
        assert(walk_code(Some(2usize), 284, 256) == -207);
        assert(walk_code(None, 796, 512) == -207);
        assert(symbol_decodes(207));
    }
}

#[verifier::rlimit(30)]
proof fn lemma_symbols_decode_208(s: int)
    requires
        208 <= s < 224,
    ensures
        symbol_decodes(s),
{
    lemma2_to64();
    if s == 208 {
        assert(code_length(208) == 10 && code_value(208) == 380);
        assert(walk_code(Some(476usize), 0, 1) == -208);
        assert(walk_code(Some(354usize), 0, 2) == -208);
        assert(walk_code(Some(230usize), 4, 4) == -208);
        assert(walk_code(Some(142usize), 12, 8) == -208);
        assert(walk_code(Some(80usize), 28, 16) == -208);
        assert(walk_code(Some(42usize), 60, 32) == -208);
        assert(walk_code(Some(22usize), 124, 64) == -208);
        assert(walk_code(Some(10usize), 124, 128) == -208);
        assert(walk_code(Some(4usize), 380, 256) == -208);
        assert(walk_code(None, 380, 512) == -208);
        assert(symbol_decodes(208));
    } else if s == 209 {
        assert(code_length(209) == 10 && code_value(209) == 778);
        assert(walk_code(Some(394usize), 0, 1) == -209);
        assert(walk_code(Some(276usize), 2, 2) == -209);
        assert(walk_code(Some(170usize), 2, 4) == -209);
        assert(walk_code(Some(102usize), 10, 8) == -209);
        assert(walk_code(Some(54usize), 10, 16) == -209);
        assert(walk_code(Some(28usize), 10, 32) == -209);
        assert(walk_code(Some(14usize), 10, 64) == -209);
        assert(walk_code(Some(6usize), 10, 128) == -209);
        assert(walk_code(Some(2usize), 266, 256) == -209);
        assert(walk_code(None, 778, 512) == -209);
        assert(symbol_decodes(209));
    } else if s == 210 {
        assert(code_length(210) == 10 && code_value(210) == 736);
        assert(walk_code(Some(400usize), 0, 1) == -210);
        assert(walk_code(Some(284usize), 0, 2) == -210);
        assert(walk_code(Some(176usize), 0, 4) == -210);
        assert(walk_code(Some(104usize), 0, 8) == -210);
        assert(walk_code(Some(56usize), 0, 16) == -210);
        assert(walk_code(Some(30usize), 32, 32) == -210);
        assert(walk_code(Some(16usize), 96, 64) == -210);
        assert(walk_code(Some(8usize), 224, 128) == -210);
        assert(walk_code(Some(2usize), 224, 256) == -210);
        assert(walk_code(None, 736, 512) == -210);
        assert(symbol_decodes(210));
    } else if s == 211 {
        assert(code_length(211) == 10 && code_value(211) == 630);
        assert(walk_code(Some(406usize), 0, 1) == -211);
        assert(walk_code(Some(298usize), 2, 2) == -211);
        assert(walk_code(Some(186usize), 6, 4) == -211);
        assert(walk_code(Some(112usize), 6, 8) == -211);
        assert(walk_code(Some(64usize), 22, 16) == -211);
        assert(walk_code(Some(34usize), 54, 32) == -211);
        assert(walk_code(Some(18usize), 118, 64) == -211);
        assert(walk_code(Some(8usize), 118, 128) == -211);
        assert(walk_code(Some(2usize), 118, 256) == -211);
        assert(walk_code(None, 630, 512) == -211);
        assert(symbol_decodes(211));
    } else if s == 212 {
        assert(code_length(212) == 10 && code_value(212) == 592);
        assert(walk_code(Some(412usize), 0, 1) == -212);
        assert(walk_code(Some(304usize), 0, 2) == -212);
        assert(walk_code(Some(192usize), 0, 4) == -212);
        assert(walk_code(Some(116usize), 0, 8) == -212);
        assert(walk_code(Some(66usize), 16, 16) == -212);
        assert(walk_code(Some(34usize), 16, 32) == -212);
        assert(walk_code(Some(18usize), 80, 64) == -212);
        assert(walk_code(Some(8usize), 80, 128) == -212);
        assert(walk_code(Some(2usize), 80, 256) == -212);
        assert(walk_code(None, 592, 512) == -212);
        assert(symbol_decodes(212));
    } else if s == 213 {
        assert(code_length(213) == 11 && code_value(213) == 995);
        assert(walk_code(Some(488usize), 1, 1) == -213);
        assert(walk_code(Some(440usize), 3, 2) == -213);
        assert(walk_code(Some(326usize), 3, 4) == -213);
        assert(walk_code(Some(206usize), 3, 8) == -213);
        assert(walk_code(Some(126usize), 3, 16) == -213);
        assert(walk_code(Some(72usize), 35, 32) == -213);
        assert(walk_code(Some(38usize), 99, 64) == -213);
        assert(walk_code(Some(20usize), 227, 128) == -213);
        assert(walk_code(Some(10usize), 483, 256) == -213);
        assert(walk_code(Some(4usize), 995, 512) == -213);
        assert(walk_code(None, 995, 1024) == -213);
        assert(symbol_decodes(213));
    } else if s == 214 {
        assert(code_length(214) == 10 && code_value(214) == 918);
        assert(walk_code(Some(382usize), 0, 1) == -214);
        assert(walk_code(Some(258usize), 2, 2) == -214);
        assert(walk_code(Some(158usize), 6, 4) == -214);
        assert(walk_code(Some(92usize), 6, 8) == -214);
        assert(walk_code(Some(50usize), 22, 16) == -214);
        assert(walk_code(Some(26usize), 22, 32) == -214);
        assert(walk_code(Some(12usize), 22, 64) == -214);
        assert(walk_code(Some(6usize), 150, 128) == -214);
        assert(walk_code(Some(2usize), 406, 256) == -214);
        assert(walk_code(None, 918, 512) == -214);
        assert(symbol_decodes(214));
    } else if s == 215 {
        assert(code_length(215) == 10 && code_value(215) == 399);
        assert(walk_code(Some(474usize), 1, 1) == -215);
        assert(walk_code(Some(352usize), 3, 2) == -215);
        assert(walk_code(Some(228usize), 7, 4) == -215);
        assert(walk_code(Some(140usize), 15, 8) == -215);
        assert(walk_code(Some(78usize), 15, 16) == -215);
        assert(walk_code(Some(40usize), 15, 32) == -215);
        assert(walk_code(Some(20usize), 15, 64) == -215);
        assert(walk_code(Some(10usize), 143, 128) == -215);
        assert(walk_code(Some(4usize), 399, 256) == -215);
        assert(walk_code(None, 399, 512) == -215);
        assert(symbol_decodes(215));
    } else if s == 216 {
        assert(code_length(216) == 10 && code_value(216) == 516);
        assert(walk_code(Some(434usize), 0, 1) == -216);
        assert(walk_code(Some(322usize), 0, 2) == -216);
        assert(walk_code(Some(204usize), 4, 4) == -216);
        assert(walk_code(Some(124usize), 4, 8) == -216);
        assert(walk_code(Some(70usize), 4, 16) == -216);
        assert(walk_code(Some(36usize), 4, 32) == -216);
        assert(walk_code(Some(18usize), 4, 64) == -216);
        assert(walk_code(Some(8usize), 4, 128) == -216);
        assert(walk_code(Some(2usize), 4, 256) == -216);
        assert(walk_code(None, 516, 512) == -216);
        assert(symbol_decodes(216));
    } else if s == 217 {
        assert(code_length(217) == 10 && code_value(217) == 518);
        assert(walk_code(Some(432usize), 0, 1) == -217);
        assert(walk_code(Some(322usize), 2, 2) == -217);
        assert(walk_code(Some(204usize), 6, 4) == -217);
        assert(walk_code(Some(124usize), 6, 8) == -217);
        assert(walk_code(Some(70usize), 6, 16) == -217);
        assert(walk_code(Some(36usize), 6, 32) == -217);
        assert(walk_code(Some(18usize), 6, 64) == -217);
        assert(walk_code(Some(8usize), 6, 128) == -217);
        assert(walk_code(Some(2usize), 6, 256) == -217);
        assert(walk_code(None, 518, 512) == -217);
        assert(symbol_decodes(217));
    } else if s == 218 {
        assert(code_length(218) == 10 && code_value(218) == 560);
        assert(walk_code(Some(426usize), 0, 1) == -218);
        assert(walk_code(Some(316usize), 0, 2) == -218);
        assert(walk_code(Some(200usize), 0, 4) == -218);
        assert(walk_code(Some(120usize), 0, 8) == -218);
        assert(walk_code(Some(68usize), 16, 16) == -218);
        assert(walk_code(Some(36usize), 48, 32) == -218);
        assert(walk_code(Some(18usize), 48, 64) == -218);
        assert(walk_code(Some(8usize), 48, 128) == -218);
        assert(walk_code(Some(2usize), 48, 256) == -218);
        assert(walk_code(None, 560, 512) == -218);
        assert(symbol_decodes(218));
    } else if s == 219 {
        assert(code_length(219) == 10 && code_value(219) == 613);
        assert(walk_code(Some(408usize), 1, 1) == -219);
        assert(walk_code(Some(300usize), 1, 2) == -219);
        assert(walk_code(Some(188usize), 5, 4) == -219);
        assert(walk_code(Some(114usize), 5, 8) == -219);
        assert(walk_code(Some(64usize), 5, 16) == -219);
        assert(walk_code(Some(34usize), 37, 32) == -219);
        assert(walk_code(Some(18usize), 101, 64) == -219);
        assert(walk_code(Some(8usize), 101, 128) == -219);
        assert(walk_code(Some(2usize), 101, 256) == -219);
        assert(walk_code(None, 613, 512) == -219);
        assert(symbol_decodes(219));
    } else if s == 220 {
        assert(code_length(220) == 10 && code_value(220) == 530);
        assert(walk_code(Some(428usize), 0, 1) == -220);
        assert(walk_code(Some(320usize), 2, 2) == -220);
        assert(walk_code(Some(202usize), 2, 4) == -220);
        assert(walk_code(Some(122usize), 2, 8) == -220);
        assert(walk_code(Some(70usize), 18, 16) == -220);
        assert(walk_code(Some(36usize), 18, 32) == -220);
        assert(walk_code(Some(18usize), 18, 64) == -220);
        assert(walk_code(Some(8usize), 18, 128) == -220);
        assert(walk_code(Some(2usize), 18, 256) == -220);
        assert(walk_code(None, 530, 512) == -220);
        assert(symbol_decodes(220));
    } else if s == 221 {
        assert(code_length(221) == 10 && code_value(221) == 574);
        assert(walk_code(Some(418usize), 0, 1) == -221);
        assert(walk_code(Some(312usize), 2, 2) == -221);
        assert(walk_code(Some(198usize), 6, 4) == -221);
        assert(walk_code(Some(120usize), 14, 8) == -221);
        assert(walk_code(Some(68usize), 30, 16) == -221);
        assert(walk_code(Some(36usize), 62, 32) == -221);
        assert(walk_code(Some(18usize), 62, 64) == -221);
        assert(walk_code(Some(8usize), 62, 128) == -221);
        assert(walk_code(Some(2usize), 62, 256) == -221);
        assert(walk_code(None, 574, 512) == -221);
        assert(symbol_decodes(221));
    } else if s == 222 {
        assert(code_length(222) == 11 && code_value(222) == 940);
        assert(walk_code(Some(502usize), 0, 1) == -222);
        assert(walk_code(Some(454usize), 0, 2) == -222);
        assert(walk_code(Some(334usize), 4, 4) == -222);
        assert(walk_code(Some(214usize), 12, 8) == -222);
        assert(walk_code(Some(130usize), 12, 16) == -222);
        assert(walk_code(Some(74usize), 44, 32) == -222);
        assert(walk_code(Some(38usize), 44, 64) == -222);
        assert(walk_code(Some(20usize), 172, 128) == -222);
        assert(walk_code(Some(10usize), 428, 256) == -222);
        assert(walk_code(Some(4usize), 940, 512) == -222);
        assert(walk_code(None, 940, 1024) == -222);
        assert(symbol_decodes(222));
    } else if s == 223 {
        assert(code_length(223) == 11 && code_value(223) == 915);
        assert(walk_code(Some(506usize), 1, 1) == -223);
        assert(walk_code(Some(460usize), 3, 2) == -223);
        assert(walk_code(Some(340usize), 3, 4) == -223);
        assert(walk_code(Some(216usize), 3, 8) == -223);
        assert(walk_code(Some(132usize), 19, 16) == -223);
        assert(walk_code(Some(74usize), 19, 32) == -223);
        assert(walk_code(Some(38usize), 19, 64) == -223);
        assert(walk_code(Some(20usize), 147, 128) == -223);
        assert(walk_code(Some(10usize), 403, 256) == -223);
        assert(walk_code(Some(4usize), 915, 512) == -223);
        assert(walk_code(None, 915, 1024) == -223);
        assert(symbol_decodes(223));
    }
}

#[verifier::rlimit(30)]
proof fn lemma_symbols_decode_224(s: int)
    requires
        224 <= s < 240,
    ensures
        symbol_decodes(s),
{
    lemma2_to64();
    if s == 224 {
        assert(code_length(224) == 11 && code_value(224) == 993);
        assert(walk_code(Some(490usize), 1, 1) == -224);
        assert(walk_code(Some(440usize), 1, 2) == -224);
        assert(walk_code(Some(326usize), 1, 4) == -224);
        assert(walk_code(Some(206usize), 1, 8) == -224);
        assert(walk_code(Some(126usize), 1, 16) == -224);
        assert(walk_code(Some(72usize), 33, 32) == -224);
        assert(walk_code(Some(38usize), 97, 64) == -224);
        assert(walk_code(Some(20usize), 225, 128) == -224);
        assert(walk_code(Some(10usize), 481, 256) == -224);
        assert(walk_code(Some(4usize), 993, 512) == -224);
        assert(walk_code(None, 993, 1024) == -224);
        assert(symbol_decodes(224));
    } else if s == 225 {
        assert(code_length(225) == 10 && code_value(225) == 478);
        assert(walk_code(Some(450usize), 0, 1) == -225);
        assert(walk_code(Some(332usize), 2, 2) == -225);
        assert(walk_code(Some(212usize), 6, 4) == -225);
        assert(walk_code(Some(130usize), 14, 8) == -225);
        assert(walk_code(Some(74usize), 30, 16) == -225);
        assert(walk_code(Some(38usize), 30, 32) == -225);
        assert(walk_code(Some(20usize), 94, 64) == -225);
        assert(walk_code(Some(10usize), 222, 128) == -225);
        assert(walk_code(Some(4usize), 478, 256) == -225);
        assert(walk_code(None, 478, 512) == -225);
        assert(symbol_decodes(225));
    } else if s == 226 {
        assert(code_length(226) == 11 && code_value(226) == 982);
        assert(walk_code(Some(492usize), 0, 1) == -226);
        assert(walk_code(Some(442usize), 2, 2) == -226);
        assert(walk_code(Some(328usize), 6, 4) == -226);
        assert(walk_code(Some(208usize), 6, 8) == -226);
        assert(walk_code(Some(128usize), 22, 16) == -226);
        assert(walk_code(Some(72usize), 22, 32) == -226);
        assert(walk_code(Some(38usize), 86, 64) == -226);
        assert(walk_code(Some(20usize), 214, 128) == -226);
        assert(walk_code(Some(10usize), 470, 256) == -226);
        assert(walk_code(Some(4usize), 982, 512) == -226);
        assert(walk_code(None, 982, 1024) == -226);
        assert(symbol_decodes(226));
    } else if s == 227 {
        assert(code_length(227) == 10 && code_value(227) == 797);
        assert(walk_code(Some(392usize), 1, 1) == -227);
        assert(walk_code(Some(272usize), 1, 2) == -227);
        assert(walk_code(Some(168usize), 5, 4) == -227);
        assert(walk_code(Some(100usize), 13, 8) == -227);
        assert(walk_code(Some(54usize), 29, 16) == -227);
        assert(walk_code(Some(28usize), 29, 32) == -227);
        assert(walk_code(Some(14usize), 29, 64) == -227);
        assert(walk_code(Some(6usize), 29, 128) == -227);
        assert(walk_code(Some(2usize), 285, 256) == -227);
        assert(walk_code(None, 797, 512) == -227);
        assert(symbol_decodes(227));
    } else if s == 228 {
        assert(code_length(228) == 11 && code_value(228) == 997);
        assert(walk_code(Some(486usize), 1, 1) == -228);
        assert(walk_code(Some(438usize), 1, 2) == -228);
        assert(walk_code(Some(326usize), 5, 4) == -228);
        assert(walk_code(Some(206usize), 5, 8) == -228);
        assert(walk_code(Some(126usize), 5, 16) == -228);
        assert(walk_code(Some(72usize), 37, 32) == -228);
        assert(walk_code(Some(38usize), 101, 64) == -228);
        assert(walk_code(Some(20usize), 229, 128) == -228);
        assert(walk_code(Some(10usize), 485, 256) == -228);
        assert(walk_code(Some(4usize), 997, 512) == -228);
        assert(walk_code(None, 997, 1024) == -228);
        assert(symbol_decodes(228));
    } else if s == 229 {
        assert(code_length(229) == 11 && code_value(229) == 996);
        assert(walk_code(Some(486usize), 0, 1) == -229);
        assert(walk_code(Some(438usize), 0, 2) == -229);
        assert(walk_code(Some(326usize), 4, 4) == -229);
        assert(walk_code(Some(206usize), 4, 8) == -229);
        assert(walk_code(Some(126usize), 4, 16) == -229);
        assert(walk_code(Some(72usize), 36, 32) == -229);
        assert(walk_code(Some(38usize), 100, 64) == -229);
        assert(walk_code(Some(20usize), 228, 128) == -229);
        assert(walk_code(Some(10usize), 484, 256) == -229);
        assert(walk_code(Some(4usize), 996, 512) == -229);
        assert(walk_code(None, 996, 1024) == -229);
        assert(symbol_decodes(229));
    } else if s == 230 {
        assert(code_length(230) == 10 && code_value(230) == 519);
        assert(walk_code(Some(432usize), 1, 1) == -230);
        assert(walk_code(Some(322usize), 3, 2) == -230);
        assert(walk_code(Some(204usize), 7, 4) == -230);
        assert(walk_code(Some(124usize), 7, 8) == -230);
        assert(walk_code(Some(70usize), 7, 16) == -230);
        assert(walk_code(Some(36usize), 7, 32) == -230);
        assert(walk_code(Some(18usize), 7, 64) == -230);
        assert(walk_code(Some(8usize), 7, 128) == -230);
        assert(walk_code(Some(2usize), 7, 256) == -230);
        assert(walk_code(None, 519, 512) == -230);
        assert(symbol_decodes(230));
    } else if s == 231 {
        assert(code_length(231) == 11 && code_value(231) == 967);
        assert(walk_code(Some(496usize), 1, 1) == -231);
        assert(walk_code(Some(446usize), 3, 2) == -231);
        assert(walk_code(Some(330usize), 7, 4) == -231);
        assert(walk_code(Some(210usize), 7, 8) == -231);
        assert(walk_code(Some(128usize), 7, 16) == -231);
        assert(walk_code(Some(72usize), 7, 32) == -231);
        assert(walk_code(Some(38usize), 71, 64) == -231);
        assert(walk_code(Some(20usize), 199, 128) == -231);
        assert(walk_code(Some(10usize), 455, 256) == -231);
        assert(walk_code(Some(4usize), 967, 512) == -231);
        assert(walk_code(None, 967, 1024) == -231);
        assert(symbol_decodes(231));
    } else if s == 232 {
        assert(code_length(232) == 10 && code_value(232) == 631);
        assert(walk_code(Some(406usize), 1, 1) == -232);
        assert(walk_code(Some(298usize), 3, 2) == -232);
        assert(walk_code(Some(186usize), 7, 4) == -232);
        assert(walk_code(Some(112usize), 7, 8) == -232);
        assert(walk_code(Some(64usize), 23, 16) == -232);
        assert(walk_code(Some(34usize), 55, 32) == -232);
        assert(walk_code(Some(18usize), 119, 64) == -232);
        assert(walk_code(Some(8usize), 119, 128) == -232);
        assert(walk_code(Some(2usize), 119, 256) == -232);
        assert(walk_code(None, 631, 512) == -232);
        assert(symbol_decodes(232));
    } else if s == 233 {
        assert(code_length(233) == 11 && code_value(233) == 980);
        assert(walk_code(Some(494usize), 0, 1) == -233);
        assert(walk_code(Some(442usize), 0, 2) == -233);
        assert(walk_code(Some(328usize), 4, 4) == -233);
        assert(walk_code(Some(208usize), 4, 8) == -233);
        assert(walk_code(Some(128usize), 20, 16) == -233);
        assert(walk_code(Some(72usize), 20, 32) == -233);
        assert(walk_code(Some(38usize), 84, 64) == -233);
        assert(walk_code(Some(20usize), 212, 128) == -233);
        assert(walk_code(Some(10usize), 468, 256) == -233);
        assert(walk_code(Some(4usize), 980, 512) == -233);
        assert(walk_code(None, 980, 1024) == -233);
        assert(symbol_decodes(233));
    } else if s == 234 {
        assert(code_length(234) == 8 && code_value(234) == 192);
        assert(walk_code(Some(172usize), 0, 1) == -234);
        assert(walk_code(Some(102usize), 0, 2) == -234);
        assert(walk_code(Some(54usize), 0, 4) == -234);
        assert(walk_code(Some(28usize), 0, 8) == -234);
        assert(walk_code(Some(14usize), 0, 16) == -234);
        assert(walk_code(Some(6usize), 0, 32) == -234);
        assert(walk_code(Some(2usize), 64, 64) == -234);
        assert(walk_code(None, 192, 128) == -234);
        assert(symbol_decodes(234));
    } else if s == 235 {
        assert(code_length(235) == 10 && code_value(235) == 354);
        assert(walk_code(Some(478usize), 0, 1) == -235);
        assert(walk_code(Some(356usize), 2, 2) == -235);
        assert(walk_code(Some(234usize), 2, 4) == -235);
        assert(walk_code(Some(144usize), 2, 8) == -235);
        assert(walk_code(Some(80usize), 2, 16) == -235);
        assert(walk_code(Some(42usize), 34, 32) == -235);
        assert(walk_code(Some(22usize), 98, 64) == -235);
        assert(walk_code(Some(10usize), 98, 128) == -235);
        assert(walk_code(Some(4usize), 354, 256) == -235);
        assert(walk_code(None, 354, 512) == -235);
        assert(symbol_decodes(235));
    } else if s == 236 {
        assert(code_length(236) == 10 && code_value(236) == 986);
        assert(walk_code(Some(378usize), 0, 1) == -236);
        assert(walk_code(Some(248usize), 2, 2) == -236);
        assert(walk_code(Some(152usize), 2, 4) == -236);
        assert(walk_code(Some(86usize), 10, 8) == -236);
        assert(walk_code(Some(46usize), 26, 16) == -236);
        assert(walk_code(Some(24usize), 26, 32) == -236);
        assert(walk_code(Some(12usize), 90, 64) == -236);
        assert(walk_code(Some(6usize), 218, 128) == -236);
        assert(walk_code(Some(2usize), 474, 256) == -236);
        assert(walk_code(None, 986, 512) == -236);
        assert(symbol_decodes(236));
    } else if s == 237 {
        assert(code_length(237) == 10 && code_value(237) == 292);
        assert(walk_code(Some(480usize), 0, 1) == -237);
        assert(walk_code(Some(358usize), 0, 2) == -237);
        assert(walk_code(Some(236usize), 4, 4) == -237);
        assert(walk_code(Some(146usize), 4, 8) == -237);
        assert(walk_code(Some(82usize), 4, 16) == -237);
        assert(walk_code(Some(44usize), 36, 32) == -237);
        assert(walk_code(Some(22usize), 36, 64) == -237);
        assert(walk_code(Some(10usize), 36, 128) == -237);
        assert(walk_code(Some(4usize), 292, 256) == -237);
        assert(walk_code(None, 292, 512) == -237);
        assert(symbol_decodes(237));
    } else if s == 238 {
        assert(code_length(238) == 10 && code_value(238) == 436);
        assert(walk_code(Some(468usize), 0, 1) == -238);
        assert(walk_code(Some(346usize), 0, 2) == -238);
        assert(walk_code(Some(222usize), 4, 4) == -238);
        assert(walk_code(Some(134usize), 4, 8) == -238);
        assert(walk_code(Some(76usize), 20, 16) == -238);
        assert(walk_code(Some(40usize), 52, 32) == -238);
        assert(walk_code(Some(20usize), 52, 64) == -238);
        assert(walk_code(Some(10usize), 180, 128) == -238);
        assert(walk_code(Some(4usize), 436, 256) == -238);
        assert(walk_code(None, 436, 512) == -238);
        assert(symbol_decodes(238));
    } else if s == 239 {
        assert(code_length(239) == 10 && code_value(239) == 612);
        assert(walk_code(Some(408usize), 0, 1) == -239);
        assert(walk_code(Some(300usize), 0, 2) == -239);
        assert(walk_code(Some(188usize), 4, 4) == -239);
        assert(walk_code(Some(114usize), 4, 8) == -239);
        assert(walk_code(Some(64usize), 4, 16) == -239);
        assert(walk_code(Some(34usize), 36, 32) == -239);
        assert(walk_code(Some(18usize), 100, 64) == -239);
        assert(walk_code(Some(8usize), 100, 128) == -239);
        assert(walk_code(Some(2usize), 100, 256) == -239);
        assert(walk_code(None, 612, 512) == -239);
        assert(symbol_decodes(239));
    }
}

#[verifier::rlimit(30)]
proof fn lemma_symbols_decode_240(s: int)
    requires
        240 <= s < 256,
    ensures
        symbol_decodes(s),
{
    lemma2_to64();
    if s == 240 {
        assert(code_length(240) == 10 && code_value(240) == 829);
        assert(walk_code(Some(386usize), 1, 1) == -240);
        assert(walk_code(Some(262usize), 1, 2) == -240);
        assert(walk_code(Some(162usize), 5, 4) == -240);
        assert(walk_code(Some(96usize), 13, 8) == -240);
        assert(walk_code(Some(52usize), 29, 16) == -240);
        assert(walk_code(Some(28usize), 61, 32) == -240);
        assert(walk_code(Some(14usize), 61, 64) == -240);
        assert(walk_code(Some(6usize), 61, 128) == -240);
        assert(walk_code(Some(2usize), 317, 256) == -240);
        assert(walk_code(None, 829, 512) == -240);
        assert(symbol_decodes(240));
    } else if s == 241 {
        assert(code_length(241) == 10 && code_value(241) == 465);
        assert(walk_code(Some(456usize), 1, 1) == -241);
        assert(walk_code(Some(336usize), 1, 2) == -241);
        assert(walk_code(Some(214usize), 1, 4) == -241);
        assert(walk_code(Some(130usize), 1, 8) == -241);
        assert(walk_code(Some(74usize), 17, 16) == -241);
        assert(walk_code(Some(38usize), 17, 32) == -241);
        assert(walk_code(Some(20usize), 81, 64) == -241);
        assert(walk_code(Some(10usize), 209, 128) == -241);
        assert(walk_code(Some(4usize), 465, 256) == -241);
        assert(walk_code(None, 465, 512) == -241);
        assert(symbol_decodes(241));
    } else if s == 242 {
        assert(code_length(242) == 10 && code_value(242) == 431);
        assert(walk_code(Some(470usize), 1, 1) == -242);
        assert(walk_code(Some(348usize), 3, 2) == -242);
        assert(walk_code(Some(224usize), 7, 4) == -242);
        assert(walk_code(Some(136usize), 15, 8) == -242);
        assert(walk_code(Some(76usize), 15, 16) == -242);
        assert(walk_code(Some(40usize), 47, 32) == -242);
        assert(walk_code(Some(20usize), 47, 64) == -242);
        assert(walk_code(Some(10usize), 175, 128) == -242);
        assert(walk_code(Some(4usize), 431, 256) == -242);
        assert(walk_code(None, 431, 512) == -242);
        assert(symbol_decodes(242));
    } else if s == 243 {
        assert(code_length(243) == 10 && code_value(243) == 926);
        assert(walk_code(Some(380usize), 0, 1) == -243);
        assert(walk_code(Some(254usize), 2, 2) == -243);
        assert(walk_code(Some(156usize), 6, 4) == -243);
        assert(walk_code(Some(92usize), 14, 8) == -243);
        assert(walk_code(Some(50usize), 30, 16) == -243);
        assert(walk_code(Some(26usize), 30, 32) == -243);
        assert(walk_code(Some(12usize), 30, 64) == -243);
        assert(walk_code(Some(6usize), 158, 128) == -243);
        assert(walk_code(Some(2usize), 414, 256) == -243);
        assert(walk_code(None, 926, 512) == -243);
        assert(symbol_decodes(243));
    } else if s == 244 {
        assert(code_length(244) == 10 && code_value(244) == 591);
        assert(walk_code(Some(414usize), 1, 1) == -244);
        assert(walk_code(Some(306usize), 3, 2) == -244);
        assert(walk_code(Some(194usize), 7, 4) == -244);
        assert(walk_code(Some(118usize), 15, 8) == -244);
        assert(walk_code(Some(66usize), 15, 16) == -244);
        assert(walk_code(Some(34usize), 15, 32) == -244);
        assert(walk_code(Some(18usize), 79, 64) == -244);
        assert(walk_code(Some(8usize), 79, 128) == -244);
        assert(walk_code(Some(2usize), 79, 256) == -244);
        assert(walk_code(None, 591, 512) == -244);
        assert(symbol_decodes(244));
    } else if s == 245 {
        assert(code_length(245) == 11 && code_value(245) == 883);
        assert(walk_code(Some(510usize), 1, 1) == -245);
        assert(walk_code(Some(466usize), 3, 2) == -245);
        assert(walk_code(Some(344usize), 3, 4) == -245);
        assert(walk_code(Some(220usize), 3, 8) == -245);
        assert(walk_code(Some(134usize), 19, 16) == -245);
        assert(walk_code(Some(76usize), 51, 32) == -245);
        assert(walk_code(Some(40usize), 115, 64) == -245);
        assert(walk_code(Some(20usize), 115, 128) == -245);
        assert(walk_code(Some(10usize), 371, 256) == -245);
        assert(walk_code(Some(4usize), 883, 512) == -245);
        assert(walk_code(None, 883, 1024) == -245);
        assert(symbol_decodes(245));
    } else if s == 246 {
        assert(code_length(246) == 10 && code_value(246) == 585);
        assert(walk_code(Some(416usize), 1, 1) == -246);
        assert(walk_code(Some(308usize), 1, 2) == -246);
        assert(walk_code(Some(194usize), 1, 4) == -246);
        assert(walk_code(Some(118usize), 9, 8) == -246);
        assert(walk_code(Some(66usize), 9, 16) == -246);
        assert(walk_code(Some(34usize), 9, 32) == -246);
        assert(walk_code(Some(18usize), 73, 64) == -246);
        assert(walk_code(Some(8usize), 73, 128) == -246);
        assert(walk_code(Some(2usize), 73, 256) == -246);
        assert(walk_code(None, 585, 512) == -246);
        assert(symbol_decodes(246));
    } else if s == 247 {
        assert(code_length(247) == 11 && code_value(247) == 882);
        assert(walk_code(Some(510usize), 0, 1) == -247);
        assert(walk_code(Some(466usize), 2, 2) == -247);
        assert(walk_code(Some(344usize), 2, 4) == -247);
        assert(walk_code(Some(220usize), 2, 8) == -247);
        assert(walk_code(Some(134usize), 18, 16) == -247);
        assert(walk_code(Some(76usize), 50, 32) == -247);
        assert(walk_code(Some(40usize), 114, 64) == -247);
        assert(walk_code(Some(20usize), 114, 128) == -247);
        assert(walk_code(Some(10usize), 370, 256) == -247);
        assert(walk_code(Some(4usize), 882, 512) == -247);
        assert(walk_code(None, 882, 1024) == -247);
        assert(symbol_decodes(247));
    } else if s == 248 {
        assert(code_length(248) == 9 && code_value(248) == 359);
        assert(walk_code(Some(286usize), 1, 1) == -248);
        assert(walk_code(Some(178usize), 3, 2) == -248);
        assert(walk_code(Some(106usize), 7, 4) == -248);
        assert(walk_code(Some(58usize), 7, 8) == -248);
        assert(walk_code(Some(30usize), 7, 16) == -248);
        assert(walk_code(Some(16usize), 39, 32) == -248);
        assert(walk_code(Some(8usize), 103, 64) == -248);
        assert(walk_code(Some(2usize), 103, 128) == -248);
        assert(walk_code(None, 359, 256) == -248);
        assert(symbol_decodes(248));
    } else if s == 249 {
        assert(code_length(249) == 10 && code_value(249) == 528);
        assert(walk_code(Some(430usize), 0, 1) == -249);
        assert(walk_code(Some(320usize), 0, 2) == -249);
        assert(walk_code(Some(202usize), 0, 4) == -249);
        assert(walk_code(Some(122usize), 0, 8) == -249);
        assert(walk_code(Some(70usize), 16, 16) == -249);
        assert(walk_code(Some(36usize), 16, 32) == -249);
        assert(walk_code(Some(18usize), 16, 64) == -249);
        assert(walk_code(Some(8usize), 16, 128) == -249);
        assert(walk_code(Some(2usize), 16, 256) == -249);
        assert(walk_code(None, 528, 512) == -249);
        assert(symbol_decodes(249));
    } else if s == 250 {
        assert(code_length(250) == 10 && code_value(250) == 570);
        assert(walk_code(Some(422usize), 0, 1) == -250);
        assert(walk_code(Some(314usize), 2, 2) == -250);
        assert(walk_code(Some(198usize), 2, 4) == -250);
        assert(walk_code(Some(120usize), 10, 8) == -250);
        assert(walk_code(Some(68usize), 26, 16) == -250);
        assert(walk_code(Some(36usize), 58, 32) == -250);
        assert(walk_code(Some(18usize), 58, 64) == -250);
        assert(walk_code(Some(8usize), 58, 128) == -250);
        assert(walk_code(Some(2usize), 58, 256) == -250);
        assert(walk_code(None, 570, 512) == -250);
        assert(symbol_decodes(250));
    } else if s == 251 {
        assert(code_length(251) == 10 && code_value(251) == 440);
        assert(walk_code(Some(466usize), 0, 1) == -251);
        assert(walk_code(Some(344usize), 0, 2) == -251);
        assert(walk_code(Some(220usize), 0, 4) == -251);
        assert(walk_code(Some(134usize), 8, 8) == -251);
        assert(walk_code(Some(76usize), 24, 16) == -251);
        assert(walk_code(Some(40usize), 56, 32) == -251);
        assert(walk_code(Some(20usize), 56, 64) == -251);
        assert(walk_code(Some(10usize), 184, 128) == -251);
        assert(walk_code(Some(4usize), 440, 256) == -251);
        assert(walk_code(None, 440, 512) == -251);
        assert(symbol_decodes(251));
    } else if s == 252 {
        assert(code_length(252) == 11 && code_value(252) == 943);
        assert(walk_code(Some(500usize), 1, 1) == -252);
        assert(walk_code(Some(454usize), 3, 2) == -252);
        assert(walk_code(Some(334usize), 7, 4) == -252);
        assert(walk_code(Some(214usize), 15, 8) == -252);
        assert(walk_code(Some(130usize), 15, 16) == -252);
        assert(walk_code(Some(74usize), 47, 32) == -252);
        assert(walk_code(Some(38usize), 47, 64) == -252);
        assert(walk_code(Some(20usize), 175, 128) == -252);
        assert(walk_code(Some(10usize), 431, 256) == -252);
        assert(walk_code(Some(4usize), 943, 512) == -252);
        assert(walk_code(None, 943, 1024) == -252);
        assert(symbol_decodes(252));
    } else if s == 253 {
        assert(code_length(253) == 10 && code_value(253) == 398);
        assert(walk_code(Some(474usize), 0, 1) == -253);
        assert(walk_code(Some(352usize), 2, 2) == -253);
        assert(walk_code(Some(228usize), 6, 4) == -253);
        assert(walk_code(Some(140usize), 14, 8) == -253);
        assert(walk_code(Some(78usize), 14, 16) == -253);
        assert(walk_code(Some(40usize), 14, 32) == -253);
        assert(walk_code(Some(20usize), 14, 64) == -253);
        assert(walk_code(Some(10usize), 142, 128) == -253);
        assert(walk_code(Some(4usize), 398, 256) == -253);
        assert(walk_code(None, 398, 512) == -253);
        assert(symbol_decodes(253));
    } else if s == 254 {
        assert(code_length(254) == 10 && code_value(254) == 748);
        assert(walk_code(Some(396usize), 0, 1) == -254);
        assert(walk_code(Some(278usize), 0, 2) == -254);
        assert(walk_code(Some(174usize), 4, 4) == -254);
        assert(walk_code(Some(104usize), 12, 8) == -254);
        assert(walk_code(Some(56usize), 12, 16) == -254);
        assert(walk_code(Some(30usize), 44, 32) == -254);
        assert(walk_code(Some(16usize), 108, 64) == -254);
        assert(walk_code(Some(8usize), 236, 128) == -254);
        assert(walk_code(Some(2usize), 236, 256) == -254);
        assert(walk_code(None, 748, 512) == -254);
        assert(symbol_decodes(254));
    } else if s == 255 {
        assert(code_length(255) == 7 && code_value(255) == 98);
        assert(walk_code(Some(100usize), 0, 1) == -255);
        assert(walk_code(Some(54usize), 2, 2) == -255);
        assert(walk_code(Some(28usize), 2, 4) == -255);
        assert(walk_code(Some(14usize), 2, 8) == -255);
        assert(walk_code(Some(6usize), 2, 16) == -255);
        assert(walk_code(Some(2usize), 34, 32) == -255);
        assert(walk_code(None, 98, 64) == -255);
        assert(symbol_decodes(255));
    }
}

#[verifier::rlimit(30)]
proof fn lemma_symbols_decode_256(s: int)
    requires
        256 <= s < 257,
    ensures
        symbol_decodes(s),
{
    lemma2_to64();
    if s == 256 {
        assert(code_length(256) == 4 && code_value(256) == 13);
        assert(walk_code(Some(14usize), 1, 1) == -256);
        assert(walk_code(Some(6usize), 1, 2) == -256);
        assert(walk_code(Some(2usize), 5, 4) == -256);
        assert(walk_code(None, 13, 8) == -256);
        assert(symbol_decodes(256));
    }
}

/// Every symbol's code fits its length and decodes back to the symbol.
pub proof fn lemma_symbol_decodes(s: int)
    requires
        0 <= s < 257,
    ensures
        symbol_decodes(s),
{
    if s < 16 {
        lemma_symbols_decode_0(s);
    } else if s < 32 {
        lemma_symbols_decode_16(s);
    } else if s < 48 {
        lemma_symbols_decode_32(s);
    } else if s < 64 {
        lemma_symbols_decode_48(s);
    } else if s < 80 {
        lemma_symbols_decode_64(s);
    } else if s < 96 {
        lemma_symbols_decode_80(s);
    } else if s < 112 {
        lemma_symbols_decode_96(s);
    } else if s < 128 {
        lemma_symbols_decode_112(s);
    } else if s < 144 {
        lemma_symbols_decode_128(s);
    } else if s < 160 {
        lemma_symbols_decode_144(s);
    } else if s < 176 {
        lemma_symbols_decode_160(s);
    } else if s < 192 {
        lemma_symbols_decode_176(s);
    } else if s < 208 {
        lemma_symbols_decode_192(s);
    } else if s < 224 {
        lemma_symbols_decode_208(s);
    } else if s < 240 {
        lemma_symbols_decode_224(s);
    } else if s < 256 {
        lemma_symbols_decode_240(s);
    } else if s < 257 {
        lemma_symbols_decode_256(s);
    }
}

proof fn lemma_decode_table_bound_0(s: int)
    requires
        0 <= s < 64,
    ensures
        HUFFMAN_DECODE@[s] <= 255,
{
    if s == 0 {
        assert(HUFFMAN_DECODE@[0] <= 255);
    } else if s == 1 {
        assert(HUFFMAN_DECODE@[1] <= 255);
    } else if s == 2 {
        assert(HUFFMAN_DECODE@[2] <= 255);
    } else if s == 3 {
        assert(HUFFMAN_DECODE@[3] <= 255);
    } else if s == 4 {
        assert(HUFFMAN_DECODE@[4] <= 255);
    } else if s == 5 {
        assert(HUFFMAN_DECODE@[5] <= 255);
    } else if s == 6 {
        assert(HUFFMAN_DECODE@[6] <= 255);
    } else if s == 7 {
        assert(HUFFMAN_DECODE@[7] <= 255);
    } else if s == 8 {
        assert(HUFFMAN_DECODE@[8] <= 255);
    } else if s == 9 {
        assert(HUFFMAN_DECODE@[9] <= 255);
    } else if s == 10 {
        assert(HUFFMAN_DECODE@[10] <= 255);
    } else if s == 11 {
        assert(HUFFMAN_DECODE@[11] <= 255);
    } else if s == 12 {
        assert(HUFFMAN_DECODE@[12] <= 255);
    } else if s == 13 {
        assert(HUFFMAN_DECODE@[13] <= 255);
    } else if s == 14 {
        assert(HUFFMAN_DECODE@[14] <= 255);
    } else if s == 15 {
        assert(HUFFMAN_DECODE@[15] <= 255);
    } else if s == 16 {
        assert(HUFFMAN_DECODE@[16] <= 255);
    } else if s == 17 {
        assert(HUFFMAN_DECODE@[17] <= 255);
    } else if s == 18 {
        assert(HUFFMAN_DECODE@[18] <= 255);
    } else if s == 19 {
        assert(HUFFMAN_DECODE@[19] <= 255);
    } else if s == 20 {
        assert(HUFFMAN_DECODE@[20] <= 255);
    } else if s == 21 {
        assert(HUFFMAN_DECODE@[21] <= 255);
    } else if s == 22 {
        assert(HUFFMAN_DECODE@[22] <= 255);
    } else if s == 23 {
        assert(HUFFMAN_DECODE@[23] <= 255);
    } else if s == 24 {
        assert(HUFFMAN_DECODE@[24] <= 255);
    } else if s == 25 {
        assert(HUFFMAN_DECODE@[25] <= 255);
    } else if s == 26 {
        assert(HUFFMAN_DECODE@[26] <= 255);
    } else if s == 27 {
        assert(HUFFMAN_DECODE@[27] <= 255);
    } else if s == 28 {
        assert(HUFFMAN_DECODE@[28] <= 255);
    } else if s == 29 {
        assert(HUFFMAN_DECODE@[29] <= 255);
    } else if s == 30 {
        assert(HUFFMAN_DECODE@[30] <= 255);
    } else if s == 31 {
        assert(HUFFMAN_DECODE@[31] <= 255);
    } else if s == 32 {
        assert(HUFFMAN_DECODE@[32] <= 255);
    } else if s == 33 {
        assert(HUFFMAN_DECODE@[33] <= 255);
    } else if s == 34 {
        assert(HUFFMAN_DECODE@[34] <= 255);
    } else if s == 35 {
        assert(HUFFMAN_DECODE@[35] <= 255);
    } else if s == 36 {
        assert(HUFFMAN_DECODE@[36] <= 255);
    } else if s == 37 {
        assert(HUFFMAN_DECODE@[37] <= 255);
    } else if s == 38 {
        assert(HUFFMAN_DECODE@[38] <= 255);
    } else if s == 39 {
        assert(HUFFMAN_DECODE@[39] <= 255);
    } else if s == 40 {
        assert(HUFFMAN_DECODE@[40] <= 255);
    } else if s == 41 {
        assert(HUFFMAN_DECODE@[41] <= 255);
    } else if s == 42 {
        assert(HUFFMAN_DECODE@[42] <= 255);
    } else if s == 43 {
        assert(HUFFMAN_DECODE@[43] <= 255);
    } else if s == 44 {
        assert(HUFFMAN_DECODE@[44] <= 255);
    } else if s == 45 {
        assert(HUFFMAN_DECODE@[45] <= 255);
    } else if s == 46 {
        assert(HUFFMAN_DECODE@[46] <= 255);
    } else if s == 47 {
        assert(HUFFMAN_DECODE@[47] <= 255);
    } else if s == 48 {
        assert(HUFFMAN_DECODE@[48] <= 255);
    } else if s == 49 {
        assert(HUFFMAN_DECODE@[49] <= 255);
    } else if s == 50 {
        assert(HUFFMAN_DECODE@[50] <= 255);
    } else if s == 51 {
        assert(HUFFMAN_DECODE@[51] <= 255);
    } else if s == 52 {
        assert(HUFFMAN_DECODE@[52] <= 255);
    } else if s == 53 {
        assert(HUFFMAN_DECODE@[53] <= 255);
    } else if s == 54 {
        assert(HUFFMAN_DECODE@[54] <= 255);
    } else if s == 55 {
        assert(HUFFMAN_DECODE@[55] <= 255);
    } else if s == 56 {
        assert(HUFFMAN_DECODE@[56] <= 255);
    } else if s == 57 {
        assert(HUFFMAN_DECODE@[57] <= 255);
    } else if s == 58 {
        assert(HUFFMAN_DECODE@[58] <= 255);
    } else if s == 59 {
        assert(HUFFMAN_DECODE@[59] <= 255);
    } else if s == 60 {
        assert(HUFFMAN_DECODE@[60] <= 255);
    } else if s == 61 {
        assert(HUFFMAN_DECODE@[61] <= 255);
    } else if s == 62 {
        assert(HUFFMAN_DECODE@[62] <= 255);
    } else if s == 63 {
        assert(HUFFMAN_DECODE@[63] <= 255);
    }
}

proof fn lemma_decode_table_bound_64(s: int)
    requires
        64 <= s < 128,
    ensures
        HUFFMAN_DECODE@[s] <= 255,
{
    if s == 64 {
        assert(HUFFMAN_DECODE@[64] <= 255);
    } else if s == 65 {
        assert(HUFFMAN_DECODE@[65] <= 255);
    } else if s == 66 {
        assert(HUFFMAN_DECODE@[66] <= 255);
    } else if s == 67 {
        assert(HUFFMAN_DECODE@[67] <= 255);
    } else if s == 68 {
        assert(HUFFMAN_DECODE@[68] <= 255);
    } else if s == 69 {
        assert(HUFFMAN_DECODE@[69] <= 255);
    } else if s == 70 {
        assert(HUFFMAN_DECODE@[70] <= 255);
    } else if s == 71 {
        assert(HUFFMAN_DECODE@[71] <= 255);
    } else if s == 72 {
        assert(HUFFMAN_DECODE@[72] <= 255);
    } else if s == 73 {
        assert(HUFFMAN_DECODE@[73] <= 255);
    } else if s == 74 {
        assert(HUFFMAN_DECODE@[74] <= 255);
    } else if s == 75 {
        assert(HUFFMAN_DECODE@[75] <= 255);
    } else if s == 76 {
        assert(HUFFMAN_DECODE@[76] <= 255);
    } else if s == 77 {
        assert(HUFFMAN_DECODE@[77] <= 255);
    } else if s == 78 {
        assert(HUFFMAN_DECODE@[78] <= 255);
    } else if s == 79 {
        assert(HUFFMAN_DECODE@[79] <= 255);
    } else if s == 80 {
        assert(HUFFMAN_DECODE@[80] <= 255);
    } else if s == 81 {
        assert(HUFFMAN_DECODE@[81] <= 255);
    } else if s == 82 {
        assert(HUFFMAN_DECODE@[82] <= 255);
    } else if s == 83 {
        assert(HUFFMAN_DECODE@[83] <= 255);
    } else if s == 84 {
        assert(HUFFMAN_DECODE@[84] <= 255);
    } else if s == 85 {
        assert(HUFFMAN_DECODE@[85] <= 255);
    } else if s == 86 {
        assert(HUFFMAN_DECODE@[86] <= 255);
    } else if s == 87 {
        assert(HUFFMAN_DECODE@[87] <= 255);
    } else if s == 88 {
        assert(HUFFMAN_DECODE@[88] <= 255);
    } else if s == 89 {
        assert(HUFFMAN_DECODE@[89] <= 255);
    } else if s == 90 {
        assert(HUFFMAN_DECODE@[90] <= 255);
    } else if s == 91 {
        assert(HUFFMAN_DECODE@[91] <= 255);
    } else if s == 92 {
        assert(HUFFMAN_DECODE@[92] <= 255);
    } else if s == 93 {
        assert(HUFFMAN_DECODE@[93] <= 255);
    } else if s == 94 {
        assert(HUFFMAN_DECODE@[94] <= 255);
    } else if s == 95 {
        assert(HUFFMAN_DECODE@[95] <= 255);
    } else if s == 96 {
        assert(HUFFMAN_DECODE@[96] <= 255);
    } else if s == 97 {
        assert(HUFFMAN_DECODE@[97] <= 255);
    } else if s == 98 {
        assert(HUFFMAN_DECODE@[98] <= 255);
    } else if s == 99 {
        assert(HUFFMAN_DECODE@[99] <= 255);
    } else if s == 100 {
        assert(HUFFMAN_DECODE@[100] <= 255);
    } else if s == 101 {
        assert(HUFFMAN_DECODE@[101] <= 255);
    } else if s == 102 {
        assert(HUFFMAN_DECODE@[102] <= 255);
    } else if s == 103 {
        assert(HUFFMAN_DECODE@[103] <= 255);
    } else if s == 104 {
        assert(HUFFMAN_DECODE@[104] <= 255);
    } else if s == 105 {
        assert(HUFFMAN_DECODE@[105] <= 255);
    } else if s == 106 {
        assert(HUFFMAN_DECODE@[106] <= 255);
    } else if s == 107 {
        assert(HUFFMAN_DECODE@[107] <= 255);
    } else if s == 108 {
        assert(HUFFMAN_DECODE@[108] <= 255);
    } else if s == 109 {
        assert(HUFFMAN_DECODE@[109] <= 255);
    } else if s == 110 {
        assert(HUFFMAN_DECODE@[110] <= 255);
    } else if s == 111 {
        assert(HUFFMAN_DECODE@[111] <= 255);
    } else if s == 112 {
        assert(HUFFMAN_DECODE@[112] <= 255);
    } else if s == 113 {
        assert(HUFFMAN_DECODE@[113] <= 255);
    } else if s == 114 {
        assert(HUFFMAN_DECODE@[114] <= 255);
    } else if s == 115 {
        assert(HUFFMAN_DECODE@[115] <= 255);
    } else if s == 116 {
        assert(HUFFMAN_DECODE@[116] <= 255);
    } else if s == 117 {
        assert(HUFFMAN_DECODE@[117] <= 255);
    } else if s == 118 {
        assert(HUFFMAN_DECODE@[118] <= 255);
    } else if s == 119 {
        assert(HUFFMAN_DECODE@[119] <= 255);
    } else if s == 120 {
        assert(HUFFMAN_DECODE@[120] <= 255);
    } else if s == 121 {
        assert(HUFFMAN_DECODE@[121] <= 255);
    } else if s == 122 {
        assert(HUFFMAN_DECODE@[122] <= 255);
    } else if s == 123 {
        assert(HUFFMAN_DECODE@[123] <= 255);
    } else if s == 124 {
        assert(HUFFMAN_DECODE@[124] <= 255);
    } else if s == 125 {
        assert(HUFFMAN_DECODE@[125] <= 255);
    } else if s == 126 {
        assert(HUFFMAN_DECODE@[126] <= 255);
    } else if s == 127 {
        assert(HUFFMAN_DECODE@[127] <= 255);
    }
}

proof fn lemma_decode_table_bound_128(s: int)
    requires
        128 <= s < 192,
    ensures
        HUFFMAN_DECODE@[s] <= 255,
{
    if s == 128 {
        assert(HUFFMAN_DECODE@[128] <= 255);
    } else if s == 129 {
        assert(HUFFMAN_DECODE@[129] <= 255);
    } else if s == 130 {
        assert(HUFFMAN_DECODE@[130] <= 255);
    } else if s == 131 {
        assert(HUFFMAN_DECODE@[131] <= 255);
    } else if s == 132 {
        assert(HUFFMAN_DECODE@[132] <= 255);
    } else if s == 133 {
        assert(HUFFMAN_DECODE@[133] <= 255);
    } else if s == 134 {
        assert(HUFFMAN_DECODE@[134] <= 255);
    } else if s == 135 {
        assert(HUFFMAN_DECODE@[135] <= 255);
    } else if s == 136 {
        assert(HUFFMAN_DECODE@[136] <= 255);
    } else if s == 137 {
        assert(HUFFMAN_DECODE@[137] <= 255);
    } else if s == 138 {
        assert(HUFFMAN_DECODE@[138] <= 255);
    } else if s == 139 {
        assert(HUFFMAN_DECODE@[139] <= 255);
    } else if s == 140 {
        assert(HUFFMAN_DECODE@[140] <= 255);
    } else if s == 141 {
        assert(HUFFMAN_DECODE@[141] <= 255);
    } else if s == 142 {
        assert(HUFFMAN_DECODE@[142] <= 255);
    } else if s == 143 {
        assert(HUFFMAN_DECODE@[143] <= 255);
    } else if s == 144 {
        assert(HUFFMAN_DECODE@[144] <= 255);
    } else if s == 145 {
        assert(HUFFMAN_DECODE@[145] <= 255);
    } else if s == 146 {
        assert(HUFFMAN_DECODE@[146] <= 255);
    } else if s == 147 {
        assert(HUFFMAN_DECODE@[147] <= 255);
    } else if s == 148 {
        assert(HUFFMAN_DECODE@[148] <= 255);
    } else if s == 149 {
        assert(HUFFMAN_DECODE@[149] <= 255);
    } else if s == 150 {
        assert(HUFFMAN_DECODE@[150] <= 255);
    } else if s == 151 {
        assert(HUFFMAN_DECODE@[151] <= 255);
    } else if s == 152 {
        assert(HUFFMAN_DECODE@[152] <= 255);
    } else if s == 153 {
        assert(HUFFMAN_DECODE@[153] <= 255);
    } else if s == 154 {
        assert(HUFFMAN_DECODE@[154] <= 255);
    } else if s == 155 {
        assert(HUFFMAN_DECODE@[155] <= 255);
    } else if s == 156 {
        assert(HUFFMAN_DECODE@[156] <= 255);
    } else if s == 157 {
        assert(HUFFMAN_DECODE@[157] <= 255);
    } else if s == 158 {
        assert(HUFFMAN_DECODE@[158] <= 255);
    } else if s == 159 {
        assert(HUFFMAN_DECODE@[159] <= 255);
    } else if s == 160 {
        assert(HUFFMAN_DECODE@[160] <= 255);
    } else if s == 161 {
        assert(HUFFMAN_DECODE@[161] <= 255);
    } else if s == 162 {
        assert(HUFFMAN_DECODE@[162] <= 255);
    } else if s == 163 {
        assert(HUFFMAN_DECODE@[163] <= 255);
    } else if s == 164 {
        assert(HUFFMAN_DECODE@[164] <= 255);
    } else if s == 165 {
        assert(HUFFMAN_DECODE@[165] <= 255);
    } else if s == 166 {
        assert(HUFFMAN_DECODE@[166] <= 255);
    } else if s == 167 {
        assert(HUFFMAN_DECODE@[167] <= 255);
    } else if s == 168 {
        assert(HUFFMAN_DECODE@[168] <= 255);
    } else if s == 169 {
        assert(HUFFMAN_DECODE@[169] <= 255);
    } else if s == 170 {
        assert(HUFFMAN_DECODE@[170] <= 255);
    } else if s == 171 {
        assert(HUFFMAN_DECODE@[171] <= 255);
    } else if s == 172 {
        assert(HUFFMAN_DECODE@[172] <= 255);
    } else if s == 173 {
        assert(HUFFMAN_DECODE@[173] <= 255);
    } else if s == 174 {
        assert(HUFFMAN_DECODE@[174] <= 255);
    } else if s == 175 {
        assert(HUFFMAN_DECODE@[175] <= 255);
    } else if s == 176 {
        assert(HUFFMAN_DECODE@[176] <= 255);
    } else if s == 177 {
        assert(HUFFMAN_DECODE@[177] <= 255);
    } else if s == 178 {
        assert(HUFFMAN_DECODE@[178] <= 255);
    } else if s == 179 {
        assert(HUFFMAN_DECODE@[179] <= 255);
    } else if s == 180 {
        assert(HUFFMAN_DECODE@[180] <= 255);
    } else if s == 181 {
        assert(HUFFMAN_DECODE@[181] <= 255);
    } else if s == 182 {
        assert(HUFFMAN_DECODE@[182] <= 255);
    } else if s == 183 {
        assert(HUFFMAN_DECODE@[183] <= 255);
    } else if s == 184 {
        assert(HUFFMAN_DECODE@[184] <= 255);
    } else if s == 185 {
        assert(HUFFMAN_DECODE@[185] <= 255);
    } else if s == 186 {
        assert(HUFFMAN_DECODE@[186] <= 255);
    } else if s == 187 {
        assert(HUFFMAN_DECODE@[187] <= 255);
    } else if s == 188 {
        assert(HUFFMAN_DECODE@[188] <= 255);
    } else if s == 189 {
        assert(HUFFMAN_DECODE@[189] <= 255);
    } else if s == 190 {
        assert(HUFFMAN_DECODE@[190] <= 255);
    } else if s == 191 {
        assert(HUFFMAN_DECODE@[191] <= 255);
    }
}

proof fn lemma_decode_table_bound_192(s: int)
    requires
        192 <= s < 256,
    ensures
        HUFFMAN_DECODE@[s] <= 255,
{
    if s == 192 {
        assert(HUFFMAN_DECODE@[192] <= 255);
    } else if s == 193 {
        assert(HUFFMAN_DECODE@[193] <= 255);
    } else if s == 194 {
        assert(HUFFMAN_DECODE@[194] <= 255);
    } else if s == 195 {
        assert(HUFFMAN_DECODE@[195] <= 255);
    } else if s == 196 {
        assert(HUFFMAN_DECODE@[196] <= 255);
    } else if s == 197 {
        assert(HUFFMAN_DECODE@[197] <= 255);
    } else if s == 198 {
        assert(HUFFMAN_DECODE@[198] <= 255);
    } else if s == 199 {
        assert(HUFFMAN_DECODE@[199] <= 255);
    } else if s == 200 {
        assert(HUFFMAN_DECODE@[200] <= 255);
    } else if s == 201 {
        assert(HUFFMAN_DECODE@[201] <= 255);
    } else if s == 202 {
        assert(HUFFMAN_DECODE@[202] <= 255);
    } else if s == 203 {
        assert(HUFFMAN_DECODE@[203] <= 255);
    } else if s == 204 {
        assert(HUFFMAN_DECODE@[204] <= 255);
    } else if s == 205 {
        assert(HUFFMAN_DECODE@[205] <= 255);
    } else if s == 206 {
        assert(HUFFMAN_DECODE@[206] <= 255);
    } else if s == 207 {
        assert(HUFFMAN_DECODE@[207] <= 255);
    } else if s == 208 {
        assert(HUFFMAN_DECODE@[208] <= 255);
    } else if s == 209 {
        assert(HUFFMAN_DECODE@[209] <= 255);
    } else if s == 210 {
        assert(HUFFMAN_DECODE@[210] <= 255);
    } else if s == 211 {
        assert(HUFFMAN_DECODE@[211] <= 255);
    } else if s == 212 {
        assert(HUFFMAN_DECODE@[212] <= 255);
    } else if s == 213 {
        assert(HUFFMAN_DECODE@[213] <= 255);
    } else if s == 214 {
        assert(HUFFMAN_DECODE@[214] <= 255);
    } else if s == 215 {
        assert(HUFFMAN_DECODE@[215] <= 255);
    } else if s == 216 {
        assert(HUFFMAN_DECODE@[216] <= 255);
    } else if s == 217 {
        assert(HUFFMAN_DECODE@[217] <= 255);
    } else if s == 218 {
        assert(HUFFMAN_DECODE@[218] <= 255);
    } else if s == 219 {
        assert(HUFFMAN_DECODE@[219] <= 255);
    } else if s == 220 {
        assert(HUFFMAN_DECODE@[220] <= 255);
    } else if s == 221 {
        assert(HUFFMAN_DECODE@[221] <= 255);
    } else if s == 222 {
        assert(HUFFMAN_DECODE@[222] <= 255);
    } else if s == 223 {
        assert(HUFFMAN_DECODE@[223] <= 255);
    } else if s == 224 {
        assert(HUFFMAN_DECODE@[224] <= 255);
    } else if s == 225 {
        assert(HUFFMAN_DECODE@[225] <= 255);
    } else if s == 226 {
        assert(HUFFMAN_DECODE@[226] <= 255);
    } else if s == 227 {
        assert(HUFFMAN_DECODE@[227] <= 255);
    } else if s == 228 {
        assert(HUFFMAN_DECODE@[228] <= 255);
    } else if s == 229 {
        assert(HUFFMAN_DECODE@[229] <= 255);
    } else if s == 230 {
        assert(HUFFMAN_DECODE@[230] <= 255);
    } else if s == 231 {
        assert(HUFFMAN_DECODE@[231] <= 255);
    } else if s == 232 {
        assert(HUFFMAN_DECODE@[232] <= 255);
    } else if s == 233 {
        assert(HUFFMAN_DECODE@[233] <= 255);
    } else if s == 234 {
        assert(HUFFMAN_DECODE@[234] <= 255);
    } else if s == 235 {
        assert(HUFFMAN_DECODE@[235] <= 255);
    } else if s == 236 {
        assert(HUFFMAN_DECODE@[236] <= 255);
    } else if s == 237 {
        assert(HUFFMAN_DECODE@[237] <= 255);
    } else if s == 238 {
        assert(HUFFMAN_DECODE@[238] <= 255);
    } else if s == 239 {
        assert(HUFFMAN_DECODE@[239] <= 255);
    } else if s == 240 {
        assert(HUFFMAN_DECODE@[240] <= 255);
    } else if s == 241 {
        assert(HUFFMAN_DECODE@[241] <= 255);
    } else if s == 242 {
        assert(HUFFMAN_DECODE@[242] <= 255);
    } else if s == 243 {
        assert(HUFFMAN_DECODE@[243] <= 255);
    } else if s == 244 {
        assert(HUFFMAN_DECODE@[244] <= 255);
    } else if s == 245 {
        assert(HUFFMAN_DECODE@[245] <= 255);
    } else if s == 246 {
        assert(HUFFMAN_DECODE@[246] <= 255);
    } else if s == 247 {
        assert(HUFFMAN_DECODE@[247] <= 255);
    } else if s == 248 {
        assert(HUFFMAN_DECODE@[248] <= 255);
    } else if s == 249 {
        assert(HUFFMAN_DECODE@[249] <= 255);
    } else if s == 250 {
        assert(HUFFMAN_DECODE@[250] <= 255);
    } else if s == 251 {
        assert(HUFFMAN_DECODE@[251] <= 255);
    } else if s == 252 {
        assert(HUFFMAN_DECODE@[252] <= 255);
    } else if s == 253 {
        assert(HUFFMAN_DECODE@[253] <= 255);
    } else if s == 254 {
        assert(HUFFMAN_DECODE@[254] <= 255);
    } else if s == 255 {
        assert(HUFFMAN_DECODE@[255] <= 255);
    }
}

proof fn lemma_decode_table_bound_256(s: int)
    requires
        256 <= s < 320,
    ensures
        HUFFMAN_DECODE@[s] <= 255,
{
    if s == 256 {
        assert(HUFFMAN_DECODE@[256] <= 255);
    } else if s == 257 {
        assert(HUFFMAN_DECODE@[257] <= 255);
    } else if s == 258 {
        assert(HUFFMAN_DECODE@[258] <= 255);
    } else if s == 259 {
        assert(HUFFMAN_DECODE@[259] <= 255);
    } else if s == 260 {
        assert(HUFFMAN_DECODE@[260] <= 255);
    } else if s == 261 {
        assert(HUFFMAN_DECODE@[261] <= 255);
    } else if s == 262 {
        assert(HUFFMAN_DECODE@[262] <= 255);
    } else if s == 263 {
        assert(HUFFMAN_DECODE@[263] <= 255);
    } else if s == 264 {
        assert(HUFFMAN_DECODE@[264] <= 255);
    } else if s == 265 {
        assert(HUFFMAN_DECODE@[265] <= 255);
    } else if s == 266 {
        assert(HUFFMAN_DECODE@[266] <= 255);
    } else if s == 267 {
        assert(HUFFMAN_DECODE@[267] <= 255);
    } else if s == 268 {
        assert(HUFFMAN_DECODE@[268] <= 255);
    } else if s == 269 {
        assert(HUFFMAN_DECODE@[269] <= 255);
    } else if s == 270 {
        assert(HUFFMAN_DECODE@[270] <= 255);
    } else if s == 271 {
        assert(HUFFMAN_DECODE@[271] <= 255);
    } else if s == 272 {
        assert(HUFFMAN_DECODE@[272] <= 255);
    } else if s == 273 {
        assert(HUFFMAN_DECODE@[273] <= 255);
    } else if s == 274 {
        assert(HUFFMAN_DECODE@[274] <= 255);
    } else if s == 275 {
        assert(HUFFMAN_DECODE@[275] <= 255);
    } else if s == 276 {
        assert(HUFFMAN_DECODE@[276] <= 255);
    } else if s == 277 {
        assert(HUFFMAN_DECODE@[277] <= 255);
    } else if s == 278 {
        assert(HUFFMAN_DECODE@[278] <= 255);
    } else if s == 279 {
        assert(HUFFMAN_DECODE@[279] <= 255);
    } else if s == 280 {
        assert(HUFFMAN_DECODE@[280] <= 255);
    } else if s == 281 {
        assert(HUFFMAN_DECODE@[281] <= 255);
    } else if s == 282 {
        assert(HUFFMAN_DECODE@[282] <= 255);
    } else if s == 283 {
        assert(HUFFMAN_DECODE@[283] <= 255);
    } else if s == 284 {
        assert(HUFFMAN_DECODE@[284] <= 255);
    } else if s == 285 {
        assert(HUFFMAN_DECODE@[285] <= 255);
    } else if s == 286 {
        assert(HUFFMAN_DECODE@[286] <= 255);
    } else if s == 287 {
        assert(HUFFMAN_DECODE@[287] <= 255);
    } else if s == 288 {
        assert(HUFFMAN_DECODE@[288] <= 255);
    } else if s == 289 {
        assert(HUFFMAN_DECODE@[289] <= 255);
    } else if s == 290 {
        assert(HUFFMAN_DECODE@[290] <= 255);
    } else if s == 291 {
        assert(HUFFMAN_DECODE@[291] <= 255);
    } else if s == 292 {
        assert(HUFFMAN_DECODE@[292] <= 255);
    } else if s == 293 {
        assert(HUFFMAN_DECODE@[293] <= 255);
    } else if s == 294 {
        assert(HUFFMAN_DECODE@[294] <= 255);
    } else if s == 295 {
        assert(HUFFMAN_DECODE@[295] <= 255);
    } else if s == 296 {
        assert(HUFFMAN_DECODE@[296] <= 255);
    } else if s == 297 {
        assert(HUFFMAN_DECODE@[297] <= 255);
    } else if s == 298 {
        assert(HUFFMAN_DECODE@[298] <= 255);
    } else if s == 299 {
        assert(HUFFMAN_DECODE@[299] <= 255);
    } else if s == 300 {
        assert(HUFFMAN_DECODE@[300] <= 255);
    } else if s == 301 {
        assert(HUFFMAN_DECODE@[301] <= 255);
    } else if s == 302 {
        assert(HUFFMAN_DECODE@[302] <= 255);
    } else if s == 303 {
        assert(HUFFMAN_DECODE@[303] <= 255);
    } else if s == 304 {
        assert(HUFFMAN_DECODE@[304] <= 255);
    } else if s == 305 {
        assert(HUFFMAN_DECODE@[305] <= 255);
    } else if s == 306 {
        assert(HUFFMAN_DECODE@[306] <= 255);
    } else if s == 307 {
        assert(HUFFMAN_DECODE@[307] <= 255);
    } else if s == 308 {
        assert(HUFFMAN_DECODE@[308] <= 255);
    } else if s == 309 {
        assert(HUFFMAN_DECODE@[309] <= 255);
    } else if s == 310 {
        assert(HUFFMAN_DECODE@[310] <= 255);
    } else if s == 311 {
        assert(HUFFMAN_DECODE@[311] <= 255);
    } else if s == 312 {
        assert(HUFFMAN_DECODE@[312] <= 255);
    } else if s == 313 {
        assert(HUFFMAN_DECODE@[313] <= 255);
    } else if s == 314 {
        assert(HUFFMAN_DECODE@[314] <= 255);
    } else if s == 315 {
        assert(HUFFMAN_DECODE@[315] <= 255);
    } else if s == 316 {
        assert(HUFFMAN_DECODE@[316] <= 255);
    } else if s == 317 {
        assert(HUFFMAN_DECODE@[317] <= 255);
    } else if s == 318 {
        assert(HUFFMAN_DECODE@[318] <= 255);
    } else if s == 319 {
        assert(HUFFMAN_DECODE@[319] <= 255);
    }
}

proof fn lemma_decode_table_bound_320(s: int)
    requires
        320 <= s < 384,
    ensures
        HUFFMAN_DECODE@[s] <= 255,
{
    if s == 320 {
        assert(HUFFMAN_DECODE@[320] <= 255);
    } else if s == 321 {
        assert(HUFFMAN_DECODE@[321] <= 255);
    } else if s == 322 {
        assert(HUFFMAN_DECODE@[322] <= 255);
    } else if s == 323 {
        assert(HUFFMAN_DECODE@[323] <= 255);
    } else if s == 324 {
        assert(HUFFMAN_DECODE@[324] <= 255);
    } else if s == 325 {
        assert(HUFFMAN_DECODE@[325] <= 255);
    } else if s == 326 {
        assert(HUFFMAN_DECODE@[326] <= 255);
    } else if s == 327 {
        assert(HUFFMAN_DECODE@[327] <= 255);
    } else if s == 328 {
        assert(HUFFMAN_DECODE@[328] <= 255);
    } else if s == 329 {
        assert(HUFFMAN_DECODE@[329] <= 255);
    } else if s == 330 {
        assert(HUFFMAN_DECODE@[330] <= 255);
    } else if s == 331 {
        assert(HUFFMAN_DECODE@[331] <= 255);
    } else if s == 332 {
        assert(HUFFMAN_DECODE@[332] <= 255);
    } else if s == 333 {
        assert(HUFFMAN_DECODE@[333] <= 255);
    } else if s == 334 {
        assert(HUFFMAN_DECODE@[334] <= 255);
    } else if s == 335 {
        assert(HUFFMAN_DECODE@[335] <= 255);
    } else if s == 336 {
        assert(HUFFMAN_DECODE@[336] <= 255);
    } else if s == 337 {
        assert(HUFFMAN_DECODE@[337] <= 255);
    } else if s == 338 {
        assert(HUFFMAN_DECODE@[338] <= 255);
    } else if s == 339 {
        assert(HUFFMAN_DECODE@[339] <= 255);
    } else if s == 340 {
        assert(HUFFMAN_DECODE@[340] <= 255);
    } else if s == 341 {
        assert(HUFFMAN_DECODE@[341] <= 255);
    } else if s == 342 {
        assert(HUFFMAN_DECODE@[342] <= 255);
    } else if s == 343 {
        assert(HUFFMAN_DECODE@[343] <= 255);
    } else if s == 344 {
        assert(HUFFMAN_DECODE@[344] <= 255);
    } else if s == 345 {
        assert(HUFFMAN_DECODE@[345] <= 255);
    } else if s == 346 {
        assert(HUFFMAN_DECODE@[346] <= 255);
    } else if s == 347 {
        assert(HUFFMAN_DECODE@[347] <= 255);
    } else if s == 348 {
        assert(HUFFMAN_DECODE@[348] <= 255);
    } else if s == 349 {
        assert(HUFFMAN_DECODE@[349] <= 255);
    } else if s == 350 {
        assert(HUFFMAN_DECODE@[350] <= 255);
    } else if s == 351 {
        assert(HUFFMAN_DECODE@[351] <= 255);
    } else if s == 352 {
        assert(HUFFMAN_DECODE@[352] <= 255);
    } else if s == 353 {
        assert(HUFFMAN_DECODE@[353] <= 255);
    } else if s == 354 {
        assert(HUFFMAN_DECODE@[354] <= 255);
    } else if s == 355 {
        assert(HUFFMAN_DECODE@[355] <= 255);
    } else if s == 356 {
        assert(HUFFMAN_DECODE@[356] <= 255);
    } else if s == 357 {
        assert(HUFFMAN_DECODE@[357] <= 255);
    } else if s == 358 {
        assert(HUFFMAN_DECODE@[358] <= 255);
    } else if s == 359 {
        assert(HUFFMAN_DECODE@[359] <= 255);
    } else if s == 360 {
        assert(HUFFMAN_DECODE@[360] <= 255);
    } else if s == 361 {
        assert(HUFFMAN_DECODE@[361] <= 255);
    } else if s == 362 {
        assert(HUFFMAN_DECODE@[362] <= 255);
    } else if s == 363 {
        assert(HUFFMAN_DECODE@[363] <= 255);
    } else if s == 364 {
        assert(HUFFMAN_DECODE@[364] <= 255);
    } else if s == 365 {
        assert(HUFFMAN_DECODE@[365] <= 255);
    } else if s == 366 {
        assert(HUFFMAN_DECODE@[366] <= 255);
    } else if s == 367 {
        assert(HUFFMAN_DECODE@[367] <= 255);
    } else if s == 368 {
        assert(HUFFMAN_DECODE@[368] <= 255);
    } else if s == 369 {
        assert(HUFFMAN_DECODE@[369] <= 255);
    } else if s == 370 {
        assert(HUFFMAN_DECODE@[370] <= 255);
    } else if s == 371 {
        assert(HUFFMAN_DECODE@[371] <= 255);
    } else if s == 372 {
        assert(HUFFMAN_DECODE@[372] <= 255);
    } else if s == 373 {
        assert(HUFFMAN_DECODE@[373] <= 255);
    } else if s == 374 {
        assert(HUFFMAN_DECODE@[374] <= 255);
    } else if s == 375 {
        assert(HUFFMAN_DECODE@[375] <= 255);
    } else if s == 376 {
        assert(HUFFMAN_DECODE@[376] <= 255);
    } else if s == 377 {
        assert(HUFFMAN_DECODE@[377] <= 255);
    } else if s == 378 {
        assert(HUFFMAN_DECODE@[378] <= 255);
    } else if s == 379 {
        assert(HUFFMAN_DECODE@[379] <= 255);
    } else if s == 380 {
        assert(HUFFMAN_DECODE@[380] <= 255);
    } else if s == 381 {
        assert(HUFFMAN_DECODE@[381] <= 255);
    } else if s == 382 {
        assert(HUFFMAN_DECODE@[382] <= 255);
    } else if s == 383 {
        assert(HUFFMAN_DECODE@[383] <= 255);
    }
}

proof fn lemma_decode_table_bound_384(s: int)
    requires
        384 <= s < 448,
    ensures
        HUFFMAN_DECODE@[s] <= 255,
{
    if s == 384 {
        assert(HUFFMAN_DECODE@[384] <= 255);
    } else if s == 385 {
        assert(HUFFMAN_DECODE@[385] <= 255);
    } else if s == 386 {
        assert(HUFFMAN_DECODE@[386] <= 255);
    } else if s == 387 {
        assert(HUFFMAN_DECODE@[387] <= 255);
    } else if s == 388 {
        assert(HUFFMAN_DECODE@[388] <= 255);
    } else if s == 389 {
        assert(HUFFMAN_DECODE@[389] <= 255);
    } else if s == 390 {
        assert(HUFFMAN_DECODE@[390] <= 255);
    } else if s == 391 {
        assert(HUFFMAN_DECODE@[391] <= 255);
    } else if s == 392 {
        assert(HUFFMAN_DECODE@[392] <= 255);
    } else if s == 393 {
        assert(HUFFMAN_DECODE@[393] <= 255);
    } else if s == 394 {
        assert(HUFFMAN_DECODE@[394] <= 255);
    } else if s == 395 {
        assert(HUFFMAN_DECODE@[395] <= 255);
    } else if s == 396 {
        assert(HUFFMAN_DECODE@[396] <= 255);
    } else if s == 397 {
        assert(HUFFMAN_DECODE@[397] <= 255);
    } else if s == 398 {
        assert(HUFFMAN_DECODE@[398] <= 255);
    } else if s == 399 {
        assert(HUFFMAN_DECODE@[399] <= 255);
    } else if s == 400 {
        assert(HUFFMAN_DECODE@[400] <= 255);
    } else if s == 401 {
        assert(HUFFMAN_DECODE@[401] <= 255);
    } else if s == 402 {
        assert(HUFFMAN_DECODE@[402] <= 255);
    } else if s == 403 {
        assert(HUFFMAN_DECODE@[403] <= 255);
    } else if s == 404 {
        assert(HUFFMAN_DECODE@[404] <= 255);
    } else if s == 405 {
        assert(HUFFMAN_DECODE@[405] <= 255);
    } else if s == 406 {
        assert(HUFFMAN_DECODE@[406] <= 255);
    } else if s == 407 {
        assert(HUFFMAN_DECODE@[407] <= 255);
    } else if s == 408 {
        assert(HUFFMAN_DECODE@[408] <= 255);
    } else if s == 409 {
        assert(HUFFMAN_DECODE@[409] <= 255);
    } else if s == 410 {
        assert(HUFFMAN_DECODE@[410] <= 255);
    } else if s == 411 {
        assert(HUFFMAN_DECODE@[411] <= 255);
    } else if s == 412 {
        assert(HUFFMAN_DECODE@[412] <= 255);
    } else if s == 413 {
        assert(HUFFMAN_DECODE@[413] <= 255);
    } else if s == 414 {
        assert(HUFFMAN_DECODE@[414] <= 255);
    } else if s == 415 {
        assert(HUFFMAN_DECODE@[415] <= 255);
    } else if s == 416 {
        assert(HUFFMAN_DECODE@[416] <= 255);
    } else if s == 417 {
        assert(HUFFMAN_DECODE@[417] <= 255);
    } else if s == 418 {
        assert(HUFFMAN_DECODE@[418] <= 255);
    } else if s == 419 {
        assert(HUFFMAN_DECODE@[419] <= 255);
    } else if s == 420 {
        assert(HUFFMAN_DECODE@[420] <= 255);
    } else if s == 421 {
        assert(HUFFMAN_DECODE@[421] <= 255);
    } else if s == 422 {
        assert(HUFFMAN_DECODE@[422] <= 255);
    } else if s == 423 {
        assert(HUFFMAN_DECODE@[423] <= 255);
    } else if s == 424 {
        assert(HUFFMAN_DECODE@[424] <= 255);
    } else if s == 425 {
        assert(HUFFMAN_DECODE@[425] <= 255);
    } else if s == 426 {
        assert(HUFFMAN_DECODE@[426] <= 255);
    } else if s == 427 {
        assert(HUFFMAN_DECODE@[427] <= 255);
    } else if s == 428 {
        assert(HUFFMAN_DECODE@[428] <= 255);
    } else if s == 429 {
        assert(HUFFMAN_DECODE@[429] <= 255);
    } else if s == 430 {
        assert(HUFFMAN_DECODE@[430] <= 255);
    } else if s == 431 {
        assert(HUFFMAN_DECODE@[431] <= 255);
    } else if s == 432 {
        assert(HUFFMAN_DECODE@[432] <= 255);
    } else if s == 433 {
        assert(HUFFMAN_DECODE@[433] <= 255);
    } else if s == 434 {
        assert(HUFFMAN_DECODE@[434] <= 255);
    } else if s == 435 {
        assert(HUFFMAN_DECODE@[435] <= 255);
    } else if s == 436 {
        assert(HUFFMAN_DECODE@[436] <= 255);
    } else if s == 437 {
        assert(HUFFMAN_DECODE@[437] <= 255);
    } else if s == 438 {
        assert(HUFFMAN_DECODE@[438] <= 255);
    } else if s == 439 {
        assert(HUFFMAN_DECODE@[439] <= 255);
    } else if s == 440 {
        assert(HUFFMAN_DECODE@[440] <= 255);
    } else if s == 441 {
        assert(HUFFMAN_DECODE@[441] <= 255);
    } else if s == 442 {
        assert(HUFFMAN_DECODE@[442] <= 255);
    } else if s == 443 {
        assert(HUFFMAN_DECODE@[443] <= 255);
    } else if s == 444 {
        assert(HUFFMAN_DECODE@[444] <= 255);
    } else if s == 445 {
        assert(HUFFMAN_DECODE@[445] <= 255);
    } else if s == 446 {
        assert(HUFFMAN_DECODE@[446] <= 255);
    } else if s == 447 {
        assert(HUFFMAN_DECODE@[447] <= 255);
    }
}

proof fn lemma_decode_table_bound_448(s: int)
    requires
        448 <= s < 512,
    ensures
        HUFFMAN_DECODE@[s] <= 255,
{
    if s == 448 {
        assert(HUFFMAN_DECODE@[448] <= 255);
    } else if s == 449 {
        assert(HUFFMAN_DECODE@[449] <= 255);
    } else if s == 450 {
        assert(HUFFMAN_DECODE@[450] <= 255);
    } else if s == 451 {
        assert(HUFFMAN_DECODE@[451] <= 255);
    } else if s == 452 {
        assert(HUFFMAN_DECODE@[452] <= 255);
    } else if s == 453 {
        assert(HUFFMAN_DECODE@[453] <= 255);
    } else if s == 454 {
        assert(HUFFMAN_DECODE@[454] <= 255);
    } else if s == 455 {
        assert(HUFFMAN_DECODE@[455] <= 255);
    } else if s == 456 {
        assert(HUFFMAN_DECODE@[456] <= 255);
    } else if s == 457 {
        assert(HUFFMAN_DECODE@[457] <= 255);
    } else if s == 458 {
        assert(HUFFMAN_DECODE@[458] <= 255);
    } else if s == 459 {
        assert(HUFFMAN_DECODE@[459] <= 255);
    } else if s == 460 {
        assert(HUFFMAN_DECODE@[460] <= 255);
    } else if s == 461 {
        assert(HUFFMAN_DECODE@[461] <= 255);
    } else if s == 462 {
        assert(HUFFMAN_DECODE@[462] <= 255);
    } else if s == 463 {
        assert(HUFFMAN_DECODE@[463] <= 255);
    } else if s == 464 {
        assert(HUFFMAN_DECODE@[464] <= 255);
    } else if s == 465 {
        assert(HUFFMAN_DECODE@[465] <= 255);
    } else if s == 466 {
        assert(HUFFMAN_DECODE@[466] <= 255);
    } else if s == 467 {
        assert(HUFFMAN_DECODE@[467] <= 255);
    } else if s == 468 {
        assert(HUFFMAN_DECODE@[468] <= 255);
    } else if s == 469 {
        assert(HUFFMAN_DECODE@[469] <= 255);
    } else if s == 470 {
        assert(HUFFMAN_DECODE@[470] <= 255);
    } else if s == 471 {
        assert(HUFFMAN_DECODE@[471] <= 255);
    } else if s == 472 {
        assert(HUFFMAN_DECODE@[472] <= 255);
    } else if s == 473 {
        assert(HUFFMAN_DECODE@[473] <= 255);
    } else if s == 474 {
        assert(HUFFMAN_DECODE@[474] <= 255);
    } else if s == 475 {
        assert(HUFFMAN_DECODE@[475] <= 255);
    } else if s == 476 {
        assert(HUFFMAN_DECODE@[476] <= 255);
    } else if s == 477 {
        assert(HUFFMAN_DECODE@[477] <= 255);
    } else if s == 478 {
        assert(HUFFMAN_DECODE@[478] <= 255);
    } else if s == 479 {
        assert(HUFFMAN_DECODE@[479] <= 255);
    } else if s == 480 {
        assert(HUFFMAN_DECODE@[480] <= 255);
    } else if s == 481 {
        assert(HUFFMAN_DECODE@[481] <= 255);
    } else if s == 482 {
        assert(HUFFMAN_DECODE@[482] <= 255);
    } else if s == 483 {
        assert(HUFFMAN_DECODE@[483] <= 255);
    } else if s == 484 {
        assert(HUFFMAN_DECODE@[484] <= 255);
    } else if s == 485 {
        assert(HUFFMAN_DECODE@[485] <= 255);
    } else if s == 486 {
        assert(HUFFMAN_DECODE@[486] <= 255);
    } else if s == 487 {
        assert(HUFFMAN_DECODE@[487] <= 255);
    } else if s == 488 {
        assert(HUFFMAN_DECODE@[488] <= 255);
    } else if s == 489 {
        assert(HUFFMAN_DECODE@[489] <= 255);
    } else if s == 490 {
        assert(HUFFMAN_DECODE@[490] <= 255);
    } else if s == 491 {
        assert(HUFFMAN_DECODE@[491] <= 255);
    } else if s == 492 {
        assert(HUFFMAN_DECODE@[492] <= 255);
    } else if s == 493 {
        assert(HUFFMAN_DECODE@[493] <= 255);
    } else if s == 494 {
        assert(HUFFMAN_DECODE@[494] <= 255);
    } else if s == 495 {
        assert(HUFFMAN_DECODE@[495] <= 255);
    } else if s == 496 {
        assert(HUFFMAN_DECODE@[496] <= 255);
    } else if s == 497 {
        assert(HUFFMAN_DECODE@[497] <= 255);
    } else if s == 498 {
        assert(HUFFMAN_DECODE@[498] <= 255);
    } else if s == 499 {
        assert(HUFFMAN_DECODE@[499] <= 255);
    } else if s == 500 {
        assert(HUFFMAN_DECODE@[500] <= 255);
    } else if s == 501 {
        assert(HUFFMAN_DECODE@[501] <= 255);
    } else if s == 502 {
        assert(HUFFMAN_DECODE@[502] <= 255);
    } else if s == 503 {
        assert(HUFFMAN_DECODE@[503] <= 255);
    } else if s == 504 {
        assert(HUFFMAN_DECODE@[504] <= 255);
    } else if s == 505 {
        assert(HUFFMAN_DECODE@[505] <= 255);
    } else if s == 506 {
        assert(HUFFMAN_DECODE@[506] <= 255);
    } else if s == 507 {
        assert(HUFFMAN_DECODE@[507] <= 255);
    } else if s == 508 {
        assert(HUFFMAN_DECODE@[508] <= 255);
    } else if s == 509 {
        assert(HUFFMAN_DECODE@[509] <= 255);
    } else if s == 510 {
        assert(HUFFMAN_DECODE@[510] <= 255);
    } else if s == 511 {
        assert(HUFFMAN_DECODE@[511] <= 255);
    }
}

/// No inner node of the decoding tree lies past the end of the table.
pub proof fn lemma_decode_table_bound(s: int)
    requires
        0 <= s < 512,
    ensures
        HUFFMAN_DECODE@[s] <= 255,
{
    if s < 64 {
        lemma_decode_table_bound_0(s);
    } else if s < 128 {
        lemma_decode_table_bound_64(s);
    } else if s < 192 {
        lemma_decode_table_bound_128(s);
    } else if s < 256 {
        lemma_decode_table_bound_192(s);
    } else if s < 320 {
        lemma_decode_table_bound_256(s);
    } else if s < 384 {
        lemma_decode_table_bound_320(s);
    } else if s < 448 {
        lemma_decode_table_bound_384(s);
    } else if s < 512 {
        lemma_decode_table_bound_448(s);
    }
}
} // verus!
