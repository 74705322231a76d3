//! Client versions, which decide several packet layouts.

use vstd::prelude::*;
use vstd::string::StringSliceAdditionalSpecFns;
use vstd::utf8::*;

use crate::protocol::ProtocolError;
use crate::source::{decimal, push_decimal};
use vstd::string::StringExecFns;

verus! {

/// A client version `major.minor.patch.build`. Versions are ordered by their
/// components, most significant first.
#[derive(Debug, Clone, Copy, Default, PartialEq, Eq, Structural, PartialOrd, Ord)]
pub struct ClientVersion {
    pub major: u8,
    pub minor: u8,
    pub patch: u8,
    pub build: u8,
}

/// The first version with the High Seas packet layouts.
pub open spec fn spec_version_high_seas() -> ClientVersion {
    ClientVersion { major: 7, minor: 0, patch: 9, build: 0 }
}

/// The first version with grid inventories.
pub open spec fn spec_version_grid_inventory() -> ClientVersion {
    ClientVersion { major: 6, minor: 0, patch: 1, build: 7 }
}

pub fn version_high_seas() -> (r: ClientVersion)
    ensures
        r == spec_version_high_seas(),
{
    ClientVersion::new(7, 0, 9, 0)
}

pub fn version_grid_inventory() -> (r: ClientVersion)
    ensures
        r == spec_version_grid_inventory(),
{
    ClientVersion::new(6, 0, 1, 7)
}

impl ClientVersion {
    /// The position of this version in the version order.
    pub open spec fn key(&self) -> int {
        self.major as int * 0x1000000 + self.minor as int * 0x10000 + self.patch as int * 0x100
            + self.build as int
    }

    /// `self >= other` in the version order.
    pub open spec fn spec_at_least(&self, other: ClientVersion) -> bool {
        self.key() >= other.key()
    }

    /// `self > other` in the version order.
    pub open spec fn spec_newer_than(&self, other: ClientVersion) -> bool {
        self.key() > other.key()
    }

    pub fn new(major: u8, minor: u8, patch: u8, build: u8) -> (r: ClientVersion)
        ensures
            r == (ClientVersion { major, minor, patch, build }),
    {
        ClientVersion { major, minor, patch, build }
    }

    /// Whether any component is non-zero.
    pub fn is_valid(&self) -> (r: bool)
        ensures
            r == (self.major != 0 || self.minor != 0 || self.patch != 0 || self.build != 0),
    {
        self.major != 0 || self.minor != 0 || self.patch != 0 || self.build != 0
    }

    fn key_exec(&self) -> (r: u32)
        ensures
            r == self.key(),
    {
        (self.major as u32) * 0x1000000 + (self.minor as u32) * 0x10000 + (self.patch as u32)
            * 0x100 + (self.build as u32)
    }

    /// `self >= other` in the version order.
    pub fn at_least(&self, other: ClientVersion) -> (r: bool)
        ensures
            r == self.spec_at_least(other),
    {
        self.key_exec() >= other.key_exec()
    }

    /// `self > other` in the version order.
    pub fn newer_than(&self, other: ClientVersion) -> (r: bool)
        ensures
            r == self.spec_newer_than(other),
    {
        self.key_exec() > other.key_exec()
    }
}

/// A client version with the text that followed its numbers.
#[derive(Debug, Clone, PartialEq, Eq, PartialOrd, Ord)]
pub struct ExtendedClientVersion {
    pub client_version: ClientVersion,
    pub suffix: String,
}

impl ClientVersion {
    /// The version as text: `major.minor.patch.build`.
    pub fn to_string(&self) -> (r: String)
        ensures
            r@ == decimal(self.major as nat) + seq!['.'] + decimal(self.minor as nat) + seq!['.'] + decimal(
                self.patch as nat,
            ) + seq!['.'] + decimal(self.build as nat),
    {
        proof {
            reveal_strlit(".");
        }
        let mut out = String::new();
        push_decimal(&mut out, self.major as usize);
        out.append(".");
        push_decimal(&mut out, self.minor as usize);
        out.append(".");
        push_decimal(&mut out, self.patch as usize);
        out.append(".");
        push_decimal(&mut out, self.build as usize);
        assert(out@ =~= decimal(self.major as nat) + seq!['.'] + decimal(self.minor as nat) + seq!['.'] + decimal(
            self.patch as nat,
        ) + seq!['.'] + decimal(self.build as nat));
        out
    }
}

impl core::ops::Deref for ExtendedClientVersion {
    type Target = ClientVersion;

    /// The plain version.
    fn deref(&self) -> (r: &ClientVersion)
        ensures
            *r == self.client_version,
    {
        &self.client_version
    }
}

impl ExtendedClientVersion {
    pub fn new(major: u8, minor: u8, patch: u8, build: u8, suffix: String) -> (r: Self)
        ensures
            r.client_version == (ClientVersion { major, minor, patch, build }),
            r.suffix == suffix,
    {
        ExtendedClientVersion { client_version: ClientVersion::new(major, minor, patch, build), suffix }
    }
}

/// The first index from `start` on where `b` holds `x`.
pub open spec fn find_byte(b: Seq<u8>, start: int, x: u8) -> Option<int>
    decreases b.len() - start,
{
    if start < 0 || start >= b.len() {
        None
    } else if b[start] == x {
        Some(start)
    } else {
        find_byte(b, start + 1, x)
    }
}

pub open spec fn is_ascii_digit(c: u8) -> bool {
    48 <= c <= 57
}

/// The first index from `start` on where `b` holds no ASCII digit.
pub open spec fn find_non_digit(b: Seq<u8>, start: int) -> Option<int>
    decreases b.len() - start,
{
    if start < 0 || start >= b.len() {
        None
    } else if !is_ascii_digit(b[start]) {
        Some(start)
    } else {
        find_non_digit(b, start + 1)
    }
}

/// The value of a run of ASCII digits.
pub open spec fn digits_value(d: Seq<u8>) -> nat
    decreases d.len(),
{
    if d.len() == 0 {
        0
    } else {
        digits_value(d.drop_last()) * 10 + (d.last() - 48) as nat
    }
}

/// What `u8::from_str` reads from these bytes: an optional `+`, then at
/// least one ASCII digit, with a value that fits.
pub open spec fn parse_u8(s: Seq<u8>) -> Option<u8> {
    let d = unsigned_digits(s);
    if d.len() > 0 && all_digits(d) && digits_value(d) <= 255 {
        Some(digits_value(d) as u8)
    } else {
        None
    }
}

/// The bytes after an optional leading `+`.
pub open spec fn unsigned_digits(s: Seq<u8>) -> Seq<u8> {
    if s.len() > 0 && s[0] == 43 {
        s.skip(1)
    } else {
        s
    }
}

/// Every byte is an ASCII digit.
pub open spec fn all_digits(d: Seq<u8>) -> bool {
    forall|i: int| 0 <= i < d.len() ==> #[trigger] is_ascii_digit(d[i])
}

/// Where the character that starts at `i` ends: after its continuation bytes.
pub open spec fn char_end(b: Seq<u8>, i: int) -> int
    decreases b.len() - i,
{
    if i + 1 < b.len() && 0x80 <= b[i + 1] < 0xc0 {
        char_end(b, i + 1)
    } else {
        i + 1
    }
}

/// How a version text reads: `major.minor.patch.build` followed by a suffix
/// after the first character that is no digit, or `major.minor.patch`
/// followed by a suffix after such a character, a lone lower-case letter as
/// suffix giving the build (`a` is 0). The numbers and the byte range of the
/// suffix, or `None`.
pub open spec fn version_parts(b: Seq<u8>) -> Option<(u8, u8, u8, u8, int, int)> {
    match find_byte(b, 0, 46) {
        None => None,
        Some(d1) => match find_byte(b, d1 + 1, 46) {
            None => None,
            Some(d2) => match (parse_u8(b.subrange(0, d1)), parse_u8(b.subrange(d1 + 1, d2))) {
                (Some(major), Some(minor)) => match find_byte(b, d2 + 1, 46) {
                    Some(d3) => {
                        let (build_end, suffix_start) = match find_non_digit(b, d3 + 1) {
                            None => (b.len() as int, b.len() as int),
                            Some(k) => (k, char_end(b, k)),
                        };
                        match (parse_u8(b.subrange(d2 + 1, d3)), parse_u8(b.subrange(d3 + 1, build_end))) {
                            (Some(patch), Some(build)) => Some((major, minor, patch, build, suffix_start, b.len() as int)),
                            _ => None,
                        }
                    },
                    None => match find_non_digit(b, d2 + 1) {
                        None => None,
                        Some(k) => match parse_u8(b.subrange(d2 + 1, k)) {
                            None => None,
                            Some(patch) => {
                                let rest = char_end(b, k);
                                if b.len() == rest + 1 && 97 <= b[rest] <= 122 {
                                    Some((major, minor, patch, (b[rest] - 97) as u8, b.len() as int, b.len() as int))
                                } else {
                                    Some((major, minor, patch, 0u8, rest, b.len() as int))
                                }
                            },
                        },
                    },
                },
                _ => None,
            },
        },
    }
}

fn find_byte_exec(b: &[u8], start: usize, x: u8) -> (r: Option<usize>)
    requires
        start <= b@.len(),
    ensures
        match find_byte(b@, start as int, x) {
            Some(i) => start <= i < b@.len() && r == Some(i as usize),
            None => r is None,
        },
        r matches Some(i) ==> start <= i < b@.len(),
    decreases b@.len() - start,
{
    if start >= b.len() {
        None
    } else if b[start] == x {
        Some(start)
    } else {
        find_byte_exec(b, start + 1, x)
    }
}

fn find_non_digit_exec(b: &[u8], start: usize) -> (r: Option<usize>)
    requires
        start <= b@.len(),
    ensures
        match find_non_digit(b@, start as int) {
            Some(i) => start <= i < b@.len() && r == Some(i as usize),
            None => r is None,
        },
        r matches Some(i) ==> start <= i < b@.len(),
    decreases b@.len() - start,
{
    if start >= b.len() {
        None
    } else if !(48 <= b[start] && b[start] <= 57) {
        Some(start)
    } else {
        find_non_digit_exec(b, start + 1)
    }
}

fn char_end_exec(b: &[u8], i: usize) -> (r: usize)
    requires
        i < b@.len(),
    ensures
        r == char_end(b@, i as int),
        i < r <= b@.len(),
    decreases b@.len() - i,
{
    let n = b.len();
    if i + 1 < n && 0x80 <= b[i + 1] && b[i + 1] < 0xc0 {
        char_end_exec(b, i + 1)
    } else {
        i + 1
    }
}

fn parse_u8_exec(s: &[u8]) -> (r: Option<u8>)
    ensures
        r == parse_u8(s@),
{
    let d = if s.len() > 0 && s[0] == 43 {
        vstd::slice::slice_subrange(s, 1, s.len())
    } else {
        s
    };
    assert(d@ == unsigned_digits(s@));
    if d.len() == 0 {
        return None;
    }
    let mut v: u32 = 0;
    let mut i: usize = 0;
    while i < d.len()
        invariant
            d@ == unsigned_digits(s@),
            d@.len() > 0,
            i <= d@.len(),
            forall|j: int| 0 <= j < i ==> #[trigger] is_ascii_digit(d@[j]),
            v == digits_value(d@.take(i as int)),
            v <= 255,
        decreases d@.len() - i,
    {
        let c = d[i];
        if !(48 <= c && c <= 57) {
            assert(!is_ascii_digit(d@[i as int]));
            assert(!all_digits(d@));
            return None;
        }
        assert(d@.take(i + 1).drop_last() =~= d@.take(i as int));
        let next = v * 10 + (c - 48) as u32;
        if next > 255 {
            proof {
                if all_digits(d@) {
                    lemma_digits_value_grows(d@, (i + 1) as int);
                }
            }
            return None;
        }
        v = next;
        i += 1;
    }
    assert(d@.take(d@.len() as int) =~= d@);
    assert(all_digits(d@));
    Some(v as u8)
}

/// A longer run of digits is worth at least as much.
proof fn lemma_digits_value_grows(d: Seq<u8>, k: int)
    requires
        0 <= k <= d.len(),
        forall|j: int| 0 <= j < d.len() ==> #[trigger] is_ascii_digit(d[j]),
    ensures
        digits_value(d.take(k)) <= digits_value(d),
    decreases d.len() - k,
{
    if k < d.len() {
        lemma_digits_value_grows(d.drop_last(), k);
        assert(d.drop_last().take(k) =~= d.take(k));
        assert(is_ascii_digit(d[d.len() - 1]));
        assert(digits_value(d.drop_last()) <= digits_value(d)) by (nonlinear_arith)
            requires
                digits_value(d) == digits_value(d.drop_last()) * 10 + (d.last() - 48) as nat,
        ;
    } else {
        assert(d.take(k) =~= d);
    }
}

impl ExtendedClientVersion {
    /// Reads a version text such as `7.0.15.1`, `5.0.9a` or `4.0.11c`.
    pub fn parse(s: &str) -> (r: Result<ExtendedClientVersion, ProtocolError>)
        ensures
            match version_parts(s.spec_bytes()) {
                None => r == Err::<ExtendedClientVersion, ProtocolError>(ProtocolError::InvalidValue),
                Some((major, minor, patch, build, from, to)) => if is_char_boundary(s.spec_bytes(), from) {
                    (r matches Ok(v) && v.client_version == (ClientVersion { major, minor, patch, build })
                        && encode_utf8(v.suffix@) == s.spec_bytes().subrange(from, to))
                } else {
                    r == Err::<ExtendedClientVersion, ProtocolError>(ProtocolError::InvalidValue)
                },
            },
    {
        let b = s.as_bytes();
        let ghost bs = b@;
        assert(bs == s.spec_bytes());
        let len = b.len();
        let d1 = match find_byte_exec(b, 0, 46) {
            Some(i) => i,
            None => {
                assert(version_parts(bs) is None);
                return Err(ProtocolError::InvalidValue);
            },
        };
        let d2 = match find_byte_exec(b, d1 + 1, 46) {
            Some(i) => i,
            None => {
                assert(version_parts(bs) is None);
                return Err(ProtocolError::InvalidValue);
            },
        };
        let major = match parse_u8_exec(vstd::slice::slice_subrange(b, 0, d1)) {
            Some(v) => v,
            None => {
                assert(parse_u8(bs.subrange(0, d1 as int)) is None);
                assert(version_parts(bs) is None);
                return Err(ProtocolError::InvalidValue);
            },
        };
        let minor = match parse_u8_exec(vstd::slice::slice_subrange(b, d1 + 1, d2)) {
            Some(v) => v,
            None => {
                assert(parse_u8(bs.subrange(d1 + 1, d2 as int)) is None);
                assert(version_parts(bs) is None);
                return Err(ProtocolError::InvalidValue);
            },
        };
        assert(parse_u8(bs.subrange(0, d1 as int)) == Some(major));
        assert(parse_u8(bs.subrange(d1 + 1, d2 as int)) == Some(minor));
        let (patch, build, from) = match find_byte_exec(b, d2 + 1, 46) {
            Some(d3) => {
                let (build_end, suffix_start) = match find_non_digit_exec(b, d3 + 1) {
                    None => (len, len),
                    Some(k) => (k, char_end_exec(b, k)),
                };
                let patch = match parse_u8_exec(vstd::slice::slice_subrange(b, d2 + 1, d3)) {
                    Some(v) => v,
                    None => {
                        assert(parse_u8(bs.subrange(d2 + 1, d3 as int)) is None);
                        assert(version_parts(bs) is None);
                        return Err(ProtocolError::InvalidValue);
                    },
                };
                let build = match parse_u8_exec(vstd::slice::slice_subrange(b, d3 + 1, build_end)) {
                    Some(v) => v,
                    None => {
                        assert(parse_u8(bs.subrange(d3 + 1, build_end as int)) is None);
                        assert(version_parts(bs) is None);
                        return Err(ProtocolError::InvalidValue);
                    },
                };
                assert(parse_u8(bs.subrange(d2 + 1, d3 as int)) == Some(patch));
                assert(parse_u8(bs.subrange(d3 + 1, build_end as int)) == Some(build));
                assert(version_parts(bs) == Some((major, minor, patch, build, suffix_start as int, len as int)));
                (patch, build, suffix_start)
            },
            None => {
                let k = match find_non_digit_exec(b, d2 + 1) {
                    Some(k) => k,
                    None => {
                        assert(version_parts(bs) is None);
                        return Err(ProtocolError::InvalidValue);
                    },
                };
                let patch = match parse_u8_exec(vstd::slice::slice_subrange(b, d2 + 1, k)) {
                    Some(v) => v,
                    None => {
                        assert(parse_u8(bs.subrange(d2 + 1, k as int)) is None);
                        assert(version_parts(bs) is None);
                        return Err(ProtocolError::InvalidValue);
                    },
                };
                assert(parse_u8(bs.subrange(d2 + 1, k as int)) == Some(patch));
                let rest = char_end_exec(b, k);
                if rest < len && len - rest == 1 && 97 <= b[rest] && b[rest] <= 122 {
                    assert(version_parts(bs) == Some((major, minor, patch, (b[rest as int] - 97) as u8, len as int, len as int)));
                    (patch, b[rest] - 97, len)
                } else {
                    assert(version_parts(bs) == Some((major, minor, patch, 0u8, rest as int, len as int)));
                    (patch, 0u8, rest)
                }
            },
        };
        if !s.is_char_boundary(from) {
            return Err(ProtocolError::InvalidValue);
        }
        let (_, suffix) = s.split_at(from);
        Ok(ExtendedClientVersion::new(major, minor, patch, build, suffix.to_owned()))
    }
}

impl std::str::FromStr for ExtendedClientVersion {
    type Err = ProtocolError;

    fn from_str(s: &str) -> Result<ExtendedClientVersion, ProtocolError> {
        ExtendedClientVersion::parse(s)
    }
}

/// The feature set a client announces.
#[derive(Debug, Clone, Copy, Default, PartialEq, Eq, Structural)]
pub struct ClientFlags {
    bits: u32,
}

impl View for ClientFlags {
    type V = u32;

    closed spec fn view(&self) -> u32 {
        self.bits
    }
}

impl ClientFlags {
    pub const RE: u32 = 0x1;
    pub const TD: u32 = 0x2;
    pub const LBR: u32 = 0x4;
    pub const AOS: u32 = 0x8;
    pub const SE: u32 = 0x10;
    pub const SA: u32 = 0x20;
    pub const UO3D: u32 = 0x40;
    pub const THREE_D: u32 = 0x100;

    /// The union of all defined flags.
    pub open spec fn spec_all() -> u32 {
        0x17f
    }

    /// The flags among `bits` that are defined; the others are dropped.
    pub fn from_bits_truncate(bits: u32) -> (r: ClientFlags)
        ensures
            r@ == bits & ClientFlags::spec_all(),
    {
        ClientFlags { bits: bits & 0x17f }
    }

    pub fn bits(&self) -> (r: u32)
        ensures
            r == self@,
    {
        self.bits
    }

    pub fn empty() -> (r: ClientFlags)
        ensures
            r@ == 0,
    {
        ClientFlags { bits: 0 }
    }

    pub fn contains(&self, flag: u32) -> (r: bool)
        ensures
            r == (self@ & flag == flag),
    {
        self.bits & flag == flag
    }

    /// The value holds only defined flags.
    pub open spec fn spec_is_truncated(&self) -> bool {
        self@ & ClientFlags::spec_all() == self@
    }
}

/// Two flag sets with the same bits are the same.
pub broadcast proof fn lemma_client_flags_view_injective(a: ClientFlags, b: ClientFlags)
    ensures
        #![trigger a@, b@]
        a@ == b@ ==> a == b,
{
}

} // verus!
