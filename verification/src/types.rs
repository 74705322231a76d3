//! Fixed-capacity strings as they appear in fixed-size packet fields.

use vstd::prelude::*;
use vstd::utf8::*;
use vstd::string::StringSliceAdditionalSpecFns;

use crate::protocol::format::str_from_utf8;

verus! {

broadcast use {vstd::array::group_array_axioms, vstd::utf8::group_utf8_lib};

/// The error of a string that does not fit in a fixed-capacity string.
#[derive(Debug, Clone, Copy, PartialEq, Eq, Structural)]
pub struct StringTooLong;

/// A string of at most `I` bytes stored inline, followed by zero bytes.
#[derive(Debug, Clone)]
pub struct FixedString<const I: usize> {
    length: u16,
    contents: [u8; I],
}

impl<const I: usize> Default for FixedString<I> {
    /// The empty string.
    fn default() -> (r: Self)
        ensures
            r.spec_bytes().len() == 0,
            r.spec_contents() == Seq::new(I as nat, |_i: int| 0u8),
            I <= u16::MAX ==> r.wf(),
    {
        let r = FixedString { length: 0, contents: [0u8; I] };
        assert(r.contents@ =~= Seq::new(I as nat, |_i: int| 0u8));
        assert(r.contents@.take(0) =~= Seq::<u8>::empty());
        r
    }
}

impl<const I: usize> FixedString<I> {
    /// The whole backing array, the string's bytes followed by zeros.
    pub closed spec fn spec_contents(&self) -> Seq<u8> {
        self.contents@
    }

    /// The string's own bytes.
    pub closed spec fn spec_bytes(&self) -> Seq<u8> {
        self.contents@.take(self.length as int)
    }

    /// The canonical layout: a valid UTF-8 string followed by zero bytes
    /// up to the capacity.
    pub closed spec fn wf(&self) -> bool {
        &&& self.length as int <= I
        &&& I <= u16::MAX
        &&& valid_utf8(self.contents@.take(self.length as int))
        &&& forall|i: int| self.length <= i < I ==> self.contents@[i] == 0
    }

    /// Whether the string has no NUL byte, so that a reader that stops at
    /// the first zero byte gets all of it.
    pub open spec fn spec_no_nul(&self) -> bool {
        forall|i: int| 0 <= i < self.spec_bytes().len() ==> self.spec_bytes()[i] != 0
    }

    /// The characters of the string.
    pub open spec fn spec_chars(&self) -> Seq<char> {
        decode_utf8(self.spec_bytes())
    }

    /// What every fixed string satisfies.
    pub proof fn lemma_layout(&self)
        requires
            self.wf(),
        ensures
            self.spec_contents().len() == I,
            I <= u16::MAX,
            self.spec_bytes().len() <= I,
            valid_utf8(self.spec_bytes()),
            self.spec_contents() == self.spec_bytes() + Seq::new(
                (I - self.spec_bytes().len()) as nat,
                |_i: int| 0u8,
            ),
    {
        assert(self.spec_contents() =~= self.spec_bytes() + Seq::new(
            (I - self.spec_bytes().len()) as nat,
            |_i: int| 0u8,
        ));
    }

    /// Builds the fixed string whose bytes are `bytes`.
    pub fn from_bytes(bytes: &[u8]) -> (r: FixedString<I>)
        requires
            bytes@.len() <= I <= u16::MAX,
            valid_utf8(bytes@),
        ensures
            r.wf(),
            r.spec_bytes() == bytes@,
    {
        let mut contents = [0u8; I];
        assert(contents == vstd::array::spec_array_fill_for_copy_type::<u8, I>(0u8));
        assert(forall|j: int| 0 <= j < I ==> contents@[j] == 0);
        let n = bytes.len();
        let mut i: usize = 0;
        while i < n
            invariant
                n == bytes@.len(),
                n <= I,
                i <= n,
                contents@.len() == I,
                forall|j: int| 0 <= j < i ==> contents@[j] == bytes@[j],
                forall|j: int| i <= j < I ==> contents@[j] == 0,
            decreases n - i,
        {
            contents[i] = bytes[i];
            i = i + 1;
        }
        assert(contents@.take(n as int) =~= bytes@);
        let r = FixedString { length: n as u16, contents };
        assert(r.contents@.take(r.length as int) == bytes@);
        assert(r.length as int <= I);
        assert(valid_utf8(r.contents@.take(r.length as int)));
        assert(forall|i: int| r.length <= i < I ==> r.contents@[i] == 0);
        r
    }

    /// The length of the string in bytes.
    pub fn len(&self) -> (r: usize)
        requires
            self.wf(),
        ensures
            r == self.spec_bytes().len(),
    {
        self.length as usize
    }

    /// The whole backing array.
    pub fn as_byte_array(&self) -> (r: &[u8; I])
        ensures
            r@ == self.spec_contents(),
    {
        &self.contents
    }

    /// The string's own bytes.
    pub fn as_bytes(&self) -> (r: &[u8])
        requires
            self.wf(),
        ensures
            r@ == self.spec_bytes(),
    {
        vstd::slice::slice_subrange(self.contents.as_slice(), 0, self.length as usize)
    }

    /// The string's text.
    pub fn as_str(&self) -> (r: &str)
        requires
            self.wf(),
        ensures
            r@ == self.spec_chars(),
    {
        let bytes = self.as_bytes();
        match str_from_utf8(bytes) {
            Some(s) => s,
            None => {
                proof {
                    assert(false);
                }
                ""
            },
        }
    }

    /// Empties the string.
    pub fn clear(&mut self)
        requires
            old(self).wf(),
        ensures
            final(self).wf(),
            final(self).spec_bytes().len() == 0,
            final(self).spec_contents() == Seq::new(I as nat, |_i: int| 0u8),
    {
        let zeroed = [0u8; I];
        self.contents = zeroed;
        self.length = 0;
        assert(self.contents@ =~= Seq::new(I as nat, |_i: int| 0u8));
        assert(self.contents@.take(0) =~= Seq::<u8>::empty());
    }

    /// The empty string.
    pub fn new() -> (r: FixedString<I>)
        requires
            I <= u16::MAX,
        ensures
            r.wf(),
            r.spec_bytes().len() == 0,
    {
        let r = FixedString { length: 0, contents: [0u8; I] };
        assert(r.contents@.take(0) =~= Seq::<u8>::empty());
        r
    }

    /// Converts a string, failing when it does not fit.
    pub fn try_from_str(value: &str) -> (r: Result<FixedString<I>, StringTooLong>)
        requires
            I <= u16::MAX,
        ensures
            r is Ok <==> value.spec_bytes().len() <= I,
            r matches Ok(s) ==> s.wf() && s.spec_bytes() == value.spec_bytes() && s.spec_chars() == value@,
            r matches Ok(s) ==> ((forall|i: int| 0 <= i < value@.len() ==> value@[i] != '\0') ==> s.spec_no_nul()),
    {
        let bytes = value.as_bytes();
        if bytes.len() > I {
            Err(StringTooLong)
        } else {
            proof {
                if forall|i: int| 0 <= i < value@.len() ==> value@[i] != '\0' {
                    lemma_no_nul_bytes(value@);
                }
            }
            let r = FixedString::from_bytes(bytes);
            Ok(r)
        }
    }

    /// Converts a string that is known to fit.
    pub fn from_str(s: &str) -> (r: FixedString<I>)
        requires
            I <= u16::MAX,
            s.spec_bytes().len() <= I,
        ensures
            r.wf(),
            r.spec_bytes() == s.spec_bytes(),
            r.spec_chars() == s@,
            (forall|i: int| 0 <= i < s@.len() ==> s@[i] != '\0') ==> r.spec_no_nul(),
    {
        match FixedString::try_from_str(s) {
            Ok(r) => r,
            Err(_) => {
                proof {
                    assert(false);
                }
                FixedString::new()
            },
        }
    }

    /// Whether the string holds the text `other`.
    pub fn eq_text(&self, other: &str) -> (r: bool)
        requires
            self.wf(),
        ensures
            r == (self.spec_bytes() == other.spec_bytes()),
    {
        let a = self.as_bytes();
        let b = other.as_bytes();
        if a.len() != b.len() {
            return false;
        }
        let mut i: usize = 0;
        while i < a.len()
            invariant
                a@ == self.spec_bytes(),
                b@ == other.spec_bytes(),
                a@.len() == b@.len(),
                i <= a@.len(),
                forall|j: int| 0 <= j < i ==> a@[j] == b@[j],
            decreases a@.len() - i,
        {
            if a[i] != b[i] {
                assert(a@[i as int] != b@[i as int]);
                return false;
            }
            i = i + 1;
        }
        assert(a@ =~= b@);
        true
    }

    /// Equality of the stored strings.
    pub fn eq_str(&self, other: &FixedString<I>) -> (r: bool)
        requires
            self.wf(),
            other.wf(),
        ensures
            r == (self.spec_bytes() == other.spec_bytes()),
    {
        let a = self.as_bytes();
        let b = other.as_bytes();
        if a.len() != b.len() {
            return false;
        }
        let mut i: usize = 0;
        while i < a.len()
            invariant
                a@ == self.spec_bytes(),
                b@ == other.spec_bytes(),
                a@.len() == b@.len(),
                i <= a@.len(),
                forall|j: int| 0 <= j < i ==> a@[j] == b@[j],
            decreases a@.len() - i,
        {
            if a[i] != b[i] {
                assert(a@[i as int] != b@[i as int]);
                return false;
            }
            i = i + 1;
        }
        assert(a@ =~= b@);
        true
    }
}

/// A string without NUL characters has no zero byte in its UTF-8 encoding.
pub proof fn lemma_no_nul_bytes(chars: Seq<char>)
    requires
        forall|i: int| 0 <= i < chars.len() ==> chars[i] != '\0',
    ensures
        forall|i: int| 0 <= i < encode_utf8(chars).len() ==> encode_utf8(chars)[i] != 0,
    decreases chars.len(),
{
    if chars.len() > 0 {
        let rest = chars.drop_first();
        lemma_no_nul_bytes(rest);
        let c = chars[0] as u32;
        char_is_scalar(chars[0]);
        char_u32_cast(chars[0], c);
        let first = encode_scalar(c);
        if c == 0 {
            assert(('\0' as u32) == 0);
            char_u32_cast('\0', 0);
        }
        assert(c != 0);
        assert(encode_utf8(chars) == first + encode_utf8(rest));
        assert forall|i: int| 0 <= i < first.len() implies first[i] != 0 by {
            lemma_scalar_bytes_nonzero(c);
        }
    }
}

proof fn lemma_scalar_bytes_nonzero(c: u32)
    requires
        c != 0,
        is_scalar(c),
    ensures
        forall|i: int| 0 <= i < encode_scalar(c).len() ==> encode_scalar(c)[i] != 0,
{
    let e = encode_scalar(c);
    if has_width_1_encoding(c) {
        assert(c <= 0x7f);
        assert(leading_byte_width_1(c) != 0) by (bit_vector)
            requires
                c != 0,
                c <= 0x7f,
        ;
    } else if has_width_2_encoding(c) {
        assert(leading_byte_width_2(c) != 0 && last_continuation_byte(c) != 0) by (bit_vector);
    } else if has_width_3_encoding(c) {
        assert(leading_byte_width_3(c) != 0 && last_continuation_byte(c) != 0
            && second_last_continuation_byte(c) != 0) by (bit_vector);
    } else {
        assert(leading_byte_width_4(c) != 0 && last_continuation_byte(c) != 0
            && second_last_continuation_byte(c) != 0 && third_last_continuation_byte(c) != 0)
            by (bit_vector);
    }
}

} // verus!
