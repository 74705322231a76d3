//! Positions in source text, used to report where a parse failed.

use vstd::prelude::*;
use vstd::string::StringExecFns;
use vstd::string::StringSliceAdditionalSpecFns;

verus! {

/// Something that can say where in the source it is.
pub trait SourcePosition {
    /// The text that tells where this position is.
    spec fn spec_address(&self) -> Seq<char>;

    /// A short text that tells where this position is.
    fn address(&self) -> (r: String)
        ensures
            r@ == self.spec_address();
}

/// The decimal digits of `n`.
pub open spec fn decimal(n: nat) -> Seq<char>
    decreases n,
{
    if n < 10 {
        seq![(48 + n) as char]
    } else {
        decimal(n / 10).push((48 + n % 10) as char)
    }
}

/// The one-digit text of `d`.
fn digit_text(d: usize) -> (r: &'static str)
    requires
        d < 10,
    ensures
        r@ == seq![(48 + d) as char],
{
    proof {
        reveal_strlit("0");
        reveal_strlit("1");
        reveal_strlit("2");
        reveal_strlit("3");
        reveal_strlit("4");
        reveal_strlit("5");
        reveal_strlit("6");
        reveal_strlit("7");
        reveal_strlit("8");
        reveal_strlit("9");
    }
    if d == 0 {
        "0"
    } else if d == 1 {
        "1"
    } else if d == 2 {
        "2"
    } else if d == 3 {
        "3"
    } else if d == 4 {
        "4"
    } else if d == 5 {
        "5"
    } else if d == 6 {
        "6"
    } else if d == 7 {
        "7"
    } else if d == 8 {
        "8"
    } else {
        "9"
    }
}

/// Appends the decimal digits of `n`.
pub(crate) fn push_decimal(out: &mut String, n: usize)
    ensures
        final(out)@ == old(out)@ + decimal(n as nat),
    decreases n,
{
    if n >= 10 {
        push_decimal(out, n / 10);
    }
    out.append(digit_text(n % 10));
    assert(out@ =~= old(out)@ + decimal(n as nat));
}

/// Appends the decimal digits of `n`.
pub(crate) fn push_decimal_u64(out: &mut String, n: u64)
    ensures
        final(out)@ == old(out)@ + decimal(n as nat),
    decreases n,
{
    if n >= 10 {
        push_decimal_u64(out, n / 10);
    }
    out.append(digit_text((n % 10) as usize));
    assert(out@ =~= old(out)@ + decimal(n as nat));
}

/// A position in a named file: its line, from 1, and the characters before
/// it on that line.
#[derive(Clone, Debug)]
pub struct FilePosition {
    pub file: String,
    pub line: usize,
    pub offset: usize,
}

/// Whether a byte starts a character: it is not a UTF-8 continuation byte.
pub open spec fn starts_char(b: u8) -> bool {
    b < 0x80 || b >= 0xc0
}

/// The number of newline bytes in `s`.
pub open spec fn newlines(s: Seq<u8>) -> nat
    decreases s.len(),
{
    if s.len() == 0 {
        0
    } else {
        newlines(s.drop_last()) + if s.last() == 10 { 1nat } else { 0nat }
    }
}

/// The number of characters after the last newline of `s`, or in all of
/// `s` when it has none.
pub open spec fn column(s: Seq<u8>) -> nat
    decreases s.len(),
{
    if s.len() == 0 {
        0
    } else if s.last() == 10 {
        0
    } else {
        column(s.drop_last()) + if starts_char(s.last()) { 1nat } else { 0nat }
    }
}

impl FilePosition {
    /// The position where `remaining` starts, as the unread end of
    /// `contents`: what lies before it is the text already read.
    pub fn from_file_and_str(file: String, contents: &str, remaining: &str) -> (r: FilePosition)
        requires
            remaining.spec_bytes().len() <= contents.spec_bytes().len(),
            contents.spec_bytes().len() - remaining.spec_bytes().len() < usize::MAX,
        ensures
            ({
                let used = contents.spec_bytes().take(contents.spec_bytes().len() - remaining.spec_bytes().len());
                &&& r.file@ == file@
                &&& r.line == 1 + newlines(used)
                &&& r.offset == column(used)
            }),
    {
        let bytes = contents.as_bytes();
        let n = bytes.len() - remaining.as_bytes().len();
        let mut line: usize = 1;
        let mut offset: usize = 0;
        let mut i: usize = 0;
        while i < n
            invariant
                n <= bytes@.len(),
                n < usize::MAX,
                i <= n,
                line == 1 + newlines(bytes@.take(i as int)),
                offset == column(bytes@.take(i as int)),
                line <= i + 1,
                offset <= i,
            decreases n - i,
        {
            let b = bytes[i];
            proof {
                assert(bytes@.take(i + 1).drop_last() =~= bytes@.take(i as int));
            }
            if b == 10 {
                line += 1;
                offset = 0;
            } else if b < 0x80 || b >= 0xc0 {
                offset += 1;
            }
            i += 1;
        }
        FilePosition { file, line, offset }
    }
}

impl SourcePosition for FilePosition {
    open spec fn spec_address(&self) -> Seq<char> {
        self.file@ + seq![':'] + decimal(self.line as nat) + seq![':'] + decimal(self.offset as nat)
    }

    /// `file:line:offset`.
    fn address(&self) -> (r: String) {
        proof {
            reveal_strlit(":");
        }
        let mut out = self.file.clone();
        out.append(":");
        push_decimal(&mut out, self.line);
        out.append(":");
        push_decimal(&mut out, self.offset);
        out
    }
}

/// A position shown as its address.
pub struct DisplayAddress<P>(pub P);

impl<P: SourcePosition> DisplayAddress<P> {
    /// The address of the position.
    pub fn to_string(&self) -> (r: String)
        ensures
            r@ == self.0.spec_address(),
    {
        self.0.address()
    }
}

} // verus!
