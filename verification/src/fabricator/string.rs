//! Quoted string literals: `"` then one or more fragments, each a run of
//! characters other than `\` and `"` or a `\` followed by any character,
//! then a closing `"`.

use vstd::prelude::*;
use vstd::string::StrSliceExecFns;
use vstd::string::StringExecFns;

verus! {

/// A string literal that could not be read, at the opening quote.
#[derive(Clone, Debug)]
pub enum ParseError<P> {
    /// The literal has no fragment: `""`.
    EmptyString(P),
    /// The input ends before the closing quote.
    UnclosedString(P),
}

impl<P> ParseError<P> {
    /// Where the literal starts.
    pub open spec fn spec_position(self) -> P {
        match self {
            ParseError::EmptyString(p) => p,
            ParseError::UnclosedString(p) => p,
        }
    }

    /// Whether the literal was empty rather than unclosed.
    pub open spec fn spec_is_empty(self) -> bool {
        self is EmptyString
    }

    /// The same error with its position passed through `f`.
    pub fn map_position<P2, F: Fn(P) -> P2>(self, f: F) -> (r: ParseError<P2>)
        requires
            f.requires((self.spec_position(),)),
        ensures
            r.spec_is_empty() == self.spec_is_empty(),
            f.ensures((self.spec_position(),), r.spec_position()),
    {
        match self {
            ParseError::EmptyString(p) => ParseError::EmptyString(f(p)),
            ParseError::UnclosedString(p) => ParseError::UnclosedString(f(p)),
        }
    }
}

/// Where the fragments that start at `j` end: the position after the
/// closing quote, or `Err(true)` when no fragment came before it and
/// `Err(false)` when the input ends first. `seen` says whether a fragment
/// has already been read.
pub open spec fn fragments_end(s: Seq<char>, j: int, seen: bool) -> Result<int, bool>
    decreases s.len() - j,
{
    if j < 0 || j >= s.len() {
        Err(false)
    } else if s[j] == '"' {
        if seen {
            Ok(j + 1)
        } else {
            Err(true)
        }
    } else if s[j] == '\\' {
        if j + 1 < s.len() {
            fragments_end(s, j + 2, true)
        } else {
            Err(false)
        }
    } else {
        fragments_end(s, j + 1, true)
    }
}

/// The literal at `i`: `None` when `s` has no quote there; otherwise where
/// it ends, or why it cannot be read.
pub open spec fn literal_at(s: Seq<char>, i: int) -> Option<Result<int, bool>> {
    if 0 <= i < s.len() && s[i] == '"' {
        Some(fragments_end(s, i + 1, false))
    } else {
        None
    }
}

/// The character that `\c` stands for.
pub open spec fn escaped_meaning(c: char) -> char {
    if c == 'r' {
        '\r'
    } else if c == 'n' {
        '\n'
    } else {
        c
    }
}

/// The text of the fragments that start at `j`, escapes replaced by what
/// they stand for, up to the closing quote.
pub open spec fn unescaped(s: Seq<char>, j: int) -> Seq<char>
    decreases s.len() - j,
{
    if j < 0 || j >= s.len() || s[j] == '"' {
        Seq::empty()
    } else if s[j] == '\\' {
        if j + 1 < s.len() {
            seq![escaped_meaning(s[j + 1])] + unescaped(s, j + 2)
        } else {
            Seq::empty()
        }
    } else {
        seq![s[j]] + unescaped(s, j + 1)
    }
}

pub proof fn lemma_fragments_end_bounds(s: Seq<char>, j: int, seen: bool)
    requires
        0 <= j,
    ensures
        fragments_end(s, j, seen) is Ok ==> j < fragments_end(s, j, seen)->Ok_0 <= s.len(),
    decreases s.len() - j,
{
    if 0 <= j < s.len() && s[j] != '"' {
        if s[j] == '\\' {
            if j + 1 < s.len() {
                lemma_fragments_end_bounds(s, j + 2, true);
            }
        } else {
            lemma_fragments_end_bounds(s, j + 1, true);
        }
    }
}

/// Where the literal at `i` of `chars` ends, as `literal_at` says.
pub(crate) fn scan_literal(chars: &Vec<char>, i: usize) -> (r: Option<Result<usize, bool>>)
    requires
        i <= chars@.len(),
    ensures
        match literal_at(chars@, i as int) {
            None => r is None,
            Some(Ok(e)) => r == Some(Ok::<usize, bool>(e as usize)) && i + 1 < e <= chars@.len(),
            Some(Err(empty)) => r == Some(Err::<usize, bool>(empty)),
        },
{
    if i >= chars.len() || chars[i] != '"' {
        return None;
    }
    proof {
        lemma_fragments_end_bounds(chars@, i + 1, false);
    }
    let mut j: usize = i + 1;
    let mut seen = false;
    while j < chars.len()
        invariant
            i < j <= chars@.len(),
            literal_at(chars@, i as int) == Some(fragments_end(chars@, i + 1, false)),
            fragments_end(chars@, j as int, seen) == fragments_end(chars@, i + 1, false),
            fragments_end(chars@, i + 1, false) is Ok ==> i + 1 < fragments_end(chars@, i + 1, false)->Ok_0,
        decreases chars@.len() - j,
    {
        if chars[j] == '"' {
            if seen {
                return Some(Ok(j + 1));
            } else {
                return Some(Err(true));
            }
        } else if chars[j] == '\\' {
            if j + 1 < chars.len() {
                j = j + 2;
                seen = true;
            } else {
                return Some(Err(false));
            }
        } else {
            j = j + 1;
            seen = true;
        }
    }
    Some(Err(false))
}

/// The characters of `text`, in order.
pub(crate) fn chars_of(text: &str) -> (v: Vec<char>)
    ensures
        v@ == text@,
{
    let mut v: Vec<char> = Vec::new();
    for c in it: text.chars()
        invariant
            v@ == it.seq().take(it.index() as int),
            it.seq() == text@,
    {
        v.push(c);
    }
    v
}

/// The string literal at the start of `src`: `None` when `src` does not
/// start with a quote, otherwise the rest of `src` and the literal with its
/// quotes.
pub fn recognize_string<'a>(src: &'a str) -> (r: Result<Option<(&'a str, &'a str)>, ParseError<&'a str>>)
    ensures
        match literal_at(src@, 0) {
            None => r == Ok::<Option<(&'a str, &'a str)>, ParseError<&'a str>>(None),
            Some(Ok(e)) => r is Ok && r->Ok_0 is Some
                && r->Ok_0->Some_0.0@ == src@.subrange(e, src@.len() as int)
                && r->Ok_0->Some_0.1@ == src@.subrange(0, e),
            Some(Err(empty)) => r is Err && r->Err_0.spec_is_empty() == empty
                && r->Err_0.spec_position()@ == src@,
        },
{
    let chars = chars_of(src);
    match scan_literal(&chars, 0) {
        None => Ok(None),
        Some(Ok(e)) => {
            let n = chars.len();
            Ok(Some((src.substring_char(e, n), src.substring_char(0, e))))
        },
        Some(Err(true)) => Err(ParseError::EmptyString(src)),
        Some(Err(false)) => Err(ParseError::UnclosedString(src)),
    }
}

/// The text of the fragments from `j` of `text`, as `unescaped` says.
pub(crate) fn unescape_from(text: &str, chars: &Vec<char>, j: usize, end: usize) -> (r: String)
    requires
        chars@ == text@,
        1 <= j < end <= chars@.len(),
        fragments_end(chars@, j as int, true) == Ok::<int, bool>(end as int)
            || fragments_end(chars@, j as int, false) == Ok::<int, bool>(end as int),
    ensures
        r@ == unescaped(chars@, j as int),
{
    let mut out = String::new();
    let mut k: usize = j;
    proof {
        lemma_fragments_end_bounds(chars@, j as int, true);
        lemma_fragments_end_bounds(chars@, j as int, false);
    }
    while chars[k] != '"'
        invariant
            chars@ == text@,
            j <= k < end <= chars@.len(),
            fragments_end(chars@, k as int, true) == Ok::<int, bool>(end as int)
                || fragments_end(chars@, k as int, false) == Ok::<int, bool>(end as int),
            out@ + unescaped(chars@, k as int) == unescaped(chars@, j as int),
        decreases end - k,
    {
        if chars[k] == '\\' {
            assert(k + 1 < chars@.len());
            proof {
                lemma_fragments_end_bounds(chars@, k + 2, true);
            }
            let c = chars[k + 1];
            proof {
                reveal_strlit("\r");
                reveal_strlit("\n");
            }
            if c == 'r' {
                out.append("\r");
            } else if c == 'n' {
                out.append("\n");
            } else {
                out.append(text.substring_char(k + 1, k + 2));
            }
            assert(out@ + unescaped(chars@, k + 2) =~= unescaped(chars@, j as int));
            k = k + 2;
        } else {
            proof {
                lemma_fragments_end_bounds(chars@, k + 1, true);
            }
            out.append(text.substring_char(k, k + 1));
            assert(out@ + unescaped(chars@, k + 1) =~= unescaped(chars@, j as int));
            k = k + 1;
        }
    }
    assert(out@ =~= unescaped(chars@, j as int));
    out
}

/// The string literal at the start of `src`, with its escapes replaced:
/// `None` when `src` does not start with a quote, otherwise the rest of
/// `src` and the text between the quotes.
pub fn parse_string<'a>(src: &'a str) -> (r: Result<Option<(&'a str, String)>, ParseError<&'a str>>)
    ensures
        match literal_at(src@, 0) {
            None => r == Ok::<Option<(&'a str, String)>, ParseError<&'a str>>(None),
            Some(Ok(e)) => r is Ok && r->Ok_0 is Some
                && r->Ok_0->Some_0.0@ == src@.subrange(e, src@.len() as int)
                && r->Ok_0->Some_0.1@ == unescaped(src@, 1),
            Some(Err(empty)) => r is Err && r->Err_0.spec_is_empty() == empty
                && r->Err_0.spec_position()@ == src@,
        },
{
    let chars = chars_of(src);
    match scan_literal(&chars, 0) {
        None => Ok(None),
        Some(Ok(e)) => {
            let n = chars.len();
            let text = unescape_from(src, &chars, 1, e);
            Ok(Some((src.substring_char(e, n), text)))
        },
        Some(Err(true)) => Err(ParseError::EmptyString(src)),
        Some(Err(false)) => Err(ParseError::UnclosedString(src)),
    }
}

/// `c` as it stands inside a literal: `\`, `"`, carriage return and line
/// feed get a backslash before them.
pub open spec fn escaped_char(c: char) -> Seq<char> {
    if c == '\\' {
        seq!['\\', '\\']
    } else if c == '"' {
        seq!['\\', '"']
    } else if c == '\r' {
        seq!['\\', 'r']
    } else if c == '\n' {
        seq!['\\', 'n']
    } else {
        seq![c]
    }
}

/// The characters of `s`, each as it stands inside a literal.
pub open spec fn escaped_text(s: Seq<char>) -> Seq<char>
    decreases s.len(),
{
    if s.len() == 0 {
        Seq::empty()
    } else {
        escaped_text(s.drop_last()) + escaped_char(s.last())
    }
}

/// The literal that stands for `s`.
pub open spec fn quoted(s: Seq<char>) -> Seq<char> {
    seq!['"'] + escaped_text(s) + seq!['"']
}

/// `s` as a string literal, in quotes.
pub fn escape_string(s: &str) -> (r: String)
    ensures
        r@ == quoted(s@),
{
    let chars = chars_of(s);
    let mut out = String::new();
    proof {
        reveal_strlit("\"");
    }
    out.append("\"");
    let mut i: usize = 0;
    while i < chars.len()
        invariant
            chars@ == s@,
            i <= chars@.len(),
            out@ == seq!['"'] + escaped_text(chars@.take(i as int)),
        decreases chars@.len() - i,
    {
        let c = chars[i];
        proof {
            reveal_strlit("\\\\");
            reveal_strlit("\\\"");
            reveal_strlit("\\r");
            reveal_strlit("\\n");
        }
        if c == '\\' {
            out.append("\\\\");
        } else if c == '"' {
            out.append("\\\"");
        } else if c == '\r' {
            out.append("\\r");
        } else if c == '\n' {
            out.append("\\n");
        } else {
            let one = s.substring_char(i, i + 1);
            assert(one@ =~= seq![c]);
            out.append(one);
        }
        assert(chars@.take(i + 1).drop_last() =~= chars@.take(i as int));
        assert(chars@.take(i + 1).last() == c);
        assert(out@ =~= seq!['"'] + escaped_text(chars@.take(i + 1)));
        i = i + 1;
    }
    proof {
        reveal_strlit("\"");
    }
    out.append("\"");
    assert(chars@.take(i as int) =~= chars@);
    out
}

proof fn lemma_escaped_text_front(s: Seq<char>)
    requires
        s.len() > 0,
    ensures
        escaped_text(s) == escaped_char(s[0]) + escaped_text(s.drop_first()),
    decreases s.len(),
{
    if s.len() > 1 {
        lemma_escaped_text_front(s.drop_last());
        assert(s.drop_last().drop_first() =~= s.drop_first().drop_last());
        assert(s.drop_first().last() == s.last());
        assert(s.drop_last()[0] == s[0]);
    } else {
        assert(s.drop_first() =~= Seq::<char>::empty());
        assert(s.drop_last() =~= Seq::<char>::empty());
    }
}

proof fn lemma_escaped_read_back(p: Seq<char>, s: Seq<char>, t: Seq<char>, seen: bool)
    ensures
        ({
            let w = p + escaped_text(s) + seq!['"'] + t;
            &&& fragments_end(w, p.len() as int, seen) == (if s.len() == 0 && !seen {
                Err::<int, bool>(true)
            } else {
                Ok::<int, bool>((p.len() + escaped_text(s).len() + 1) as int)
            })
            &&& unescaped(w, p.len() as int) == s
        }),
    decreases s.len(),
{
    let w = p + escaped_text(s) + seq!['"'] + t;
    let j = p.len() as int;
    if s.len() == 0 {
        assert(w[j] == '"');
        assert(unescaped(w, j) =~= s);
    } else {
        let c = s[0];
        let rest = s.drop_first();
        lemma_escaped_text_front(s);
        let p2 = p + escaped_char(c);
        assert(w =~= p2 + escaped_text(rest) + seq!['"'] + t);
        lemma_escaped_read_back(p2, rest, t, true);
        if c == '\\' || c == '"' || c == '\r' || c == '\n' {
            assert(w[j] == '\\');
            assert(p2.len() == j + 2);
            assert(escaped_meaning(w[j + 1]) == c);
        } else {
            assert(w[j] == c);
            assert(p2.len() == j + 1);
        }
        assert(unescaped(w, j) =~= seq![c] + rest);
        assert(seq![c] + rest =~= s);
    }
}

/// Reading back the literal that `escape_string` writes for a text that is
/// not empty gives that text, and the literal spans the whole output.
pub proof fn lemma_escape_roundtrip(s: Seq<char>)
    requires
        s.len() > 0,
    ensures
        literal_at(quoted(s), 0) == Some(Ok::<int, bool>(quoted(s).len() as int)),
        unescaped(quoted(s), 1) == s,
{
    lemma_escaped_read_back(seq!['"'], s, Seq::empty(), false);
    assert(seq!['"'] + escaped_text(s) + seq!['"'] + Seq::<char>::empty() =~= quoted(s));
}

/// A literal read inside a longer text reads the same once cut out of it.
pub proof fn lemma_fragments_end_cut(s: Seq<char>, i: int, j: int, e: int, seen: bool)
    requires
        0 <= i < j,
        fragments_end(s, j, seen) == Ok::<int, bool>(e),
    ensures
        e <= s.len(),
        fragments_end(s.subrange(i, e), j - i, seen) == Ok::<int, bool>(e - i),
    decreases s.len() - j,
{
    lemma_fragments_end_bounds(s, j, seen);
    let t = s.subrange(i, e);
    assert(t[j - i] == s[j]);
    if s[j] == '\\' {
        lemma_fragments_end_bounds(s, j + 2, true);
        lemma_fragments_end_cut(s, i, j + 2, e, true);
    } else if s[j] != '"' {
        lemma_fragments_end_cut(s, i, j + 1, e, true);
    }
}

/// The literal at `i` of `s`, cut out, is one whole literal.
pub proof fn lemma_literal_cut(s: Seq<char>, i: int, e: int)
    requires
        literal_at(s, i) == Some(Ok::<int, bool>(e)),
    ensures
        e <= s.len(),
        literal_at(s.subrange(i, e), 0) == Some(Ok::<int, bool>(e - i)),
{
    lemma_fragments_end_cut(s, i, i + 1, e, false);
    lemma_fragments_end_bounds(s, i + 1, false);
    assert(s.subrange(i, e)[0] == s[i]);
}

} // verus!
