//! Fabricator documents: a list of registers, each a named or anonymous
//! value, and the applications that copy one register onto another, read
//! from text by a hand-written recursive-descent parser.

use vstd::prelude::*;
use vstd::string::StrSliceExecFns;
use vstd::string::StringExecFns;

use crate::fabricator::lists::{
    field_items, index_items, path_segment_items, FieldList, IndexList, PathSegments,
};
use crate::fabricator::string;
use crate::fabricator::structure::{lemma_parsed_document_well_formed, lemma_well_formed_file_imports};
use crate::fabricator::string::{chars_of, literal_at, parse_string, scan_literal, unescaped};

verus! {

// ----------------------------------------------------------------------
// Character classes.

/// Whether `c` has the Unicode `Alphabetic` property.
pub uninterp spec fn alphabetic(c: char) -> bool;

/// Whether `c` is alphabetic or numeric in the Unicode sense.
pub uninterp spec fn alphanumeric(c: char) -> bool;

/// `char::is_alphabetic`, which tells whether `c` has the Unicode
/// `Alphabetic` property; the contract names that answer.
#[verifier::external_body]
fn is_alphabetic(c: char) -> (r: bool)
    ensures
        r == alphabetic(c),
{
    c.is_alphabetic()
}

/// `char::is_alphanumeric`, which tells whether `c` is alphabetic or
/// numeric in the Unicode sense; the contract names that answer.
#[verifier::external_body]
fn is_alphanumeric(c: char) -> (r: bool)
    ensures
        r == alphanumeric(c),
{
    c.is_alphanumeric()
}

/// Whether `c` can start an identifier.
pub open spec fn ident_start(c: char) -> bool {
    alphabetic(c) || c == '$' || c == '_'
}

/// Whether `c` can continue an identifier.
pub open spec fn ident_char(c: char) -> bool {
    alphanumeric(c) || c == '$' || c == '_'
}

/// Whether `c` is blank: a space, a tab, a carriage return or a line feed.
pub open spec fn blank(c: char) -> bool {
    c == ' ' || c == '\t' || c == '\r' || c == '\n'
}

/// Whether `s` holds `c` at `i`.
pub open spec fn at(s: Seq<char>, i: int, c: char) -> bool {
    0 <= i < s.len() && s[i] == c
}

// ----------------------------------------------------------------------
// Whitespace and comments.

/// The first position from `j` that holds `c`.
pub open spec fn find_char(s: Seq<char>, j: int, c: char) -> Option<int>
    decreases s.len() - j,
{
    if j < 0 || j >= s.len() {
        None
    } else if s[j] == c {
        Some(j)
    } else {
        find_char(s, j + 1, c)
    }
}

/// The first position from `j` where `*/` starts.
pub open spec fn find_comment_end(s: Seq<char>, j: int) -> Option<int>
    decreases s.len() - j,
{
    if j < 0 || j + 1 >= s.len() {
        None
    } else if s[j] == '*' && s[j + 1] == '/' {
        Some(j)
    } else {
        find_comment_end(s, j + 1)
    }
}

pub proof fn lemma_find_char(s: Seq<char>, j: int, c: char)
    ensures
        find_char(s, j, c) is Some ==> j <= find_char(s, j, c)->0 < s.len()
            && s[find_char(s, j, c)->0] == c,
    decreases s.len() - j,
{
    if 0 <= j < s.len() && s[j] != c {
        lemma_find_char(s, j + 1, c);
    }
}

pub proof fn lemma_find_comment_end(s: Seq<char>, j: int)
    ensures
        find_comment_end(s, j) is Some ==> j <= find_comment_end(s, j)->0
            && find_comment_end(s, j)->0 + 1 < s.len(),
    decreases s.len() - j,
{
    if 0 <= j && j + 1 < s.len() && !(s[j] == '*' && s[j + 1] == '/') {
        lemma_find_comment_end(s, j + 1);
    }
}

/// Where the blanks and comments from `i` end. A `//` comment runs to the
/// end of its line, a `/*` comment to the next `*/`; either runs to the end
/// of the input when nothing closes it.
pub open spec fn ws_end(s: Seq<char>, i: int) -> int
    decreases s.len() - i,
{
    if i < 0 || i >= s.len() {
        i
    } else if blank(s[i]) {
        ws_end(s, i + 1)
    } else if s[i] == '/' && i + 1 < s.len() && s[i + 1] == '/' {
        match find_char(s, i + 2, '\n') {
            Some(k) => {
                proof {
                    lemma_find_char(s, i + 2, '\n');
                }
                ws_end(s, k + 1)
            },
            None => s.len() as int,
        }
    } else if s[i] == '/' && i + 1 < s.len() && s[i + 1] == '*' {
        match find_comment_end(s, i + 2) {
            Some(k) => {
                proof {
                    lemma_find_comment_end(s, i + 2);
                }
                ws_end(s, k + 2)
            },
            None => s.len() as int,
        }
    } else {
        i
    }
}

pub proof fn lemma_ws_end(s: Seq<char>, i: int)
    requires
        0 <= i <= s.len(),
    ensures
        i <= ws_end(s, i) <= s.len(),
    decreases s.len() - i,
{
    if i < s.len() {
        if blank(s[i]) {
            lemma_ws_end(s, i + 1);
        } else if s[i] == '/' && i + 1 < s.len() && s[i + 1] == '/' {
            lemma_find_char(s, i + 2, '\n');
            if let Some(k) = find_char(s, i + 2, '\n') {
                lemma_ws_end(s, k + 1);
            }
        } else if s[i] == '/' && i + 1 < s.len() && s[i + 1] == '*' {
            lemma_find_comment_end(s, i + 2);
            if let Some(k) = find_comment_end(s, i + 2) {
                lemma_ws_end(s, k + 2);
            }
        }
    }
}

/// Whether position `r` of `s` starts nothing to skip: it is the end of
/// the text, or holds neither a blank nor the start of a comment.
pub open spec fn settled(s: Seq<char>, r: int) -> bool {
    r >= s.len() || !(blank(s[r]) || (s[r] == '/' && r + 1 < s.len() && (s[r + 1] == '/' || s[r + 1] == '*')))
}

/// Skipping blanks and comments from `i` stops at a later position from
/// which there is nothing more to skip, so skipping again stays there. An
/// unclosed comment runs to the end of the text.
pub proof fn lemma_ws_end_settled(s: Seq<char>, i: int)
    requires
        0 <= i <= s.len(),
    ensures
        i <= ws_end(s, i) <= s.len(),
        settled(s, ws_end(s, i)),
        ws_end(s, ws_end(s, i)) == ws_end(s, i),
    decreases s.len() - i,
{
    if i < s.len() {
        if blank(s[i]) {
            lemma_ws_end_settled(s, i + 1);
        } else if s[i] == '/' && i + 1 < s.len() && s[i + 1] == '/' {
            lemma_find_char(s, i + 2, '\n');
            if let Some(k) = find_char(s, i + 2, '\n') {
                lemma_ws_end_settled(s, k + 1);
            }
        } else if s[i] == '/' && i + 1 < s.len() && s[i + 1] == '*' {
            lemma_find_comment_end(s, i + 2);
            if let Some(k) = find_comment_end(s, i + 2) {
                lemma_ws_end_settled(s, k + 2);
            }
        }
    }
}

/// The text a parser reads: the string and its characters.
struct Source<'a> {
    text: &'a str,
    chars: Vec<char>,
}

impl<'a> Source<'a> {
    spec fn wf(&self) -> bool {
        &&& self.chars@ == self.text@
        &&& self.chars@.len() <= usize::MAX / 2
    }

    spec fn s(&self) -> Seq<char> {
        self.chars@
    }

    fn new(text: &'a str) -> (r: Source<'a>)
        requires
            text@.len() <= usize::MAX / 2,
        ensures
            r.wf(),
            r.text == text,
    {
        Source { text, chars: chars_of(text) }
    }

    fn len(&self) -> (r: usize)
        ensures
            r == self.chars@.len(),
    {
        self.chars.len()
    }

    /// Whether position `i` holds `c`.
    fn at(&self, i: usize, c: char) -> (r: bool)
        ensures
            r == at(self.chars@, i as int, c),
    {
        i < self.chars.len() && self.chars[i] == c
    }

    /// The text from `a` to `b`.
    fn slice(&self, a: usize, b: usize) -> (r: &'a str)
        requires
            self.wf(),
            a <= b <= self.chars@.len(),
        ensures
            r@ == self.chars@.subrange(a as int, b as int),
    {
        self.text.substring_char(a, b)
    }
}

/// Where the blanks and comments from `i` end, as `ws_end` says.
fn skip_whitespace(src: &Source, i: usize) -> (r: usize)
    requires
        src.wf(),
        i <= src.chars@.len(),
    ensures
        r == ws_end(src.chars@, i as int),
        i <= r <= src.chars@.len(),
{
    let ghost s = src.chars@;
    let n = src.len();
    let mut k = i;
    proof {
        lemma_ws_end(s, i as int);
    }
    while k < n
        invariant
            s == src.chars@,
            n == s.len(),
            i <= k <= n,
            ws_end(s, k as int) == ws_end(s, i as int),
        decreases n - k,
    {
        let c = src.chars[k];
        if c == ' ' || c == '\t' || c == '\r' || c == '\n' {
            k = k + 1;
        } else if c == '/' && k + 1 < n && src.chars[k + 1] == '/' {
            let mut j = k + 2;
            while j < n && src.chars[j] != '\n'
                invariant
                    s == src.chars@,
                    n == s.len(),
                    k + 2 <= j <= n,
                    find_char(s, j as int, '\n') == find_char(s, k + 2, '\n'),
                decreases n - j,
            {
                j = j + 1;
            }
            if j >= n {
                return n;
            }
            k = j + 1;
        } else if c == '/' && k + 1 < n && src.chars[k + 1] == '*' {
            let mut j = k + 2;
            while j < n - 1 && !(src.chars[j] == '*' && src.chars[j + 1] == '/')
                invariant
                    s == src.chars@,
                    n == s.len(),
                    k + 2 <= j <= n,
                    find_comment_end(s, j as int) == find_comment_end(s, k + 2),
                decreases n - j,
            {
                j = j + 1;
            }
            if j >= n - 1 {
                return n;
            }
            k = j + 2;
        } else {
            return k;
        }
    }
    k
}

// ----------------------------------------------------------------------
// Identifiers, keywords and paths.

/// Where the identifier characters from `j` end.
pub open spec fn ident_run(s: Seq<char>, j: int) -> int
    decreases s.len() - j,
{
    if 0 <= j < s.len() && ident_char(s[j]) {
        ident_run(s, j + 1)
    } else {
        j
    }
}

/// Where the identifier at `i` ends, if one starts there.
pub open spec fn ident_end(s: Seq<char>, i: int) -> Option<int> {
    if 0 <= i < s.len() && ident_start(s[i]) {
        Some(ident_run(s, i + 1))
    } else {
        None
    }
}

pub proof fn lemma_ident_run(s: Seq<char>, j: int)
    requires
        0 <= j <= s.len(),
    ensures
        j <= ident_run(s, j) <= s.len(),
    decreases s.len() - j,
{
    if j < s.len() && ident_char(s[j]) {
        lemma_ident_run(s, j + 1);
    }
}

pub proof fn lemma_ident_end(s: Seq<char>, i: int)
    ensures
        ident_end(s, i) is Some ==> i < ident_end(s, i)->0 <= s.len(),
{
    if 0 <= i < s.len() && ident_start(s[i]) {
        lemma_ident_run(s, i + 1);
    }
}

/// Where the identifier at `i` ends, as `ident_end` says.
fn parse_identifier(src: &Source, i: usize) -> (r: Option<usize>)
    requires
        src.wf(),
        i <= src.chars@.len(),
    ensures
        r is Some <==> ident_end(src.chars@, i as int) is Some,
        r is Some ==> r->0 == ident_end(src.chars@, i as int)->0 && i < r->0 <= src.chars@.len(),
{
    let ghost s = src.chars@;
    let n = src.len();
    if i >= n || !(is_alphabetic(src.chars[i]) || src.chars[i] == '$' || src.chars[i] == '_') {
        return None;
    }
    let mut k = i + 1;
    while k < n && (is_alphanumeric(src.chars[k]) || src.chars[k] == '$' || src.chars[k] == '_')
        invariant
            s == src.chars@,
            n == s.len(),
            i < k <= n,
            ident_run(s, k as int) == ident_run(s, i + 1),
        decreases n - k,
    {
        k = k + 1;
    }
    Some(k)
}

/// Where the keyword `kw` at `i` ends, if the identifier there is `kw`.
pub open spec fn keyword_end(s: Seq<char>, i: int, kw: Seq<char>) -> Option<int> {
    match ident_end(s, i) {
        Some(e) => if s.subrange(i, e) == kw {
            Some(e)
        } else {
            None
        },
        None => None,
    }
}

/// Whether the text from `a` to `b` is `kw`.
fn slice_is(src: &Source, a: usize, b: usize, kw: &str) -> (r: bool)
    requires
        src.wf(),
        a <= b <= src.chars@.len(),
    ensures
        r == (src.chars@.subrange(a as int, b as int) == kw@),
{
    let n = kw.unicode_len();
    if b - a != n {
        assert(src.chars@.subrange(a as int, b as int).len() != kw@.len());
        return false;
    }
    let mut k: usize = 0;
    while k < n
        invariant
            a <= b <= src.chars@.len(),
            n == kw@.len() == b - a,
            k <= n,
            forall|m: int| 0 <= m < k ==> src.chars@[a + m] == kw@[m],
        decreases n - k,
    {
        if src.chars[a + k] != kw.get_char(k) {
            assert(src.chars@.subrange(a as int, b as int)[k as int] != kw@[k as int]);
            return false;
        }
        k = k + 1;
    }
    assert(src.chars@.subrange(a as int, b as int) =~= kw@);
    true
}

/// Where the keyword `kw` at `i` ends, as `keyword_end` says.
fn parse_keyword(src: &Source, i: usize, kw: &str) -> (r: Option<usize>)
    requires
        src.wf(),
        i <= src.chars@.len(),
    ensures
        r is Some <==> keyword_end(src.chars@, i as int, kw@) is Some,
        r is Some ==> r->0 == keyword_end(src.chars@, i as int, kw@)->0 && i < r->0 <= src.chars@.len(),
{
    match parse_identifier(src, i) {
        Some(e) => if slice_is(src, i, e, kw) {
            Some(e)
        } else {
            None
        },
        None => None,
    }
}

/// The rest of a path after its segments so far, `acc`, which end at `r`:
/// each further segment follows `::`, with blanks allowed around it. The
/// result is where the path ends, after the blanks that follow it, and all
/// its segments.
pub open spec fn path_rest(s: Seq<char>, r: int, acc: Seq<Seq<char>>) -> (int, Seq<Seq<char>>)
    decreases s.len() - r,
{
    if r < 0 || r > s.len() {
        (r, acc)
    } else {
        let r2 = ws_end(s, r);
        if at(s, r2, ':') && at(s, r2 + 1, ':') {
            let n = ws_end(s, r2 + 2);
            match ident_end(s, n) {
                Some(e) => {
                    proof {
                        lemma_ws_end(s, r);
                        lemma_ws_end(s, r2 + 2);
                        lemma_ident_end(s, n);
                    }
                    path_rest(s, e, acc.push(s.subrange(n, e)))
                },
                None => (r2, acc),
            }
        } else {
            (r2, acc)
        }
    }
}

/// The path at `i`, if an identifier starts there: where it ends and its
/// segments.
pub open spec fn path_at(s: Seq<char>, i: int) -> Option<(int, Seq<Seq<char>>)> {
    match ident_end(s, i) {
        Some(e) => Some(path_rest(s, e, seq![s.subrange(i, e)])),
        None => None,
    }
}

pub proof fn lemma_path_rest(s: Seq<char>, r: int, acc: Seq<Seq<char>>)
    requires
        0 <= r <= s.len(),
    ensures
        r <= path_rest(s, r, acc).0 <= s.len(),
        path_rest(s, r, acc).1.len() >= acc.len(),
        path_rest(s, r, acc).1.len() <= acc.len() + path_rest(s, r, acc).0 - r,
    decreases s.len() - r,
{
    lemma_ws_end(s, r);
    let r2 = ws_end(s, r);
    if at(s, r2, ':') && at(s, r2 + 1, ':') {
        let n = ws_end(s, r2 + 2);
        lemma_ws_end(s, r2 + 2);
        lemma_ident_end(s, n);
        if let Some(e) = ident_end(s, n) {
            lemma_path_rest(s, e, acc.push(s.subrange(n, e)));
        }
    }
}

pub proof fn lemma_path_at(s: Seq<char>, i: int)
    requires
        0 <= i <= s.len(),
    ensures
        match path_at(s, i) {
            Some((e, p)) => i < e <= s.len() && 1 <= p.len() <= e - i,
            None => true,
        },
{
    lemma_ident_end(s, i);
    if let Some(e) = ident_end(s, i) {
        lemma_path_rest(s, e, seq![s.subrange(i, e)]);
    }
}

// ----------------------------------------------------------------------
// What a document holds.

/// Why a document could not be read, and where: `P` is the position, such
/// as the rest of the input from the offending character.
#[derive(Clone, Debug)]
pub enum ParseError<P> {
    StringError(string::ParseError<P>),
    ExpectedExpression(P),
    UnclosedTuple(P),
    ExpectedIdentifier(P),
    ExpectedColon(P),
    UnclosedStruct(P),
    UnclosedList(P),
    ExpectedKeyword { at: P, keyword: &'static str },
    ExpectedPath(P),
    ExpectedSemiColon(P),
    ExpectedOpenBrace(P),
    ExpectedImportPath(P),
    ExpectedIntRadix(P, u32),
}

/// A path such as `bevy::Transform`: its segments, in order.
pub struct Path<'a>(pub PathSegments<'a>);

impl<'a> View for Path<'a> {
    type V = Seq<Seq<char>>;

    open spec fn view(&self) -> Seq<Seq<char>> {
        path_segment_items(self.0)
    }
}

impl<'a> Clone for Path<'a> {
    /// A path with the same segments.
    fn clone(&self) -> (r: Self)
        ensures
            r@ == self@,
    {
        Path(self.0.clone())
    }
}

impl<'a> Path<'a> {
    /// Whether the path has no segment.
    pub fn is_empty(&self) -> (r: bool)
        ensures
            r == (self@.len() == 0),
    {
        self.0.as_slice().len() == 0
    }

    /// How many segments the path has.
    pub fn len(&self) -> (r: usize)
        ensures
            r == self@.len(),
    {
        self.0.as_slice().len()
    }

    /// The path with no segment.
    pub fn empty() -> (r: Path<'a>)
        ensures
            r@ == Seq::<Seq<char>>::empty(),
    {
        Path(PathSegments::new())
    }

    /// The path with the one segment `segment`.
    pub fn single(segment: &'a str) -> (r: Path<'a>)
        ensures
            r@ == seq![segment@],
    {
        let mut segments = PathSegments::new();
        segments.push(segment);
        Path(segments)
    }

    /// The segments of `self` followed by those of `other`.
    pub fn join(&self, other: &Path<'a>) -> (r: Path<'a>)
        ensures
            r@ == self@ + other@,
    {
        // The slice bounds how many segments `self` has.
        let _ = self.0.as_slice();
        let mut segments = PathSegments::new();
        segments.extend_from(&self.0);
        segments.extend_from(&other.0);
        assert(Seq::<Seq<char>>::empty() + self@ =~= self@);
        Path(segments)
    }

    /// The path with the given segments, in order.
    pub fn from_segments(segments: &[&'a str]) -> (r: Path<'a>)
        requires
            segments@.len() <= usize::MAX / 2,
        ensures
            r@.len() == segments@.len(),
            forall|k: int| 0 <= k < segments@.len() ==> r@[k] == (#[trigger] segments@[k])@,
    {
        let mut out = PathSegments::new();
        let mut i: usize = 0;
        while i < segments.len()
            invariant
                i <= segments@.len() <= usize::MAX / 2,
                path_segment_items(out).len() == i,
                forall|k: int| 0 <= k < i ==> path_segment_items(out)[k] == (#[trigger] segments@[k])@,
            decreases segments@.len() - i,
        {
            out.push(segments[i]);
            i = i + 1;
        }
        Path(out)
    }
}

/// The segments of a path, if there is one.
pub open spec fn opt_path_view(p: Option<Path>) -> Option<Seq<Seq<char>>> {
    match p {
        Some(p) => Some(p@),
        None => None,
    }
}

/// What an import names: a path, or a file given by its quoted name.
pub enum Import<'a> {
    Path(Path<'a>),
    File(&'a str),
}

pub enum ImportView {
    Path(Seq<Seq<char>>),
    File(Seq<char>),
}

impl<'a> View for Import<'a> {
    type V = ImportView;

    open spec fn view(&self) -> ImportView {
        match self {
            Import::Path(p) => ImportView::Path(p@),
            Import::File(f) => ImportView::File(f@),
        }
    }
}

/// A number literal. A decimal literal, with or without a point or an
/// exponent, is kept as written in `F64`: a floating-point value is made
/// from that text outside this library.
#[derive(Clone)]
pub enum Number {
    I64(i64),
    U64(u64),
    F64(String),
}

pub enum NumberView {
    I64(i64),
    U64(u64),
    F64(Seq<char>),
}

impl View for Number {
    type V = NumberView;

    open spec fn view(&self) -> NumberView {
        match self {
            Number::I64(v) => NumberView::I64(*v),
            Number::U64(v) => NumberView::U64(*v),
            Number::F64(t) => NumberView::F64(t@),
        }
    }
}

/// The value of a register. Tuples, structs and lists refer to the
/// registers that hold their elements by index.
pub enum Expression<'a> {
    Number(Number),
    String(&'a str),
    Tuple(Option<Path<'a>>, IndexList),
    Struct(Option<Path<'a>>, FieldList<'a>),
    List(Option<Path<'a>>, IndexList),
    Path(Path<'a>),
    Import(Import<'a>),
}

pub enum ExpressionView {
    Number(NumberView),
    String(Seq<char>),
    Tuple(Option<Seq<Seq<char>>>, Seq<usize>),
    Struct(Option<Seq<Seq<char>>>, Seq<(Seq<char>, usize)>),
    List(Option<Seq<Seq<char>>>, Seq<usize>),
    Path(Seq<Seq<char>>),
    Import(ImportView),
}

impl<'a> View for Expression<'a> {
    type V = ExpressionView;

    open spec fn view(&self) -> ExpressionView {
        match self {
            Expression::Number(n) => ExpressionView::Number(n@),
            Expression::String(t) => ExpressionView::String(t@),
            Expression::Tuple(ty, body) => ExpressionView::Tuple(opt_path_view(*ty), index_items(*body)),
            Expression::Struct(ty, body) => ExpressionView::Struct(opt_path_view(*ty), field_items(*body)),
            Expression::List(ty, body) => ExpressionView::List(opt_path_view(*ty), index_items(*body)),
            Expression::Path(p) => ExpressionView::Path(p@),
            Expression::Import(i) => ExpressionView::Import(i@),
        }
    }
}

impl<'a> Expression<'a> {
    /// The type a tuple or struct expression names, if it names one.
    pub fn type_path(&self) -> (r: Option<Path<'a>>)
        ensures
            opt_path_view(r) == expression_type(self@),
    {
        match self {
            Expression::Tuple(Some(ty), _) => Some(ty.clone()),
            Expression::Struct(Some(ty), _) => Some(ty.clone()),
            _ => None,
        }
    }
}

/// Whether a register is a parameter of the document, a result of it, or
/// neither.
#[derive(Clone, Copy, Debug, PartialEq, Eq, Structural)]
pub enum Visibility {
    Local,
    In,
    Out,
}

impl Default for Visibility {
    fn default() -> (r: Visibility)
        ensures
            r == Visibility::Local,
    {
        Visibility::Local
    }
}

impl Visibility {
    pub open spec fn spec_keyword(self) -> Seq<char> {
        match self {
            Visibility::In => seq!['i', 'n'],
            Visibility::Out => seq!['o', 'u', 't'],
            Visibility::Local => seq!['l', 'o', 'c', 'a', 'l'],
        }
    }

    /// The keyword that declares a register with this visibility.
    pub fn as_keyword(self) -> (r: &'static str)
        ensures
            r@ == self.spec_keyword(),
    {
        proof {
            reveal_strlit("in");
            reveal_strlit("out");
            reveal_strlit("local");
        }
        match self {
            Visibility::In => "in",
            Visibility::Out => "out",
            Visibility::Local => "local",
        }
    }
}

/// One register of a document: its name and visibility where it was
/// declared as a variable, the type it was declared with and whether that
/// type is optional, and its value.
pub struct Register<'a> {
    pub name: Option<&'a str>,
    pub visibility: Visibility,
    pub variable_type: Option<Path<'a>>,
    pub optional: bool,
    pub expression: Option<Expression<'a>>,
}

pub struct RegisterView {
    pub name: Option<Seq<char>>,
    pub visibility: Visibility,
    pub variable_type: Option<Seq<Seq<char>>>,
    pub optional: bool,
    pub expression: Option<ExpressionView>,
}

impl<'a> View for Register<'a> {
    type V = RegisterView;

    open spec fn view(&self) -> RegisterView {
        RegisterView {
            name: match self.name {
                Some(n) => Some(n@),
                None => None,
            },
            visibility: self.visibility,
            variable_type: opt_path_view(self.variable_type),
            optional: self.optional,
            expression: match self.expression {
                Some(e) => Some(e@),
                None => None,
            },
        }
    }
}

/// The type a tuple or struct expression names, if it names one.
pub open spec fn expression_type(e: ExpressionView) -> Option<Seq<Seq<char>>> {
    match e {
        ExpressionView::Tuple(ty, _) => ty,
        ExpressionView::Struct(ty, _) => ty,
        _ => None,
    }
}

/// The anonymous register that holds `e`, typed by the type `e` names.
pub open spec fn expression_register(e: ExpressionView) -> RegisterView {
    RegisterView {
        name: None,
        visibility: Visibility::Local,
        variable_type: expression_type(e),
        optional: false,
        expression: Some(e),
    }
}

impl<'a> Default for Register<'a> {
    /// An anonymous local register with no type and no value.
    fn default() -> (r: Register<'a>)
        ensures
            r.name is None,
            r.visibility == Visibility::Local,
            r.variable_type is None,
            !r.optional,
            r.expression is None,
    {
        Register {
            name: None,
            visibility: Visibility::Local,
            variable_type: None,
            optional: false,
            expression: None,
        }
    }
}

impl<'a> Register<'a> {
    /// The anonymous register that holds `value`, typed by the type that
    /// `value` names.
    pub fn from_expression(value: Expression<'a>) -> (r: Register<'a>)
        ensures
            r@ == expression_register(value@),
    {
        let variable_type = value.type_path();
        Register {
            name: None,
            visibility: Visibility::Local,
            variable_type,
            optional: false,
            expression: Some(value),
        }
    }
}

/// That the value of register `expression` is applied to the entity in
/// register `entity`.
#[derive(Clone, Copy, Debug, PartialEq, Eq, Structural)]
pub struct Application {
    pub entity: usize,
    pub expression: usize,
}

/// A document: its registers, in order, and its applications.
pub struct Document<'a> {
    pub registers: Vec<Register<'a>>,
    pub applications: Vec<Application>,
}

pub struct DocumentView {
    pub registers: Seq<RegisterView>,
    pub applications: Seq<Application>,
}

impl<'a> View for Document<'a> {
    type V = DocumentView;

    open spec fn view(&self) -> DocumentView {
        DocumentView {
            registers: self.registers@.map_values(|r: Register<'a>| r@),
            applications: self.applications@,
        }
    }
}

/// The document with no register and no application.
pub open spec fn empty_document() -> DocumentView {
    DocumentView { registers: Seq::empty(), applications: Seq::empty() }
}

/// `d` with `r` added as its last register.
pub open spec fn with_register(d: DocumentView, r: RegisterView) -> DocumentView {
    DocumentView { registers: d.registers.push(r), applications: d.applications }
}

/// `d` with an anonymous register for `e` added last, and that register's
/// index.
pub open spec fn with_expression(d: DocumentView, e: ExpressionView) -> (DocumentView, usize) {
    (with_register(d, expression_register(e)), d.registers.len() as usize)
}

/// `d` with an application of register `expression` to register `entity`
/// added last.
pub open spec fn with_application(d: DocumentView, entity: usize, expression: usize) -> DocumentView {
    DocumentView {
        registers: d.registers,
        applications: d.applications.push(Application { entity, expression }),
    }
}

impl<'a> Default for Document<'a> {
    /// The empty document.
    fn default() -> (r: Document<'a>)
        ensures
            r@ == empty_document(),
    {
        let r = Document { registers: Vec::new(), applications: Vec::new() };
        assert(r@.registers =~= Seq::<RegisterView>::empty());
        r
    }
}

impl<'a> Document<'a> {
    /// Adds `register` as the last register and gives its index.
    pub fn push_register(&mut self, register: Register<'a>) -> (r: usize)
        ensures
            r == old(self)@.registers.len(),
            final(self)@ == with_register(old(self)@, register@),
    {
        let index = self.registers.len();
        let ghost reg = register@;
        self.registers.push(register);
        assert(self@.registers =~= old(self)@.registers.push(reg));
        index
    }

    /// Adds an anonymous register for `e` and gives its index.
    fn push_expression(&mut self, e: Expression<'a>) -> (r: usize)
        ensures
            (final(self)@, r) == with_expression(old(self)@, e@),
    {
        self.push_register(Register::from_expression(e))
    }

    /// Adds an application of register `expression` to register `entity`.
    fn push_application(&mut self, entity: usize, expression: usize)
        ensures
            final(self)@ == with_application(old(self)@, entity, expression),
    {
        self.applications.push(Application { entity, expression });
        assert(self@.registers =~= old(self)@.registers);
    }
}

// ----------------------------------------------------------------------
// Numbers.

/// The value of `c` as a digit of radix up to sixteen.
pub open spec fn digit_value(c: char) -> Option<u32> {
    if '0' <= c && c <= '9' {
        Some((c as int - '0' as int) as u32)
    } else if 'a' <= c && c <= 'f' {
        Some((c as int - 'a' as int + 10) as u32)
    } else if 'A' <= c && c <= 'F' {
        Some((c as int - 'A' as int + 10) as u32)
    } else {
        None
    }
}

/// Whether `c` is one of `0` to `9`.
pub open spec fn decimal_digit(c: char) -> bool {
    '0' <= c && c <= '9'
}

fn int_char_value(c: char) -> (r: Option<u32>)
    ensures
        r == digit_value(c),
{
    if c >= '0' && c <= '9' {
        Some(c as u32 - '0' as u32)
    } else if c >= 'a' && c <= 'f' {
        Some(c as u32 - 'a' as u32 + 10)
    } else if c >= 'A' && c <= 'F' {
        Some(c as u32 - 'A' as u32 + 10)
    } else {
        None
    }
}

/// The digits of radix `radix` from `j`, with `_` between them ignored:
/// where the last digit read ends (`rest` when none is read) and the value
/// read so far, in 128-bit arithmetic that wraps.
pub open spec fn radix_scan(s: Seq<char>, j: int, radix: u32, rest: int, value: i128) -> (int, i128)
    decreases s.len() - j,
{
    if j < 0 || j >= s.len() {
        (rest, value)
    } else if s[j] == '_' {
        radix_scan(s, j + 1, radix, rest, value)
    } else {
        match digit_value(s[j]) {
            Some(v) => if v < radix {
                radix_scan(s, j + 1, radix, j + 1, value.wrapping_mul(radix as i128).wrapping_add(v as i128))
            } else {
                (rest, value)
            },
            None => (rest, value),
        }
    }
}

pub proof fn lemma_radix_scan(s: Seq<char>, j: int, radix: u32, rest: int, value: i128)
    requires
        0 <= j <= s.len(),
        rest <= j,
    ensures
        rest <= radix_scan(s, j, radix, rest, value).0 <= s.len(),
        radix_scan(s, j, radix, rest, value).0 == rest || j < radix_scan(s, j, radix, rest, value).0,
    decreases s.len() - j,
{
    if j < s.len() {
        if s[j] == '_' {
            lemma_radix_scan(s, j + 1, radix, rest, value);
        } else if let Some(v) = digit_value(s[j]) {
            if v < radix {
                lemma_radix_scan(s, j + 1, radix, j + 1, value.wrapping_mul(radix as i128).wrapping_add(v as i128));
            }
        }
    }
}

/// The sixteen hexadecimal digits in order, letters in lower case.
pub open spec fn hex_digits_lower() -> Seq<char> {
    seq!['0', '1', '2', '3', '4', '5', '6', '7', '8', '9', 'a', 'b', 'c', 'd', 'e', 'f']
}

/// The sixteen hexadecimal digits in order, letters in upper case.
pub open spec fn hex_digits_upper() -> Seq<char> {
    seq!['0', '1', '2', '3', '4', '5', '6', '7', '8', '9', 'A', 'B', 'C', 'D', 'E', 'F']
}

/// Whether `c` is a hexadecimal digit, its letter in either case.
pub open spec fn hex_digit(c: char) -> bool {
    exists|d: int| 0 <= d < 16 && (hex_digits_lower()[d] == c || hex_digits_upper()[d] == c)
}

/// Each hexadecimal digit has its place in the digit order as its value,
/// whichever case its letter is written in.
pub proof fn lemma_hex_digit_value(d: int)
    requires
        0 <= d < 16,
    ensures
        digit_value(hex_digits_lower()[d]) == Some(d as u32),
        digit_value(hex_digits_upper()[d]) == Some(d as u32),
{
    assert('0' as int == 48 && 'a' as int == 97 && 'A' as int == 65 && 'f' as int == 102 && 'F' as int == 70);
    assert('9' as int == 57);
    let l = hex_digits_lower();
    let u = hex_digits_upper();
    if d == 0 { assert(l[d] == '0' && u[d] == '0'); }
    else if d == 1 { assert(l[d] == '1' && u[d] == '1'); }
    else if d == 2 { assert(l[d] == '2' && u[d] == '2'); }
    else if d == 3 { assert(l[d] == '3' && u[d] == '3'); }
    else if d == 4 { assert(l[d] == '4' && u[d] == '4'); }
    else if d == 5 { assert(l[d] == '5' && u[d] == '5'); }
    else if d == 6 { assert(l[d] == '6' && u[d] == '6'); }
    else if d == 7 { assert(l[d] == '7' && u[d] == '7'); }
    else if d == 8 { assert(l[d] == '8' && u[d] == '8'); }
    else if d == 9 { assert(l[d] == '9' && u[d] == '9'); }
    else if d == 10 { assert(l[d] == 'a' && u[d] == 'A'); }
    else if d == 11 { assert(l[d] == 'b' && u[d] == 'B'); }
    else if d == 12 { assert(l[d] == 'c' && u[d] == 'C'); }
    else if d == 13 { assert(l[d] == 'd' && u[d] == 'D'); }
    else if d == 14 { assert(l[d] == 'e' && u[d] == 'E'); }
    else { assert(l[d] == 'f' && u[d] == 'F'); }
}

/// Reading an integer of radix 16 from `j` takes in every character of a
/// text that holds only hexadecimal digits, in either case, from `j` on.
pub proof fn lemma_hex_run_read_whole(s: Seq<char>, j: int, rest: int, value: i128)
    requires
        0 <= j < s.len(),
        forall|k: int| j <= k < s.len() ==> hex_digit(#[trigger] s[k]),
    ensures
        radix_scan(s, j, 16, rest, value).0 == s.len(),
    decreases s.len() - j,
{
    let d = choose|d: int| 0 <= d < 16 && (hex_digits_lower()[d] == s[j] || hex_digits_upper()[d] == s[j]);
    lemma_hex_digit_value(d);
    assert(s[j] != '_') by {
        assert(hex_digit(s[j]));
    }
    let next = value.wrapping_mul(16i128).wrapping_add(d as i128);
    if j + 1 < s.len() {
        lemma_hex_run_read_whole(s, j + 1, j + 1, next);
    }
}

/// The integer of radix `radix` at `i`, negated when `negative`: one that
/// fits an `i64` after truncation, or any negative one, is an `I64`,
/// others a `U64`.
pub open spec fn int_radix_at(s: Seq<char>, i: int, radix: u32, negative: bool) -> Result<(int, NumberView), ParseError<usize>> {
    let (rest, value) = radix_scan(s, i, radix, i, 0);
    if rest == i {
        Err(ParseError::ExpectedIntRadix(i as usize, radix))
    } else if negative || value == (value as i64) as i128 {
        Ok((rest, NumberView::I64((value as i64).wrapping_mul(if negative { -1i64 } else { 1i64 }))))
    } else {
        Ok((rest, NumberView::U64(value as u64)))
    }
}

/// Two hexadecimal digits, each in either case, read as radix 16 give
/// sixteen times the first digit's value plus the second's.
pub proof fn lemma_hex_pair_value(a: int, b: int, upper_a: bool, upper_b: bool)
    requires
        0 <= a < 16,
        0 <= b < 16,
    ensures
        ({
            let ca = if upper_a { hex_digits_upper()[a] } else { hex_digits_lower()[a] };
            let cb = if upper_b { hex_digits_upper()[b] } else { hex_digits_lower()[b] };
            int_radix_at(seq![ca, cb], 0, 16, false) == Ok::<(int, NumberView), ParseError<usize>>(
                (2, NumberView::I64((16 * a + b) as i64)),
            )
        }),
{
    let ca = if upper_a { hex_digits_upper()[a] } else { hex_digits_lower()[a] };
    let cb = if upper_b { hex_digits_upper()[b] } else { hex_digits_lower()[b] };
    let s = seq![ca, cb];
    lemma_hex_digit_value(a);
    lemma_hex_digit_value(b);
    assert(ca != '_' && cb != '_');
    let v1 = (0i128).wrapping_mul(16i128).wrapping_add(a as i128);
    assert(v1 == a as i128);
    let v2 = v1.wrapping_mul(16i128).wrapping_add(b as i128);
    assert(v2 == (16 * a + b) as i128);
    assert(radix_scan(s, 2, 16, 2, v2) == (2int, v2));
    assert(radix_scan(s, 1, 16, 1, v1) == (2int, v2));
    assert(radix_scan(s, 0, 16, 0, 0) == (2int, v2));
    assert((v2 as i64) as i128 == v2);
    assert(((v2 as i64).wrapping_mul(1i64)) == (16 * a + b) as i64);
}

/// A minus sign negates the integer that follows it: reading with `negative`
/// set ends where reading without it does, fails where it fails, and gives
/// the negated value of an integer that fits an `i64`.
pub proof fn lemma_int_radix_negated(s: Seq<char>, i: int, radix: u32)
    ensures
        int_radix_at(s, i, radix, false) is Err ==> int_radix_at(s, i, radix, true) == int_radix_at(s, i, radix, false),
        (match int_radix_at(s, i, radix, false) {
            Ok((e, NumberView::I64(x))) => x != i64::MIN ==> int_radix_at(s, i, radix, true) == Ok::<
                (int, NumberView),
                ParseError<usize>,
            >((e, NumberView::I64((-x) as i64))),
            _ => true,
        }),
{
    let (rest, value) = radix_scan(s, i, radix, i, 0);
    let x = value as i64;
    assert(x.wrapping_mul(1i64) == x);
    if x != i64::MIN {
        assert(x.wrapping_mul(-1i64) == (-x) as i64);
    }
}

fn parse_int_radix(src: &Source, i: usize, radix: u32, negative: bool) -> (r: Result<(usize, Number), ParseError<usize>>)
    requires
        src.wf(),
        i <= src.chars@.len(),
    ensures
        match int_radix_at(src.chars@, i as int, radix, negative) {
            Ok((e, n)) => r is Ok && r->Ok_0.0 == e && r->Ok_0.1@ == n && i < e <= src.chars@.len(),
            Err(err) => r == Err::<(usize, Number), ParseError<usize>>(err),
        },
{
    let ghost s = src.chars@;
    let n = src.len();
    let mut k = i;
    let mut rest = i;
    let mut value: i128 = 0;
    let mut done = false;
    proof {
        lemma_radix_scan(s, i as int, radix, i as int, 0);
    }
    while k < n && !done
        invariant
            s == src.chars@,
            n == s.len(),
            i <= rest <= k <= n,
            done ==> radix_scan(s, i as int, radix, i as int, 0) == (rest as int, value),
            !done ==> radix_scan(s, k as int, radix, rest as int, value) == radix_scan(s, i as int, radix, i as int, 0),
        decreases n - k + if done { 0int } else { 1int },
    {
        let c = src.chars[k];
        if c == '_' {
            k = k + 1;
        } else {
            match int_char_value(c) {
                Some(v) => {
                    if v < radix {
                        value = value.wrapping_mul(radix as i128).wrapping_add(v as i128);
                        k = k + 1;
                        rest = k;
                    } else {
                        done = true;
                    }
                },
                None => {
                    done = true;
                },
            }
        }
    }
    proof {
        lemma_radix_scan(s, i as int, radix, i as int, 0);
    }
    if rest == i {
        return Err(ParseError::ExpectedIntRadix(i, radix));
    }
    if negative || value == (value as i64) as i128 {
        let mul: i64 = if negative { -1 } else { 1 };
        Ok((rest, Number::I64((value as i64).wrapping_mul(mul))))
    } else {
        Ok((rest, Number::U64(value as u64)))
    }
}

/// Where the run of decimal digits and `_` from `j` ends.
pub open spec fn digits_run(s: Seq<char>, j: int) -> int
    decreases s.len() - j,
{
    if 0 <= j < s.len() && (decimal_digit(s[j]) || s[j] == '_') {
        digits_run(s, j + 1)
    } else {
        j
    }
}

pub proof fn lemma_digits_run(s: Seq<char>, j: int)
    requires
        0 <= j <= s.len(),
    ensures
        j <= digits_run(s, j) <= s.len(),
    decreases s.len() - j,
{
    if j < s.len() && (decimal_digit(s[j]) || s[j] == '_') {
        lemma_digits_run(s, j + 1);
    }
}

/// Whether a decimal digit stands between `a` and `b`.
pub open spec fn has_digit(s: Seq<char>, a: int, b: int) -> bool {
    exists|k: int| a <= k < b && decimal_digit(#[trigger] s[k])
}

/// Where the decimal literal at `i` ends: digits (with `_`), then
/// optionally a point and more digits, then optionally `e` or `E`, a sign
/// and at least one digit. Before the point, or after it when nothing came
/// before, there must be a digit.
pub open spec fn float_end(s: Seq<char>, i: int) -> Option<int> {
    let d1 = digits_run(s, i);
    let needs_digits = !has_digit(s, i, d1);
    let has_dot = at(s, d1, '.');
    if !has_dot && needs_digits {
        None
    } else {
        let r = if has_dot { digits_run(s, d1 + 1) } else { d1 };
        if has_dot && needs_digits && r == d1 + 1 {
            None
        } else if at(s, r, 'e') || at(s, r, 'E') {
            let k = if at(s, r + 1, '+') || at(s, r + 1, '-') { r + 2 } else { r + 1 };
            let d3 = digits_run(s, k);
            if d3 == k {
                None
            } else {
                Some(d3)
            }
        } else {
            Some(r)
        }
    }
}

fn digit_run(src: &Source, j: usize) -> (r: usize)
    requires
        src.wf(),
        j <= src.chars@.len(),
    ensures
        r == digits_run(src.chars@, j as int),
        j <= r <= src.chars@.len(),
{
    let ghost s = src.chars@;
    let n = src.len();
    let mut k = j;
    proof {
        lemma_digits_run(s, j as int);
    }
    while k < n && ((src.chars[k] >= '0' && src.chars[k] <= '9') || src.chars[k] == '_')
        invariant
            s == src.chars@,
            n == s.len(),
            j <= k <= n,
            digits_run(s, k as int) == digits_run(s, j as int),
        decreases n - k,
    {
        k = k + 1;
    }
    k
}

fn any_digit(src: &Source, a: usize, b: usize) -> (r: bool)
    requires
        src.wf(),
        a <= b <= src.chars@.len(),
    ensures
        r == has_digit(src.chars@, a as int, b as int),
{
    let mut k = a;
    while k < b
        invariant
            a <= k <= b <= src.chars@.len(),
            forall|m: int| a <= m < k ==> !decimal_digit(#[trigger] src.chars@[m]),
        decreases b - k,
    {
        if src.chars[k] >= '0' && src.chars[k] <= '9' {
            return true;
        }
        k = k + 1;
    }
    false
}

fn parse_float(src: &Source, i: usize) -> (r: Option<usize>)
    requires
        src.wf(),
        i <= src.chars@.len(),
    ensures
        match float_end(src.chars@, i as int) {
            Some(e) => r == Some(e as usize) && i < e <= src.chars@.len(),
            None => r is None,
        },
{
    let ghost s = src.chars@;
    let d1 = digit_run(src, i);
    let needs_digits = !any_digit(src, i, d1);
    let has_dot = src.at(d1, '.');
    if !has_dot && needs_digits {
        return None;
    }
    let r = if has_dot { digit_run(src, d1 + 1) } else { d1 };
    if has_dot && needs_digits && r == d1 + 1 {
        return None;
    }
    assert(i < r) by {
        if i == r {
            assert(!has_dot);
            assert(d1 == i);
            assert(!has_digit(s, i as int, d1 as int));
        }
    }
    if src.at(r, 'e') || src.at(r, 'E') {
        let k = if src.at(r + 1, '+') || src.at(r + 1, '-') { r + 2 } else { r + 1 };
        let d3 = digit_run(src, k);
        if d3 == k {
            None
        } else {
            Some(d3)
        }
    } else {
        Some(r)
    }
}

/// The number at `i`: an optional sign, then either `0x`, `0o` or `0b` and
/// an integer of that radix, or a decimal literal (which has no sign). An
/// error only when a radix prefix has no digit after it.
pub open spec fn number_at(s: Seq<char>, i: int) -> Result<Option<(int, NumberView)>, ParseError<usize>> {
    let signed = at(s, i, '+') || at(s, i, '-');
    let j = if signed { i + 1 } else { i };
    let negative = at(s, i, '-');
    if at(s, j, '0') && (at(s, j + 1, 'x') || at(s, j + 1, 'o') || at(s, j + 1, 'b')) {
        let radix: u32 = if at(s, j + 1, 'x') { 16 } else if at(s, j + 1, 'o') { 8 } else { 2 };
        match int_radix_at(s, j + 2, radix, negative) {
            Ok((e, n)) => Ok(Some((e, n))),
            Err(err) => Err(err),
        }
    } else {
        match float_end(s, i) {
            Some(e) => Ok(Some((e, NumberView::F64(s.subrange(i, e))))),
            None => Ok(None),
        }
    }
}

fn parse_number(src: &Source, i: usize) -> (r: Result<Option<(usize, Number)>, ParseError<usize>>)
    requires
        src.wf(),
        i <= src.chars@.len(),
    ensures
        match number_at(src.chars@, i as int) {
            Ok(Some((e, n))) => r is Ok && r->Ok_0 is Some && r->Ok_0->Some_0.0 == e
                && r->Ok_0->Some_0.1@ == n && i < e <= src.chars@.len(),
            Ok(None) => r is Ok && r->Ok_0 is None,
            Err(err) => r == Err::<Option<(usize, Number)>, ParseError<usize>>(err),
        },
{
    let signed = src.at(i, '+') || src.at(i, '-');
    let j = if signed { i + 1 } else { i };
    let negative = src.at(i, '-');
    if src.at(j, '0') && (src.at(j + 1, 'x') || src.at(j + 1, 'o') || src.at(j + 1, 'b')) {
        let radix: u32 = if src.at(j + 1, 'x') { 16 } else if src.at(j + 1, 'o') { 8 } else { 2 };
        match parse_int_radix(src, j + 2, radix, negative) {
            Ok((e, n)) => Ok(Some((e, n))),
            Err(err) => Err(err),
        }
    } else {
        match parse_float(src, i) {
            Some(e) => Ok(Some((e, Number::F64(String::from_str(src.slice(i, e)))))),
            None => Ok(None),
        }
    }
}

// ----------------------------------------------------------------------
// Paths and expressions.

fn parse_path<'a>(src: &Source<'a>, i: usize) -> (r: Option<(usize, Path<'a>)>)
    requires
        src.wf(),
        i <= src.chars@.len(),
    ensures
        match path_at(src.chars@, i as int) {
            Some((e, p)) => r is Some && (r->0).0 == e && (r->0).1@ == p && i < e <= src.chars@.len(),
            None => r is None,
        },
{
    let ghost s = src.chars@;
    let n = src.len();
    let e = match parse_identifier(src, i) {
        Some(e) => e,
        None => return None,
    };
    let mut result = PathSegments::new();
    result.push(src.slice(i, e));
    let ghost first = seq![s.subrange(i as int, e as int)];
    assert(path_segment_items(result) == first);
    let mut rest = e;
    proof {
        lemma_path_rest(s, e as int, first);
    }
    assert(path_at(s, i as int) == Some(path_rest(s, e as int, first)));
    loop
        invariant
            src.wf(),
            s == src.chars@,
            n == s.len(),
            i < rest <= n,
            path_rest(s, rest as int, path_segment_items(result)) == path_rest(s, e as int, first),
            path_segment_items(result).len() <= rest - i,
            path_rest(s, e as int, first).0 > i,
            path_at(s, i as int) == Some(path_rest(s, e as int, first)),
        decreases n - rest,
    {
        let r2 = skip_whitespace(src, rest);
        if !(src.at(r2, ':') && src.at(r2 + 1, ':')) {
            return Some((r2, Path(result)));
        }
        let next = skip_whitespace(src, r2 + 2);
        match parse_identifier(src, next) {
            Some(e2) => {
                result.push(src.slice(next, e2));
                rest = e2;
            },
            None => {
                return Some((r2, Path(result)));
            },
        }
    }
}

/// The error for a string literal at `i` that cannot be read.
pub open spec fn string_error(i: int, empty: bool) -> ParseError<usize> {
    ParseError::StringError(
        if empty {
            string::ParseError::EmptyString(i as usize)
        } else {
            string::ParseError::UnclosedString(i as usize)
        },
    )
}

/// The end of a tuple body (closed by `)`) or a list body (closed by `]`)
/// whose items end at `r`.
pub open spec fn items_closed(d: DocumentView, s: Seq<char>, r: int, close: char, body: Seq<usize>) -> Result<(DocumentView, int, Seq<usize>), ParseError<usize>> {
    if at(s, r, close) {
        Ok((d, r + 1, body))
    } else if close == ')' {
        Err(ParseError::UnclosedTuple(r as usize))
    } else {
        Err(ParseError::UnclosedList(r as usize))
    }
}

/// The end of a struct body whose fields end at `r`.
pub open spec fn fields_closed(d: DocumentView, s: Seq<char>, r: int, body: Seq<(Seq<char>, usize)>) -> Result<(DocumentView, int, Seq<(Seq<char>, usize)>), ParseError<usize>> {
    if at(s, r, '}') {
        Ok((d, r + 1, body))
    } else {
        Err(ParseError::UnclosedStruct(r as usize))
    }
}

/// The items of a tuple or list body from `r`, after those in `body`: each
/// an expression, separated by commas, a trailing comma allowed, up to
/// `close`. Each item is added to `d` as a register and its index to the
/// body. Every expression reads at least one character; the comparison of
/// `next` with `r1` only keeps this definition well founded.
pub open spec fn items_from(d: DocumentView, s: Seq<char>, r: int, close: char, body: Seq<usize>) -> Result<(DocumentView, int, Seq<usize>), ParseError<usize>>
    decreases s.len() - r, 4int,
{
    if r < 0 || r >= s.len() {
        items_closed(d, s, r, close, body)
    } else {
        let r1 = ws_end(s, r);
        if at(s, r1, close) {
            items_closed(d, s, r1, close, body)
        } else {
            proof {
                lemma_ws_end(s, r);
            }
            match expression_at(d, s, r1) {
                Err(e) => Err(e),
                Ok(None) => Err(ParseError::ExpectedExpression(r1 as usize)),
                Ok(Some((d2, next, x))) => {
                    let (d3, index) = with_expression(d2, x);
                    let r2 = ws_end(s, next);
                    if !at(s, r2, ',') {
                        items_closed(d3, s, r2, close, body.push(index))
                    } else if r1 < next <= s.len() {
                        proof {
                            lemma_ws_end(s, next);
                            lemma_ws_end(s, r2 + 1);
                        }
                        items_from(d3, s, ws_end(s, r2 + 1), close, body.push(index))
                    } else {
                        items_closed(d3, s, r2, close, body.push(index))
                    }
                },
            }
        }
    }
}

/// The fields of a struct body from `r`, after those in `body`: each a
/// name, alone (a path to a register of that name) or followed by `:` and
/// an expression, separated by commas, a trailing comma allowed, up to `}`.
pub open spec fn fields_from(d: DocumentView, s: Seq<char>, r: int, body: Seq<(Seq<char>, usize)>) -> Result<(DocumentView, int, Seq<(Seq<char>, usize)>), ParseError<usize>>
    decreases s.len() - r, 4int,
{
    if r < 0 || r >= s.len() {
        fields_closed(d, s, r, body)
    } else {
        let r1 = ws_end(s, r);
        if at(s, r1, '}') {
            fields_closed(d, s, r1, body)
        } else {
            match ident_end(s, r1) {
                None => Err(ParseError::ExpectedIdentifier(r1 as usize)),
                Some(ke) => {
                    proof {
                        lemma_ws_end(s, r);
                        lemma_ident_end(s, r1);
                        lemma_ws_end(s, ke);
                    }
                    let key = s.subrange(r1, ke);
                    let r2 = ws_end(s, ke);
                    if at(s, r2, ',') || at(s, r2, '}') {
                        let (d2, index) = with_expression(d, ExpressionView::Path(seq![key]));
                        let body2 = body.push((key, index));
                        if !at(s, r2, ',') {
                            fields_closed(d2, s, r2, body2)
                        } else {
                            proof {
                                lemma_ws_end(s, r2 + 1);
                            }
                            fields_from(d2, s, ws_end(s, r2 + 1), body2)
                        }
                    } else if !at(s, r2, ':') {
                        Err(ParseError::ExpectedColon(r2 as usize))
                    } else {
                        let r3 = ws_end(s, r2 + 1);
                        proof {
                            lemma_ws_end(s, r2 + 1);
                        }
                        match expression_at(d, s, r3) {
                            Err(e) => Err(e),
                            Ok(None) => Err(ParseError::ExpectedExpression(r3 as usize)),
                            Ok(Some((d2, next, x))) => {
                                let (d3, index) = with_expression(d2, x);
                                let body2 = body.push((key, index));
                                let r4 = ws_end(s, next);
                                if !at(s, r4, ',') {
                                    fields_closed(d3, s, r4, body2)
                                } else if r3 < next <= s.len() {
                                    proof {
                                        lemma_ws_end(s, next);
                                        lemma_ws_end(s, r4 + 1);
                                    }
                                    fields_from(d3, s, ws_end(s, r4 + 1), body2)
                                } else {
                                    fields_closed(d3, s, r4, body2)
                                }
                            },
                        }
                    }
                },
            }
        }
    }
}

/// The expression at `i`, read into `d`: a number, a string literal, a
/// tuple, struct or list body (each optionally after a path that names its
/// type), or a path. `Ok(None)` when none starts there.
pub open spec fn expression_at(d: DocumentView, s: Seq<char>, i: int) -> Result<Option<(DocumentView, int, ExpressionView)>, ParseError<usize>>
    decreases s.len() - i, 3int,
{
    if i < 0 || i > s.len() {
        Ok(None)
    } else {
        match number_at(s, i) {
            Err(e) => Err(e),
            Ok(Some((e, n))) => Ok(Some((d, e, ExpressionView::Number(n)))),
            Ok(None) => match literal_at(s, i) {
                Some(Ok(e)) => Ok(Some((d, e, ExpressionView::String(s.subrange(i, e))))),
                Some(Err(empty)) => Err(string_error(i, empty)),
                None => if at(s, i, '(') {
                    match items_from(d, s, i + 1, ')', Seq::empty()) {
                        Err(e) => Err(e),
                        Ok((d2, e, body)) => Ok(Some((d2, e, ExpressionView::Tuple(None, body)))),
                    }
                } else if at(s, i, '{') {
                    match fields_from(d, s, i + 1, Seq::empty()) {
                        Err(e) => Err(e),
                        Ok((d2, e, body)) => Ok(Some((d2, e, ExpressionView::Struct(None, body)))),
                    }
                } else if at(s, i, '[') {
                    match items_from(d, s, i + 1, ']', Seq::empty()) {
                        Err(e) => Err(e),
                        Ok((d2, e, body)) => Ok(Some((d2, e, ExpressionView::List(None, body)))),
                    }
                } else {
                    match path_at(s, i) {
                        None => Ok(None),
                        Some((pe, p)) => {
                            proof {
                                lemma_path_at(s, i);
                                lemma_ws_end(s, pe);
                            }
                            let rest = ws_end(s, pe);
                            if at(s, rest, '(') {
                                match items_from(d, s, rest + 1, ')', Seq::empty()) {
                                    Err(e) => Err(e),
                                    Ok((d2, e, body)) => Ok(Some((d2, e, ExpressionView::Tuple(Some(p), body)))),
                                }
                            } else if at(s, rest, '{') {
                                match fields_from(d, s, rest + 1, Seq::empty()) {
                                    Err(e) => Err(e),
                                    Ok((d2, e, body)) => Ok(Some((d2, e, ExpressionView::Struct(Some(p), body)))),
                                }
                            } else if at(s, rest, '[') {
                                match items_from(d, s, rest + 1, ']', Seq::empty()) {
                                    Err(e) => Err(e),
                                    Ok((d2, e, body)) => Ok(Some((d2, e, ExpressionView::List(Some(p), body)))),
                                }
                            } else {
                                Ok(Some((d, rest, ExpressionView::Path(p))))
                            }
                        },
                    }
                },
            },
        }
    }
}

fn close_items(src: &Source, r: usize, close: char, body: IndexList) -> (res: Result<(usize, IndexList), ParseError<usize>>)
    requires
        src.wf(),
        r <= src.chars@.len(),
    ensures
        match items_closed(empty_document(), src.chars@, r as int, close, index_items(body)) {
            Ok((_, e, b)) => res is Ok && res->Ok_0.0 == e && index_items(res->Ok_0.1) == b && r < e,
            Err(err) => res == Err::<(usize, IndexList), ParseError<usize>>(err),
        },
{
    if src.at(r, close) {
        Ok((r + 1, body))
    } else if close == ')' {
        Err(ParseError::UnclosedTuple(r))
    } else {
        Err(ParseError::UnclosedList(r))
    }
}

fn parse_items<'a>(src: &Source<'a>, doc: &mut Document<'a>, start: usize, close: char) -> (r: Result<(usize, IndexList), ParseError<usize>>)
    requires
        src.wf(),
        0 < start <= src.chars@.len(),
    ensures
        match items_from(old(doc)@, src.chars@, start as int, close, Seq::empty()) {
            Ok((d2, e, body)) => r is Ok && r->Ok_0.0 == e && index_items(r->Ok_0.1) == body
                && final(doc)@ == d2 && start < e <= src.chars@.len(),
            Err(err) => r == Err::<(usize, IndexList), ParseError<usize>>(err),
        },
    decreases src.chars@.len() - start, 4int,
{
    let ghost s = src.chars@;
    let n = src.len();
    let mut body = IndexList::new();
    let mut rest = start;
    while rest < n
        invariant
            src.wf(),
            s == src.chars@,
            n == s.len(),
            0 < start <= rest <= n,
            items_from(doc@, s, rest as int, close, index_items(body))
                == items_from(old(doc)@, s, start as int, close, Seq::empty()),
            index_items(body).len() <= rest - start,
        decreases n - rest,
    {
        let r1 = skip_whitespace(src, rest);
        if src.at(r1, close) {
            return close_items(src, r1, close, body);
        }
        match parse_expression(src, doc, r1) {
            Err(e) => {
                return Err(e);
            },
            Ok(None) => {
                return Err(ParseError::ExpectedExpression(r1));
            },
            Ok(Some((next, x))) => {
                let index = doc.push_expression(x);
                body.push(index);
                let r2 = skip_whitespace(src, next);
                if !src.at(r2, ',') {
                    return close_items(src, r2, close, body);
                }
                rest = skip_whitespace(src, r2 + 1);
            },
        }
    }
    close_items(src, rest, close, body)
}

fn close_fields<'a>(src: &Source<'a>, r: usize, body: FieldList<'a>) -> (res: Result<(usize, FieldList<'a>), ParseError<usize>>)
    requires
        src.wf(),
        r <= src.chars@.len(),
    ensures
        match fields_closed(empty_document(), src.chars@, r as int, field_items(body)) {
            Ok((_, e, b)) => res is Ok && res->Ok_0.0 == e && field_items(res->Ok_0.1) == b && r < e,
            Err(err) => res == Err::<(usize, FieldList<'a>), ParseError<usize>>(err),
        },
{
    if src.at(r, '}') {
        Ok((r + 1, body))
    } else {
        Err(ParseError::UnclosedStruct(r))
    }
}

fn parse_fields<'a>(src: &Source<'a>, doc: &mut Document<'a>, start: usize) -> (r: Result<(usize, FieldList<'a>), ParseError<usize>>)
    requires
        src.wf(),
        0 < start <= src.chars@.len(),
    ensures
        match fields_from(old(doc)@, src.chars@, start as int, Seq::empty()) {
            Ok((d2, e, body)) => r is Ok && r->Ok_0.0 == e && field_items(r->Ok_0.1) == body
                && final(doc)@ == d2 && start < e <= src.chars@.len(),
            Err(err) => r == Err::<(usize, FieldList<'a>), ParseError<usize>>(err),
        },
    decreases src.chars@.len() - start, 4int,
{
    let ghost s = src.chars@;
    let n = src.len();
    let mut body = FieldList::new();
    let mut rest = start;
    while rest < n
        invariant
            src.wf(),
            s == src.chars@,
            n == s.len(),
            0 < start <= rest <= n,
            fields_from(doc@, s, rest as int, field_items(body))
                == fields_from(old(doc)@, s, start as int, Seq::empty()),
            field_items(body).len() <= rest - start,
        decreases n - rest,
    {
        let r1 = skip_whitespace(src, rest);
        if src.at(r1, '}') {
            return close_fields(src, r1, body);
        }
        let ke = match parse_identifier(src, r1) {
            Some(ke) => ke,
            None => {
                return Err(ParseError::ExpectedIdentifier(r1));
            },
        };
        let key = src.slice(r1, ke);
        let r2 = skip_whitespace(src, ke);
        if src.at(r2, ',') || src.at(r2, '}') {
            let index = doc.push_expression(Expression::Path(Path::single(key)));
            body.push(key, index);
            if !src.at(r2, ',') {
                return close_fields(src, r2, body);
            }
            rest = skip_whitespace(src, r2 + 1);
        } else if !src.at(r2, ':') {
            return Err(ParseError::ExpectedColon(r2));
        } else {
            let r3 = skip_whitespace(src, r2 + 1);
            match parse_expression(src, doc, r3) {
                Err(e) => {
                    return Err(e);
                },
                Ok(None) => {
                    return Err(ParseError::ExpectedExpression(r3));
                },
                Ok(Some((next, x))) => {
                    let index = doc.push_expression(x);
                    body.push(key, index);
                    let r4 = skip_whitespace(src, next);
                    if !src.at(r4, ',') {
                        return close_fields(src, r4, body);
                    }
                    rest = skip_whitespace(src, r4 + 1);
                },
            }
        }
    }
    close_fields(src, rest, body)
}

fn parse_expression<'a>(src: &Source<'a>, doc: &mut Document<'a>, i: usize) -> (r: Result<Option<(usize, Expression<'a>)>, ParseError<usize>>)
    requires
        src.wf(),
        i <= src.chars@.len(),
    ensures
        match expression_at(old(doc)@, src.chars@, i as int) {
            Ok(Some((d2, e, x))) => r is Ok && r->Ok_0 is Some && r->Ok_0->Some_0.0 == e
                && r->Ok_0->Some_0.1@ == x && final(doc)@ == d2 && i < e <= src.chars@.len(),
            Ok(None) => r is Ok && r->Ok_0 is None && final(doc)@ == old(doc)@,
            Err(err) => r == Err::<Option<(usize, Expression<'a>)>, ParseError<usize>>(err),
        },
    decreases src.chars@.len() - i, 3int,
{
    match parse_number(src, i) {
        Err(e) => {
            return Err(e);
        },
        Ok(Some((e, n))) => {
            return Ok(Some((e, Expression::Number(n))));
        },
        Ok(None) => {},
    }
    match scan_literal(&src.chars, i) {
        Some(Ok(e)) => {
            return Ok(Some((e, Expression::String(src.slice(i, e)))));
        },
        Some(Err(true)) => {
            return Err(ParseError::StringError(string::ParseError::EmptyString(i)));
        },
        Some(Err(false)) => {
            return Err(ParseError::StringError(string::ParseError::UnclosedString(i)));
        },
        None => {},
    }
    if src.at(i, '(') {
        return match parse_items(src, doc, i + 1, ')') {
            Ok((e, body)) => Ok(Some((e, Expression::Tuple(None, body)))),
            Err(err) => Err(err),
        };
    }
    if src.at(i, '{') {
        return match parse_fields(src, doc, i + 1) {
            Ok((e, body)) => Ok(Some((e, Expression::Struct(None, body)))),
            Err(err) => Err(err),
        };
    }
    if src.at(i, '[') {
        return match parse_items(src, doc, i + 1, ']') {
            Ok((e, body)) => Ok(Some((e, Expression::List(None, body)))),
            Err(err) => Err(err),
        };
    }
    match parse_path(src, i) {
        None => Ok(None),
        Some((pe, path)) => {
            let rest = skip_whitespace(src, pe);
            if src.at(rest, '(') {
                match parse_items(src, doc, rest + 1, ')') {
                    Ok((e, body)) => Ok(Some((e, Expression::Tuple(Some(path), body)))),
                    Err(err) => Err(err),
                }
            } else if src.at(rest, '{') {
                match parse_fields(src, doc, rest + 1) {
                    Ok((e, body)) => Ok(Some((e, Expression::Struct(Some(path), body)))),
                    Err(err) => Err(err),
                }
            } else if src.at(rest, '[') {
                match parse_items(src, doc, rest + 1, ']') {
                    Ok((e, body)) => Ok(Some((e, Expression::List(Some(path), body)))),
                    Err(err) => Err(err),
                }
            } else {
                Ok(Some((rest, Expression::Path(path))))
            }
        },
    }
}

// ----------------------------------------------------------------------
// Statements.

/// The register an import makes: named `name`, holding `e`.
pub open spec fn import_register(name: Seq<char>, e: ImportView) -> RegisterView {
    RegisterView {
        name: Some(name),
        visibility: Visibility::Local,
        variable_type: None,
        optional: false,
        expression: Some(ExpressionView::Import(e)),
    }
}

/// The keyword `as`.
pub open spec fn as_keyword() -> Seq<char> {
    seq!['a', 's']
}

/// The keyword `import`.
pub open spec fn import_keyword() -> Seq<char> {
    seq!['i', 'm', 'p', 'o', 'r', 't']
}

/// A path import at `i`, below the path `root`: a path, then either `::`
/// and a braced group of imports below it, or an optional `as` and a name.
/// The imported path becomes a register named by the name after `as`, or
/// by its last segment.
pub open spec fn path_import_at(d: DocumentView, s: Seq<char>, i: int, root: Seq<Seq<char>>) -> Result<Option<(DocumentView, int)>, ParseError<usize>>
    decreases s.len() - i, 0int,
{
    if i < 0 || i > s.len() {
        Ok(None)
    } else {
        match path_at(s, i) {
            None => Ok(None),
            Some((pe, p)) => {
                proof {
                    lemma_path_at(s, i);
                    lemma_ws_end(s, pe);
                }
                let rest = ws_end(s, pe);
                let path = root + p;
                if at(s, rest, ':') && at(s, rest + 1, ':') {
                    proof {
                        lemma_ws_end(s, rest + 2);
                    }
                    let r1 = ws_end(s, rest + 2);
                    if !at(s, r1, '{') {
                        Err(ParseError::ExpectedOpenBrace(r1 as usize))
                    } else {
                        proof {
                            lemma_ws_end(s, r1 + 1);
                        }
                        import_group(d, s, ws_end(s, r1 + 1), path)
                    }
                } else {
                    match keyword_end(s, rest, as_keyword()) {
                        Some(k) => {
                            let r2 = ws_end(s, k);
                            match ident_end(s, r2) {
                                None => Err(ParseError::ExpectedIdentifier(r2 as usize)),
                                Some(ne) => Ok(Some((with_register(d, import_register(s.subrange(r2, ne), ImportView::Path(path))), ne))),
                            }
                        },
                        None => Ok(Some((with_register(d, import_register(path.last(), ImportView::Path(path))), rest))),
                    }
                }
            },
        }
    }
}

/// The braced group of imports below `path` whose body goes on at `r`:
/// path imports separated by commas, a trailing comma allowed, up to `}`.
pub open spec fn import_group(d: DocumentView, s: Seq<char>, r: int, path: Seq<Seq<char>>) -> Result<Option<(DocumentView, int)>, ParseError<usize>>
    decreases s.len() - r, 1int,
{
    if r < 0 || r > s.len() {
        Ok(None)
    } else if at(s, r, '}') {
        proof {
            lemma_ws_end(s, r + 1);
        }
        Ok(Some((d, ws_end(s, r + 1))))
    } else {
        match path_import_at(d, s, r, path) {
            Err(e) => Err(e),
            Ok(None) => Err(ParseError::ExpectedImportPath(r as usize)),
            Ok(Some((d2, next))) => if r < next <= s.len() {
                proof {
                    lemma_ws_end(s, next);
                }
                let r2 = ws_end(s, next);
                if !(at(s, r2, '}') || at(s, r2, ',')) {
                    Err(ParseError::ExpectedImportPath(r2 as usize))
                } else if at(s, r2, ',') {
                    proof {
                        lemma_ws_end(s, r2 + 1);
                    }
                    import_group(d2, s, ws_end(s, r2 + 1), path)
                } else {
                    import_group(d2, s, r2, path)
                }
            } else {
                Ok(None)
            },
        }
    }
}

/// A file import at `i`: a string literal, `as` and a name.
pub open spec fn file_import_at(s: Seq<char>, i: int) -> Result<Option<(int, RegisterView)>, ParseError<usize>> {
    match literal_at(s, i) {
        None => Ok(None),
        Some(Err(empty)) => Err(string_error(i, empty)),
        Some(Ok(e)) => {
            let rest = ws_end(s, e);
            match keyword_end(s, rest, as_keyword()) {
                None => Err(ParseError::ExpectedKeyword { at: rest as usize, keyword: "as" }),
                Some(k) => {
                    let r2 = ws_end(s, k);
                    match ident_end(s, r2) {
                        None => Err(ParseError::ExpectedIdentifier(r2 as usize)),
                        Some(ne) => Ok(Some((ne, import_register(s.subrange(r2, ne), ImportView::File(s.subrange(i, e)))))),
                    }
                },
            }
        },
    }
}

/// An import statement at `i`: `import`, then a file import or a path
/// import.
pub open spec fn import_at(d: DocumentView, s: Seq<char>, i: int) -> Result<Option<(DocumentView, int)>, ParseError<usize>> {
    match keyword_end(s, i, import_keyword()) {
        None => Ok(None),
        Some(k) => {
            let rest = ws_end(s, k);
            if at(s, rest, '"') {
                match file_import_at(s, rest) {
                    Err(e) => Err(e),
                    Ok(Some((e, reg))) => Ok(Some((with_register(d, reg), e))),
                    Ok(None) => Ok(None),
                }
            } else {
                path_import_at(d, s, rest, Seq::empty())
            }
        },
    }
}

/// The visibility keyword at `i`, if the identifier there is one.
pub open spec fn visibility_at(s: Seq<char>, i: int) -> Option<(int, Visibility)> {
    match ident_end(s, i) {
        None => None,
        Some(e) => {
            let w = s.subrange(i, e);
            if w == Visibility::In.spec_keyword() {
                Some((e, Visibility::In))
            } else if w == Visibility::Out.spec_keyword() {
                Some((e, Visibility::Out))
            } else if w == Visibility::Local.spec_keyword() {
                Some((e, Visibility::Local))
            } else {
                None
            }
        },
    }
}

/// The optional `=` and value of a variable declared so far with `name`,
/// `visibility`, `ty` and `optional`, from `r`. A variable declared
/// without a type takes the type its value names.
pub open spec fn value_at(d: DocumentView, s: Seq<char>, r: int, name: Seq<char>, visibility: Visibility, ty: Option<Seq<Seq<char>>>, optional: bool) -> Result<Option<(DocumentView, int, RegisterView)>, ParseError<usize>> {
    let has_value = at(s, r, '=');
    let r1 = ws_end(s, if has_value { r + 1 } else { r });
    if has_value {
        match expression_at(d, s, r1) {
            Err(e) => Err(e),
            Ok(None) => Err(ParseError::ExpectedExpression(r1 as usize)),
            Ok(Some((d2, next, x))) => Ok(Some((d2, ws_end(s, next), RegisterView {
                name: Some(name),
                visibility,
                variable_type: if ty is Some { ty } else { expression_type(x) },
                optional,
                expression: Some(x),
            }))),
        }
    } else {
        Ok(Some((d, r1, RegisterView {
            name: Some(name),
            visibility,
            variable_type: ty,
            optional,
            expression: None,
        })))
    }
}

/// A variable declaration at `i`: a visibility keyword, a name, optionally
/// `:`, a type path and `?`, then optionally `=` and a value.
pub open spec fn variable_at(d: DocumentView, s: Seq<char>, i: int) -> Result<Option<(DocumentView, int, RegisterView)>, ParseError<usize>> {
    match visibility_at(s, i) {
        None => Ok(None),
        Some((k, visibility)) => {
            let r1 = ws_end(s, k);
            match ident_end(s, r1) {
                None => Err(ParseError::ExpectedIdentifier(r1 as usize)),
                Some(ne) => {
                    let name = s.subrange(r1, ne);
                    let r2 = ws_end(s, ne);
                    let has_type = at(s, r2, ':');
                    let r3 = ws_end(s, if has_type { r2 + 1 } else { r2 });
                    if has_type {
                        match path_at(s, r3) {
                            None => Err(ParseError::ExpectedPath(r3 as usize)),
                            Some((pe, p)) => {
                                let r4 = ws_end(s, pe);
                                let optional = at(s, r4, '?');
                                let r5 = if optional { ws_end(s, r4 + 1) } else { r4 };
                                value_at(d, s, r5, name, visibility, Some(p), optional)
                            },
                        }
                    } else {
                        value_at(d, s, r3, name, visibility, None, false)
                    }
                },
            }
        },
    }
}

/// A statement at `i`: an import, a variable declaration, or an expression
/// that becomes a register, optionally followed by `<-` and a second
/// expression that is applied to the first.
pub open spec fn statement_at(d: DocumentView, s: Seq<char>, i: int) -> Result<Option<(DocumentView, int)>, ParseError<usize>> {
    match import_at(d, s, i) {
        Err(e) => Err(e),
        Ok(Some(x)) => Ok(Some(x)),
        Ok(None) => match variable_at(d, s, i) {
            Err(e) => Err(e),
            Ok(Some((d2, r, reg))) => Ok(Some((with_register(d2, reg), r))),
            Ok(None) => match expression_at(d, s, i) {
                Err(e) => Err(e),
                Ok(None) => Ok(None),
                Ok(Some((d2, next, x))) => {
                    let r = ws_end(s, next);
                    let (d3, entity) = with_expression(d2, x);
                    if at(s, r, '<') && at(s, r + 1, '-') {
                        let r2 = ws_end(s, r + 2);
                        match expression_at(d3, s, r2) {
                            Err(e) => Err(e),
                            Ok(None) => Err(ParseError::ExpectedExpression(r2 as usize)),
                            Ok(Some((d4, n2, x2))) => {
                                let (d5, source) = with_expression(d4, x2);
                                Ok(Some((with_application(d5, entity, source), n2)))
                            },
                        }
                    } else {
                        Ok(Some((d3, r)))
                    }
                },
            },
        },
    }
}

/// The statements from `r`, read into `d`: each followed by `;` unless it
/// ends the input, with empty statements allowed.
pub open spec fn document_from(d: DocumentView, s: Seq<char>, r: int) -> Result<DocumentView, ParseError<usize>>
    decreases s.len() - r,
{
    if r < 0 || r >= s.len() {
        Ok(d)
    } else {
        proof {
            lemma_ws_end(s, r);
        }
        let r1 = ws_end(s, r);
        if r1 >= s.len() {
            Ok(d)
        } else if at(s, r1, ';') {
            proof {
                lemma_ws_end(s, r1 + 1);
            }
            document_from(d, s, ws_end(s, r1 + 1))
        } else {
            match statement_at(d, s, r1) {
                Err(e) => Err(e),
                Ok(None) => Err(ParseError::ExpectedExpression(r1 as usize)),
                Ok(Some((d2, next))) => if r1 < next <= s.len() {
                    proof {
                        lemma_ws_end(s, next);
                    }
                    let r2 = ws_end(s, next);
                    if r2 >= s.len() {
                        Ok(d2)
                    } else if !at(s, r2, ';') {
                        Err(ParseError::ExpectedSemiColon(r2 as usize))
                    } else {
                        proof {
                            lemma_ws_end(s, r2 + 1);
                        }
                        document_from(d2, s, ws_end(s, r2 + 1))
                    }
                } else {
                    Ok(d2)
                },
            }
        }
    }
}

/// The document that the text `s` describes, or why it describes none.
pub open spec fn parse_document(s: Seq<char>) -> Result<DocumentView, ParseError<usize>> {
    document_from(empty_document(), s, 0)
}

fn parse_path_import<'a>(src: &Source<'a>, doc: &mut Document<'a>, i: usize, root: &Path<'a>) -> (r: Result<Option<usize>, ParseError<usize>>)
    requires
        src.wf(),
        i <= src.chars@.len(),
        root@.len() <= i,
    ensures
        match path_import_at(old(doc)@, src.chars@, i as int, root@) {
            Ok(Some((d2, e))) => r == Ok::<Option<usize>, ParseError<usize>>(Some(e as usize))
                && final(doc)@ == d2 && i < e <= src.chars@.len(),
            Ok(None) => r == Ok::<Option<usize>, ParseError<usize>>(None) && final(doc)@ == old(doc)@,
            Err(err) => r == Err::<Option<usize>, ParseError<usize>>(err),
        },
    decreases src.chars@.len() - i, 0int,
{
    let ghost s = src.chars@;
    let (pe, p) = match parse_path(src, i) {
        Some(x) => x,
        None => {
            return Ok(None);
        },
    };
    proof {
        lemma_path_at(s, i as int);
    }
    let rest = skip_whitespace(src, pe);
    let path = root.join(&p);
    if src.at(rest, ':') && src.at(rest + 1, ':') {
        let r1 = skip_whitespace(src, rest + 2);
        if !src.at(r1, '{') {
            return Err(ParseError::ExpectedOpenBrace(r1));
        }
        let start = skip_whitespace(src, r1 + 1);
        parse_import_group(src, doc, start, &path)
    } else {
        proof {
            reveal_strlit("as");
            assert("as"@ =~= as_keyword());
        }
        match parse_keyword(src, rest, "as") {
            Some(k) => {
                let r2 = skip_whitespace(src, k);
                match parse_identifier(src, r2) {
                    None => Err(ParseError::ExpectedIdentifier(r2)),
                    Some(ne) => {
                        let name = src.slice(r2, ne);
                        doc.push_register(Register {
                            name: Some(name),
                            visibility: Visibility::Local,
                            variable_type: None,
                            optional: false,
                            expression: Some(Expression::Import(Import::Path(path))),
                        });
                        Ok(Some(ne))
                    },
                }
            },
            None => {
                let segments = path.0.as_slice();
                let name = segments[segments.len() - 1];
                doc.push_register(Register {
                    name: Some(name),
                    visibility: Visibility::Local,
                    variable_type: None,
                    optional: false,
                    expression: Some(Expression::Import(Import::Path(path))),
                });
                Ok(Some(rest))
            },
        }
    }
}

fn parse_import_group<'a>(src: &Source<'a>, doc: &mut Document<'a>, start: usize, path: &Path<'a>) -> (r: Result<Option<usize>, ParseError<usize>>)
    requires
        src.wf(),
        start <= src.chars@.len(),
        path@.len() <= start,
    ensures
        match import_group(old(doc)@, src.chars@, start as int, path@) {
            Ok(Some((d2, e))) => r == Ok::<Option<usize>, ParseError<usize>>(Some(e as usize))
                && final(doc)@ == d2 && start < e <= src.chars@.len(),
            Ok(None) => r == Ok::<Option<usize>, ParseError<usize>>(None) && final(doc)@ == old(doc)@,
            Err(err) => r == Err::<Option<usize>, ParseError<usize>>(err),
        },
    decreases src.chars@.len() - start, 1int,
{
    let ghost s = src.chars@;
    let n = src.len();
    let mut rest = start;
    loop
        invariant
            src.wf(),
            s == src.chars@,
            n == s.len(),
            start <= rest <= n,
            path@.len() <= start,
            import_group(doc@, s, rest as int, path@) == import_group(old(doc)@, s, start as int, path@),
        decreases n - rest,
    {
        if src.at(rest, '}') {
            return Ok(Some(skip_whitespace(src, rest + 1)));
        }
        let next = match parse_path_import(src, doc, rest, path) {
            Err(e) => {
                return Err(e);
            },
            Ok(None) => {
                return Err(ParseError::ExpectedImportPath(rest));
            },
            Ok(Some(next)) => next,
        };
        let r2 = skip_whitespace(src, next);
        if !(src.at(r2, '}') || src.at(r2, ',')) {
            return Err(ParseError::ExpectedImportPath(r2));
        }
        if src.at(r2, ',') {
            rest = skip_whitespace(src, r2 + 1);
        } else {
            rest = r2;
        }
    }
}

fn parse_file_import<'a>(src: &Source<'a>, i: usize) -> (r: Result<Option<(usize, Register<'a>)>, ParseError<usize>>)
    requires
        src.wf(),
        i <= src.chars@.len(),
    ensures
        match file_import_at(src.chars@, i as int) {
            Ok(Some((e, reg))) => r is Ok && r->Ok_0 is Some && r->Ok_0->Some_0.0 == e
                && r->Ok_0->Some_0.1@ == reg && i < e <= src.chars@.len(),
            Ok(None) => r is Ok && r->Ok_0 is None,
            Err(err) => r is Err && r->Err_0 == err,
        },
{
    let e = match scan_literal(&src.chars, i) {
        None => {
            return Ok(None);
        },
        Some(Err(true)) => {
            return Err(ParseError::StringError(string::ParseError::EmptyString(i)));
        },
        Some(Err(false)) => {
            return Err(ParseError::StringError(string::ParseError::UnclosedString(i)));
        },
        Some(Ok(e)) => e,
    };
    let rest = skip_whitespace(src, e);
    proof {
        reveal_strlit("as");
        assert("as"@ =~= as_keyword());
    }
    let k = match parse_keyword(src, rest, "as") {
        Some(k) => k,
        None => {
            return Err(ParseError::ExpectedKeyword { at: rest, keyword: "as" });
        },
    };
    let r2 = skip_whitespace(src, k);
    let ne = match parse_identifier(src, r2) {
        Some(ne) => ne,
        None => {
            return Err(ParseError::ExpectedIdentifier(r2));
        },
    };
    let register = Register {
        name: Some(src.slice(r2, ne)),
        visibility: Visibility::Local,
        variable_type: None,
        optional: false,
        expression: Some(Expression::Import(Import::File(src.slice(i, e)))),
    };
    Ok(Some((ne, register)))
}

fn parse_import<'a>(src: &Source<'a>, doc: &mut Document<'a>, i: usize) -> (r: Result<Option<usize>, ParseError<usize>>)
    requires
        src.wf(),
        i <= src.chars@.len(),
    ensures
        match import_at(old(doc)@, src.chars@, i as int) {
            Ok(Some((d2, e))) => r == Ok::<Option<usize>, ParseError<usize>>(Some(e as usize))
                && final(doc)@ == d2 && i < e <= src.chars@.len(),
            Ok(None) => r == Ok::<Option<usize>, ParseError<usize>>(None) && final(doc)@ == old(doc)@,
            Err(err) => r == Err::<Option<usize>, ParseError<usize>>(err),
        },
{
    proof {
        reveal_strlit("import");
        assert("import"@ =~= import_keyword());
    }
    let k = match parse_keyword(src, i, "import") {
        Some(k) => k,
        None => {
            return Ok(None);
        },
    };
    let rest = skip_whitespace(src, k);
    if src.at(rest, '"') {
        match parse_file_import(src, rest) {
            Err(e) => Err(e),
            Ok(Some((e, register))) => {
                doc.push_register(register);
                Ok(Some(e))
            },
            Ok(None) => Ok(None),
        }
    } else {
        let root = Path::empty();
        parse_path_import(src, doc, rest, &root)
    }
}

fn parse_visibility(src: &Source, i: usize) -> (r: Option<(usize, Visibility)>)
    requires
        src.wf(),
        i <= src.chars@.len(),
    ensures
        match visibility_at(src.chars@, i as int) {
            Some((e, v)) => r == Some((e as usize, v)) && i < e <= src.chars@.len(),
            None => r is None,
        },
{
    let e = match parse_identifier(src, i) {
        Some(e) => e,
        None => {
            return None;
        },
    };
    proof {
        reveal_strlit("in");
        reveal_strlit("out");
        reveal_strlit("local");
        assert("in"@ =~= Visibility::In.spec_keyword());
        assert("out"@ =~= Visibility::Out.spec_keyword());
        assert("local"@ =~= Visibility::Local.spec_keyword());
    }
    if slice_is(src, i, e, "in") {
        Some((e, Visibility::In))
    } else if slice_is(src, i, e, "out") {
        Some((e, Visibility::Out))
    } else if slice_is(src, i, e, "local") {
        Some((e, Visibility::Local))
    } else {
        None
    }
}

fn parse_variable<'a>(src: &Source<'a>, doc: &mut Document<'a>, i: usize) -> (r: Result<Option<(usize, Register<'a>)>, ParseError<usize>>)
    requires
        src.wf(),
        i <= src.chars@.len(),
    ensures
        match variable_at(old(doc)@, src.chars@, i as int) {
            Ok(Some((d2, e, reg))) => r is Ok && r->Ok_0 is Some && r->Ok_0->Some_0.0 == e
                && r->Ok_0->Some_0.1@ == reg && final(doc)@ == d2 && i < e <= src.chars@.len(),
            Ok(None) => r is Ok && r->Ok_0 is None && final(doc)@ == old(doc)@,
            Err(err) => r is Err && r->Err_0 == err,
        },
{
    let (k, visibility) = match parse_visibility(src, i) {
        Some(x) => x,
        None => {
            return Ok(None);
        },
    };
    let r1 = skip_whitespace(src, k);
    let ne = match parse_identifier(src, r1) {
        Some(ne) => ne,
        None => {
            return Err(ParseError::ExpectedIdentifier(r1));
        },
    };
    let name = src.slice(r1, ne);
    let r2 = skip_whitespace(src, ne);
    let has_type = src.at(r2, ':');
    let mut rest = skip_whitespace(src, if has_type { r2 + 1 } else { r2 });
    let mut variable_type: Option<Path<'a>> = None;
    let mut optional = false;
    if has_type {
        let (pe, p) = match parse_path(src, rest) {
            Some(x) => x,
            None => {
                return Err(ParseError::ExpectedPath(rest));
            },
        };
        variable_type = Some(p);
        let r4 = skip_whitespace(src, pe);
        rest = r4;
        if src.at(r4, '?') {
            optional = true;
            rest = skip_whitespace(src, r4 + 1);
        }
    }
    let has_value = src.at(rest, '=');
    let r5 = skip_whitespace(src, if has_value { rest + 1 } else { rest });
    if has_value {
        match parse_expression(src, doc, r5) {
            Err(e) => Err(e),
            Ok(None) => Err(ParseError::ExpectedExpression(r5)),
            Ok(Some((next, x))) => {
                let end = skip_whitespace(src, next);
                let variable_type = match variable_type {
                    Some(ty) => Some(ty),
                    None => x.type_path(),
                };
                Ok(Some((end, Register { name: Some(name), visibility, variable_type, optional, expression: Some(x) })))
            },
        }
    } else {
        Ok(Some((r5, Register { name: Some(name), visibility, variable_type, optional, expression: None })))
    }
}

fn parse_statement<'a>(src: &Source<'a>, doc: &mut Document<'a>, i: usize) -> (r: Result<Option<usize>, ParseError<usize>>)
    requires
        src.wf(),
        i <= src.chars@.len(),
    ensures
        match statement_at(old(doc)@, src.chars@, i as int) {
            Ok(Some((d2, e))) => r == Ok::<Option<usize>, ParseError<usize>>(Some(e as usize))
                && final(doc)@ == d2 && i < e <= src.chars@.len(),
            Ok(None) => r == Ok::<Option<usize>, ParseError<usize>>(None) && final(doc)@ == old(doc)@,
            Err(err) => r == Err::<Option<usize>, ParseError<usize>>(err),
        },
{
    match parse_import(src, doc, i) {
        Err(e) => {
            return Err(e);
        },
        Ok(Some(e)) => {
            return Ok(Some(e));
        },
        Ok(None) => {},
    }
    match parse_variable(src, doc, i) {
        Err(e) => {
            return Err(e);
        },
        Ok(Some((e, register))) => {
            doc.push_register(register);
            return Ok(Some(e));
        },
        Ok(None) => {},
    }
    match parse_expression(src, doc, i) {
        Err(e) => Err(e),
        Ok(None) => Ok(None),
        Ok(Some((next, x))) => {
            let r = skip_whitespace(src, next);
            let entity = doc.push_expression(x);
            if src.at(r, '<') && src.at(r + 1, '-') {
                let r2 = skip_whitespace(src, r + 2);
                match parse_expression(src, doc, r2) {
                    Err(e) => Err(e),
                    Ok(None) => Err(ParseError::ExpectedExpression(r2)),
                    Ok(Some((n2, x2))) => {
                        let source = doc.push_expression(x2);
                        doc.push_application(entity, source);
                        Ok(Some(n2))
                    },
                }
            } else {
                Ok(Some(r))
            }
        },
    }
}

fn parse_statements<'a>(src: &Source<'a>) -> (r: Result<Document<'a>, ParseError<usize>>)
    requires
        src.wf(),
    ensures
        match parse_document(src.chars@) {
            Ok(d) => r is Ok && r->Ok_0@ == d,
            Err(err) => r is Err && r->Err_0 == err,
        },
{
    let ghost s = src.chars@;
    let n = src.len();
    let mut document = Document::default();
    let mut rest: usize = 0;
    while rest < n
        invariant
            src.wf(),
            s == src.chars@,
            n == s.len(),
            rest <= n,
            document_from(document@, s, rest as int) == parse_document(s),
        decreases n - rest,
    {
        let r1 = skip_whitespace(src, rest);
        if r1 >= n {
            return Ok(document);
        }
        if src.at(r1, ';') {
            rest = skip_whitespace(src, r1 + 1);
            continue;
        }
        let next = match parse_statement(src, &mut document, r1) {
            Err(e) => {
                return Err(e);
            },
            Ok(None) => {
                return Err(ParseError::ExpectedExpression(r1));
            },
            Ok(Some(next)) => next,
        };
        let r2 = skip_whitespace(src, next);
        if r2 >= n {
            return Ok(document);
        }
        if !src.at(r2, ';') {
            return Err(ParseError::ExpectedSemiColon(r2));
        }
        rest = skip_whitespace(src, r2 + 1);
    }
    Ok(document)
}

// ----------------------------------------------------------------------
// Errors and the public entry point.

impl<P> ParseError<P> {
    /// Where the error is.
    pub open spec fn spec_position(self) -> P {
        match self {
            ParseError::StringError(e) => e.spec_position(),
            ParseError::ExpectedExpression(p) => p,
            ParseError::UnclosedTuple(p) => p,
            ParseError::ExpectedIdentifier(p) => p,
            ParseError::ExpectedColon(p) => p,
            ParseError::UnclosedStruct(p) => p,
            ParseError::UnclosedList(p) => p,
            ParseError::ExpectedKeyword { at, keyword } => at,
            ParseError::ExpectedPath(p) => p,
            ParseError::ExpectedSemiColon(p) => p,
            ParseError::ExpectedOpenBrace(p) => p,
            ParseError::ExpectedImportPath(p) => p,
            ParseError::ExpectedIntRadix(p, _) => p,
        }
    }

    /// The error with its position left out.
    pub open spec fn spec_shape(self) -> ParseError<()> {
        match self {
            ParseError::StringError(e) => ParseError::StringError(
                if e.spec_is_empty() {
                    string::ParseError::EmptyString(())
                } else {
                    string::ParseError::UnclosedString(())
                },
            ),
            ParseError::ExpectedExpression(_) => ParseError::ExpectedExpression(()),
            ParseError::UnclosedTuple(_) => ParseError::UnclosedTuple(()),
            ParseError::ExpectedIdentifier(_) => ParseError::ExpectedIdentifier(()),
            ParseError::ExpectedColon(_) => ParseError::ExpectedColon(()),
            ParseError::UnclosedStruct(_) => ParseError::UnclosedStruct(()),
            ParseError::UnclosedList(_) => ParseError::UnclosedList(()),
            ParseError::ExpectedKeyword { at, keyword } => ParseError::ExpectedKeyword { at: (), keyword },
            ParseError::ExpectedPath(_) => ParseError::ExpectedPath(()),
            ParseError::ExpectedSemiColon(_) => ParseError::ExpectedSemiColon(()),
            ParseError::ExpectedOpenBrace(_) => ParseError::ExpectedOpenBrace(()),
            ParseError::ExpectedImportPath(_) => ParseError::ExpectedImportPath(()),
            ParseError::ExpectedIntRadix(_, radix) => ParseError::ExpectedIntRadix((), radix),
        }
    }

    /// The same error with its position passed through `f`.
    pub fn map_position<P2, F: Fn(P) -> P2>(self, f: F) -> (r: ParseError<P2>)
        requires
            f.requires((self.spec_position(),)),
        ensures
            r.spec_shape() == self.spec_shape(),
            f.ensures((self.spec_position(),), r.spec_position()),
    {
        match self {
            ParseError::StringError(string::ParseError::EmptyString(p)) => ParseError::StringError(string::ParseError::EmptyString(f(p))),
            ParseError::StringError(string::ParseError::UnclosedString(p)) => ParseError::StringError(string::ParseError::UnclosedString(f(p))),
            ParseError::ExpectedExpression(p) => ParseError::ExpectedExpression(f(p)),
            ParseError::UnclosedTuple(p) => ParseError::UnclosedTuple(f(p)),
            ParseError::ExpectedIdentifier(p) => ParseError::ExpectedIdentifier(f(p)),
            ParseError::ExpectedColon(p) => ParseError::ExpectedColon(f(p)),
            ParseError::UnclosedStruct(p) => ParseError::UnclosedStruct(f(p)),
            ParseError::UnclosedList(p) => ParseError::UnclosedList(f(p)),
            ParseError::ExpectedKeyword { at, keyword } => ParseError::ExpectedKeyword { at: f(at), keyword },
            ParseError::ExpectedPath(p) => ParseError::ExpectedPath(f(p)),
            ParseError::ExpectedSemiColon(p) => ParseError::ExpectedSemiColon(f(p)),
            ParseError::ExpectedOpenBrace(p) => ParseError::ExpectedOpenBrace(f(p)),
            ParseError::ExpectedImportPath(p) => ParseError::ExpectedImportPath(f(p)),
            ParseError::ExpectedIntRadix(p, radix) => ParseError::ExpectedIntRadix(f(p), radix),
        }
    }
}

/// The rest of `s` from position `k`, or nothing when `k` is past its end.
pub open spec fn rest_from(s: Seq<char>, k: int) -> Seq<char> {
    if k <= s.len() {
        s.subrange(k, s.len() as int)
    } else {
        Seq::empty()
    }
}

/// Whether `e`, whose positions are rests of the input `s`, is the error
/// `err`, whose positions are character offsets into `s`.
pub open spec fn error_in_input(e: ParseError<&str>, s: Seq<char>, err: ParseError<usize>) -> bool {
    &&& e.spec_shape() == err.spec_shape()
    &&& e.spec_position()@ == rest_from(s, err.spec_position() as int)
}

impl<'a> Document<'a> {
    /// The document that `input` describes. On an error, its position is
    /// the rest of `input` from where reading stopped.
    pub fn parse(input: &'a str) -> (r: Result<Document<'a>, ParseError<&'a str>>)
        requires
            input@.len() <= usize::MAX / 2,
        ensures
            match parse_document(input@) {
                Ok(d) => r is Ok && r->Ok_0@ == d,
                Err(err) => r is Err && error_in_input(r->Err_0, input@, err),
            },
            r is Ok ==> well_formed(r->Ok_0@) && file_imports_ok(r->Ok_0@),
    {
        proof {
            lemma_parsed_document_well_formed(input@);
            if parse_document(input@) is Ok {
                lemma_well_formed_file_imports(parse_document(input@)->Ok_0);
            }
        }
        let src = Source::new(input);
        match parse_statements(&src) {
            Ok(document) => Ok(document),
            Err(err) => {
                let n = src.len();
                let at_rest = |p: usize| -> (q: &'a str)
                    requires
                        src.wf(),
                        src.chars@ == input@,
                        n == input@.len(),
                    ensures
                        q@ == rest_from(input@, p as int),
                    {
                        if p <= n {
                            src.slice(p, n)
                        } else {
                            let q = src.slice(n, n);
                            assert(q@ =~= rest_from(input@, p as int));
                            q
                        }
                    };
                Err(err.map_position(at_rest))
            },
        }
    }
}

// ----------------------------------------------------------------------
// Well-formed documents.

/// The registers an expression's value is built from: the elements of a
/// tuple or a list, the fields of a struct.
pub open spec fn expression_refs(e: ExpressionView) -> Seq<usize> {
    match e {
        ExpressionView::Tuple(_, parts) => parts,
        ExpressionView::List(_, parts) => parts,
        ExpressionView::Struct(_, fields) => fields.map_values(|f: (Seq<char>, usize)| f.1),
        _ => Seq::empty(),
    }
}

/// Whether every register `e` is built from comes before position `n`.
pub open spec fn refs_below(e: ExpressionView, n: int) -> bool {
    forall|k: int| 0 <= k < expression_refs(e).len() ==> (#[trigger] expression_refs(e)[k]) < n
}

/// Whether `f` is exactly one string literal.
pub open spec fn whole_literal(f: Seq<char>) -> bool {
    literal_at(f, 0) == Some(Ok::<int, bool>(f.len() as int))
}

/// Whether `e`, when it imports a file, names it by one whole literal.
pub open spec fn file_import_ok(e: ExpressionView) -> bool {
    match e {
        ExpressionView::Import(ImportView::File(f)) => whole_literal(f),
        _ => true,
    }
}

/// Whether register `r`, at index `k`, is built only from registers before
/// it and names any imported file by one whole literal.
pub open spec fn register_ok(r: RegisterView, k: int) -> bool {
    match r.expression {
        Some(e) => refs_below(e, k) && file_import_ok(e),
        None => true,
    }
}

/// Whether every file that `d` imports is named by one whole literal.
pub open spec fn file_imports_ok(d: DocumentView) -> bool {
    forall|k: int| 0 <= k < d.registers.len() ==> match (#[trigger] d.registers[k]).expression {
        Some(e) => file_import_ok(e),
        None => true,
    }
}

/// Whether `d` is well formed: each register is built only from registers
/// before it, each application names registers of `d`, and each imported
/// file is named by one whole literal.
pub open spec fn well_formed(d: DocumentView) -> bool {
    &&& forall|k: int| 0 <= k < d.registers.len() ==> register_ok(#[trigger] d.registers[k], k)
    &&& forall|a: int| 0 <= a < d.applications.len() ==> (#[trigger] d.applications[a]).entity < d.registers.len()
        && d.applications[a].expression < d.registers.len()
}

/// The files that the registers `rs` import, in order, each the text
/// between the quotes of its literal with escapes replaced.
pub open spec fn dependencies_of(rs: Seq<RegisterView>) -> Seq<Seq<char>>
    decreases rs.len(),
{
    if rs.len() == 0 {
        Seq::empty()
    } else {
        let before = dependencies_of(rs.drop_last());
        match rs.last().expression {
            Some(ExpressionView::Import(ImportView::File(f))) => before.push(unescaped(f, 1)),
            _ => before,
        }
    }
}

impl<'a> Document<'a> {
    /// The files the document imports, in order, each the text of its
    /// literal with escapes replaced.
    pub fn dependencies(&self) -> (r: Vec<String>)
        requires
            file_imports_ok(self@),
        ensures
            r@.map_values(|t: String| t@) == dependencies_of(self@.registers),
    {
        let mut deps: Vec<String> = Vec::new();
        let n = self.registers.len();
        let mut i: usize = 0;
        while i < n
            invariant
                n == self.registers@.len() == self@.registers.len(),
                file_imports_ok(self@),
                i <= n,
                deps@.map_values(|t: String| t@) == dependencies_of(self@.registers.take(i as int)),
            decreases n - i,
        {
            let ghost before = deps@;
            assert(self@.registers.take(i + 1).drop_last() =~= self@.registers.take(i as int));
            assert(self@.registers.take(i + 1).last() == self.registers@[i as int]@);
            match &self.registers[i].expression {
                Some(Expression::Import(Import::File(file_path))) => {
                    assert(self@.registers[i as int].expression == Some(ExpressionView::Import(ImportView::File(file_path@))));
                    match parse_string(file_path) {
                        Ok(Some((_, text))) => {
                            deps.push(text);
                            assert(deps@.map_values(|t: String| t@) =~= before.map_values(|t: String| t@).push(unescaped(file_path@, 1)));
                        },
                        _ => {},
                    }
                },
                _ => {},
            }
            i = i + 1;
        }
        assert(self@.registers.take(n as int) =~= self@.registers);
        deps
    }
}

} // verus!
