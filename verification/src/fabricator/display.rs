//! The text forms of a document: the listing its `Debug` output gives, and
//! a Graphviz graph of its registers.

use vstd::prelude::*;
use vstd::string::StringExecFns;

use crate::fabricator::document::{
    Application, Document, DocumentView, Expression, ExpressionView, Import, ImportView, Number,
    NumberView, ParseError, Path, Register, RegisterView,
};
use crate::fabricator::string;
use crate::fabricator::lists::field_items;
use crate::fabricator::string::{escape_string, quoted};
use crate::source::{decimal, push_decimal, push_decimal_u64, SourcePosition};

verus! {

/// The decimal text of `v`, with a minus sign when it is negative.
pub open spec fn signed_text(v: int) -> Seq<char> {
    if v < 0 {
        seq!['-'] + decimal((-v) as nat)
    } else {
        decimal(v as nat)
    }
}

/// A number as the listing shows it.
pub open spec fn number_text(n: NumberView) -> Seq<char> {
    match n {
        NumberView::I64(v) => signed_text(v as int),
        NumberView::U64(v) => decimal(v as nat),
        NumberView::F64(t) => t,
    }
}

/// A path's segments joined by `::`.
pub open spec fn path_text(p: Seq<Seq<char>>) -> Seq<char>
    decreases p.len(),
{
    if p.len() == 0 {
        Seq::empty()
    } else if p.len() == 1 {
        p[0]
    } else {
        path_text(p.drop_last()) + seq![':', ':'] + p.last()
    }
}

/// An import as the listing shows it.
pub open spec fn import_text(i: ImportView) -> Seq<char> {
    match i {
        ImportView::Path(p) => path_text(p),
        ImportView::File(f) => seq!['i', 'm', 'p', 'o', 'r', 't', ' '] + f,
    }
}

/// A reference to register `k`: `%` and its index.
pub open spec fn register_ref(k: usize) -> Seq<char> {
    seq!['%'] + decimal(k as nat)
}

/// References to the registers `p`, separated by `, `.
pub open spec fn refs_text(p: Seq<usize>) -> Seq<char>
    decreases p.len(),
{
    if p.len() == 0 {
        Seq::empty()
    } else if p.len() == 1 {
        register_ref(p[0])
    } else {
        refs_text(p.drop_last()) + seq![',', ' '] + register_ref(p.last())
    }
}

/// One struct field: its name, `: ` and a reference to its register.
pub open spec fn field_text(f: (Seq<char>, usize)) -> Seq<char> {
    f.0 + seq![':', ' '] + register_ref(f.1)
}

/// Struct fields, separated by `, `.
pub open spec fn fields_text(p: Seq<(Seq<char>, usize)>) -> Seq<char>
    decreases p.len(),
{
    if p.len() == 0 {
        Seq::empty()
    } else if p.len() == 1 {
        field_text(p[0])
    } else {
        fields_text(p.drop_last()) + seq![',', ' '] + field_text(p.last())
    }
}

/// The type path before a tuple, struct or list, if it has one.
pub open spec fn type_prefix(ty: Option<Seq<Seq<char>>>) -> Seq<char> {
    match ty {
        Some(p) => path_text(p),
        None => Seq::empty(),
    }
}

/// An expression as the listing shows it.
pub open spec fn expression_text(e: ExpressionView) -> Seq<char> {
    match e {
        ExpressionView::Number(n) => number_text(n),
        ExpressionView::String(s) => s,
        ExpressionView::Tuple(ty, parts) => type_prefix(ty) + seq!['('] + refs_text(parts) + seq![')'],
        ExpressionView::Struct(ty, fields) => type_prefix(ty) + seq!['{'] + fields_text(fields) + seq!['}'],
        ExpressionView::List(ty, parts) => type_prefix(ty) + seq!['['] + refs_text(parts) + seq![']'],
        ExpressionView::Path(p) => path_text(p),
        ExpressionView::Import(i) => import_text(i),
    }
}

/// A named register's visibility and name, after a space each.
pub open spec fn name_part(r: RegisterView) -> Seq<char> {
    match r.name {
        Some(n) => seq![' '] + r.visibility.spec_keyword() + seq![' '] + n,
        None => Seq::empty(),
    }
}

/// A typed register's type, after `: `, and `?` when it is optional.
pub open spec fn type_part(r: RegisterView) -> Seq<char> {
    match r.variable_type {
        Some(t) => seq![':', ' '] + path_text(t) + if r.optional {
            seq!['?']
        } else {
            Seq::empty()
        },
        None => Seq::empty(),
    }
}

/// A register's value, after ` = `, when it has one.
pub open spec fn value_part(r: RegisterView) -> Seq<char> {
    match r.expression {
        Some(e) => seq![' ', '=', ' '] + expression_text(e),
        None => Seq::empty(),
    }
}

/// Register `r` at index `index` as the listing shows it: its reference,
/// then its visibility and name, its type, and its value, each where it
/// has one.
pub open spec fn register_text(r: RegisterView, index: usize) -> Seq<char> {
    register_ref(index) + name_part(r) + type_part(r) + value_part(r)
}

/// An application as the listing shows it.
pub open spec fn application_text(a: Application) -> Seq<char> {
    register_ref(a.entity) + seq![' ', '<', '-', ' '] + register_ref(a.expression)
}

/// The listing's lines for the registers `rs`.
pub open spec fn registers_text(rs: Seq<RegisterView>) -> Seq<char>
    decreases rs.len(),
{
    if rs.len() == 0 {
        Seq::empty()
    } else {
        registers_text(rs.drop_last()) + seq![' ', ' '] + register_text(rs.last(), (rs.len() - 1) as usize) + seq![';', '\n']
    }
}

/// The listing's lines for the applications `apps`.
pub open spec fn applications_text(apps: Seq<Application>) -> Seq<char>
    decreases apps.len(),
{
    if apps.len() == 0 {
        Seq::empty()
    } else {
        applications_text(apps.drop_last()) + seq![' ', ' '] + application_text(apps.last()) + seq![';', '\n']
    }
}

/// A document's listing.
pub open spec fn document_text(d: DocumentView) -> Seq<char> {
    seq!['D', 'o', 'c', 'u', 'm', 'e', 'n', 't', ' ', '{', '\n'] + registers_text(d.registers) + applications_text(d.applications) + seq!['}']
}

/// The node of register `k` in the graph.
pub open spec fn dot_name(k: usize) -> Seq<char> {
    seq!['v'] + decimal(k as nat)
}

/// The node of application `k` in the graph.
pub open spec fn dot_application(k: usize) -> Seq<char> {
    seq!['a'] + decimal(k as nat)
}

/// Edges from the registers `parts` to register `k`.
pub open spec fn dot_edges(parts: Seq<usize>, k: usize) -> Seq<char>
    decreases parts.len(),
{
    if parts.len() == 0 {
        Seq::empty()
    } else {
        dot_edges(parts.drop_last(), k) + seq![' ', ' '] + dot_name(parts.last()) + seq![' ', '-', '>', ' '] + dot_name(k) + seq![';', '\n']
    }
}

/// The register indices of struct fields.
pub open spec fn field_indices(fields: Seq<(Seq<char>, usize)>) -> Seq<usize> {
    fields.map_values(|f: (Seq<char>, usize)| f.1)
}

/// The edges into register `k` from the elements its value refers to:
/// those of a tuple or a struct.
pub open spec fn expression_dot(e: Option<ExpressionView>, k: usize) -> Seq<char> {
    match e {
        Some(ExpressionView::Tuple(_, parts)) => dot_edges(parts, k),
        Some(ExpressionView::Struct(_, fields)) => dot_edges(field_indices(fields), k),
        _ => Seq::empty(),
    }
}

/// Register `r` at index `k` in the graph: a box labelled with its listing
/// line, and the edges into it.
pub open spec fn register_dot(r: RegisterView, k: usize) -> Seq<char> {
    seq![' ', ' '] + dot_name(k) + seq![' ', '[', 's', 'h', 'a', 'p', 'e', '=', 'b', 'o', 'x', ',', 'l', 'a', 'b', 'e', 'l', '='] + quoted(register_text(r, k)) + seq![']', ';', '\n'] + expression_dot(r.expression, k)
}

/// Application `a` at index `k` in the graph: a node with edges from its
/// value and to its entity.
pub open spec fn application_dot(a: Application, k: usize) -> Seq<char> {
    seq![' ', ' '] + dot_application(k) + seq![' ', '[', 'l', 'a', 'b', 'e', 'l', '=', 'a', 'p', 'p', 'l', 'y', ']', '\n']
        + seq![' ', ' '] + dot_application(k) + seq![' ', '-', '>', ' '] + dot_name(a.entity) + seq!['\n']
        + seq![' ', ' '] + dot_name(a.expression) + seq![' ', '-', '>', ' '] + dot_application(k) + seq!['\n']
}

/// The graph's lines for the registers `rs`.
pub open spec fn registers_dot(rs: Seq<RegisterView>) -> Seq<char>
    decreases rs.len(),
{
    if rs.len() == 0 {
        Seq::empty()
    } else {
        registers_dot(rs.drop_last()) + register_dot(rs.last(), (rs.len() - 1) as usize)
    }
}

/// The graph's lines for the applications `apps`.
pub open spec fn applications_dot(apps: Seq<Application>) -> Seq<char>
    decreases apps.len(),
{
    if apps.len() == 0 {
        Seq::empty()
    } else {
        applications_dot(apps.drop_last()) + application_dot(apps.last(), (apps.len() - 1) as usize)
    }
}

/// A document as a Graphviz graph.
pub open spec fn document_dot(d: DocumentView) -> Seq<char> {
    seq!['d', 'i', 'g', 'r', 'a', 'p', 'h', ' ', 'D', 'o', 'c', 'u', 'm', 'e', 'n', 't', ' ', '{', '\n'] + registers_dot(d.registers) + applications_dot(d.applications) + seq!['}', '\n']
}

fn push_ref(out: &mut String, k: usize)
    ensures
        final(out)@ == old(out)@ + register_ref(k),
{
    proof {
        reveal_strlit("%");
        assert("%"@ =~= seq!['%']);
    }
    out.append("%");
    push_decimal(out, k);
    assert(out@ =~= old(out)@ + register_ref(k));
}

fn push_number(out: &mut String, n: &Number)
    ensures
        final(out)@ == old(out)@ + number_text(n@),
{
    match n {
        Number::I64(v) => {
            if *v < 0 {
            proof {
                reveal_strlit("-");
                assert("-"@ =~= seq!['-']);
            }
            out.append("-");
                let m: u64 = (0i128 - (*v as i128)) as u64;
                push_decimal_u64(out, m);
                assert(out@ =~= old(out)@ + number_text(n@));
            } else {
                push_decimal_u64(out, *v as u64);
            }
        },
        Number::U64(v) => {
            push_decimal_u64(out, *v);
        },
        Number::F64(t) => {
            out.append(t.as_str());
        },
    }
}

fn push_path(out: &mut String, p: &Path)
    ensures
        final(out)@ == old(out)@ + path_text(p@),
{
    let segments = p.0.as_slice();
    let n = segments.len();
    let ghost start = out@;
    let mut i: usize = 0;
    while i < n
        invariant
            n == segments@.len() == p@.len(),
            forall|k: int| 0 <= k < n ==> (#[trigger] segments@[k])@ == p@[k],
            i <= n,
            out@ == start + path_text(p@.take(i as int)),
        decreases n - i,
    {
        if i > 0 {
            proof {
                reveal_strlit("::");
                assert("::"@ =~= seq![':', ':']);
            }
            out.append("::");
        }
        out.append(segments[i]);
        proof {
            assert(p@.take(i + 1).drop_last() =~= p@.take(i as int));
            if i == 0 {
                assert(p@.take(1) =~= seq![p@[0]]);
            }
        }
        assert(out@ =~= start + path_text(p@.take(i + 1)));
        i = i + 1;
    }
    assert(p@.take(n as int) =~= p@);
}

fn push_import(out: &mut String, i: &Import)
    ensures
        final(out)@ == old(out)@ + import_text(i@),
{
    match i {
        Import::Path(p) => push_path(out, p),
        Import::File(f) => {
        proof {
            reveal_strlit("import ");
            assert("import "@ =~= seq!['i', 'm', 'p', 'o', 'r', 't', ' ']);
        }
        out.append("import ");
            out.append(f);
            assert(out@ =~= old(out)@ + import_text(i@));
        },
    }
}

fn push_refs(out: &mut String, parts: &[usize])
    ensures
        final(out)@ == old(out)@ + refs_text(parts@),
{
    let n = parts.len();
    let ghost start = out@;
    let mut i: usize = 0;
    while i < n
        invariant
            n == parts@.len(),
            i <= n,
            out@ == start + refs_text(parts@.take(i as int)),
        decreases n - i,
    {
        if i > 0 {
            proof {
                reveal_strlit(", ");
                assert(", "@ =~= seq![',', ' ']);
            }
            out.append(", ");
        }
        push_ref(out, parts[i]);
        proof {
            assert(parts@.take(i + 1).drop_last() =~= parts@.take(i as int));
        }
        assert(out@ =~= start + refs_text(parts@.take(i + 1)));
        i = i + 1;
    }
    assert(parts@.take(n as int) =~= parts@);
}

fn push_fields(out: &mut String, fields: &[(&str, usize)], Ghost(view): Ghost<Seq<(Seq<char>, usize)>>)
    requires
        fields@.len() == view.len(),
        forall|k: int| 0 <= k < view.len() ==> (#[trigger] fields@[k]).0@ == view[k].0 && fields@[k].1 == view[k].1,
    ensures
        final(out)@ == old(out)@ + fields_text(view),
{
    let n = fields.len();
    let ghost start = out@;
    let mut i: usize = 0;
    while i < n
        invariant
            n == fields@.len() == view.len(),
            forall|k: int| 0 <= k < view.len() ==> (#[trigger] fields@[k]).0@ == view[k].0 && fields@[k].1 == view[k].1,
            i <= n,
            out@ == start + fields_text(view.take(i as int)),
        decreases n - i,
    {
        if i > 0 {
            proof {
                reveal_strlit(", ");
                assert(", "@ =~= seq![',', ' ']);
            }
            out.append(", ");
        }
        let (key, index) = fields[i];
        out.append(key);
        proof {
            reveal_strlit(": ");
            assert(": "@ =~= seq![':', ' ']);
        }
        out.append(": ");
        push_ref(out, index);
        proof {
            assert(view.take(i + 1).drop_last() =~= view.take(i as int));
            assert(view.take(i + 1).last() == view[i as int]);
        }
        assert(out@ =~= start + fields_text(view.take(i + 1)));
        i = i + 1;
    }
    assert(view.take(n as int) =~= view);
}

fn push_type_prefix(out: &mut String, ty: &Option<Path>)
    ensures
        final(out)@ == old(out)@ + type_prefix(crate::fabricator::document::opt_path_view(*ty)),
{
    match ty {
        Some(p) => push_path(out, p),
        None => {
            assert(out@ =~= old(out)@ + Seq::<char>::empty());
        },
    }
}

fn push_expression(out: &mut String, e: &Expression)
    ensures
        final(out)@ == old(out)@ + expression_text(e@),
{
    match e {
        Expression::Number(n) => push_number(out, n),
        Expression::String(s) => out.append(s),
        Expression::Tuple(ty, parts) => {
            push_type_prefix(out, ty);
            proof {
                reveal_strlit("(");
                assert("("@ =~= seq!['(']);
            }
            out.append("(");
            push_refs(out, parts.as_slice());
            proof {
                reveal_strlit(")");
                assert(")"@ =~= seq![')']);
            }
            out.append(")");
            assert(out@ =~= old(out)@ + expression_text(e@));
        },
        Expression::Struct(ty, fields) => {
            push_type_prefix(out, ty);
            proof {
                reveal_strlit("{");
                assert("{"@ =~= seq!['{']);
            }
            out.append("{");
            push_fields(out, fields.as_slice(), Ghost(field_items(*fields)));
            proof {
                reveal_strlit("}");
                assert("}"@ =~= seq!['}']);
            }
            out.append("}");
            assert(out@ =~= old(out)@ + expression_text(e@));
        },
        Expression::List(ty, parts) => {
            push_type_prefix(out, ty);
            proof {
                reveal_strlit("[");
                assert("["@ =~= seq!['[']);
            }
            out.append("[");
            push_refs(out, parts.as_slice());
            proof {
                reveal_strlit("]");
                assert("]"@ =~= seq![']']);
            }
            out.append("]");
            assert(out@ =~= old(out)@ + expression_text(e@));
        },
        Expression::Path(p) => push_path(out, p),
        Expression::Import(i) => push_import(out, i),
    }
}

fn push_name_part(out: &mut String, r: &Register)
    ensures
        final(out)@ == old(out)@ + name_part(r@),
{
    match r.name {
        Some(name) => {
            proof {
                reveal_strlit(" ");
                assert(" "@ =~= seq![' ']);
            }
            out.append(" ");
            out.append(r.visibility.as_keyword());
            proof {
                reveal_strlit(" ");
                assert(" "@ =~= seq![' ']);
            }
            out.append(" ");
            out.append(name);
            assert(out@ =~= old(out)@ + name_part(r@));
        },
        None => {
            assert(out@ =~= old(out)@ + name_part(r@));
        },
    }
}

fn push_type_part(out: &mut String, r: &Register)
    ensures
        final(out)@ == old(out)@ + type_part(r@),
{
    match &r.variable_type {
        Some(ty) => {
            proof {
                reveal_strlit(": ");
                assert(": "@ =~= seq![':', ' ']);
            }
            out.append(": ");
            push_path(out, ty);
            if r.optional {
                proof {
                    reveal_strlit("?");
                    assert("?"@ =~= seq!['?']);
                }
                out.append("?");
            }
            assert(out@ =~= old(out)@ + type_part(r@));
        },
        None => {
            assert(out@ =~= old(out)@ + type_part(r@));
        },
    }
}

fn push_value_part(out: &mut String, r: &Register)
    ensures
        final(out)@ == old(out)@ + value_part(r@),
{
    match &r.expression {
        Some(e) => {
            proof {
                reveal_strlit(" = ");
                assert(" = "@ =~= seq![' ', '=', ' ']);
            }
            out.append(" = ");
            push_expression(out, e);
            assert(out@ =~= old(out)@ + value_part(r@));
        },
        None => {
            assert(out@ =~= old(out)@ + value_part(r@));
        },
    }
}

fn push_register(out: &mut String, r: &Register, index: usize)
    ensures
        final(out)@ == old(out)@ + register_text(r@, index),
{
    push_ref(out, index);
    push_name_part(out, r);
    push_type_part(out, r);
    push_value_part(out, r);
    assert(out@ =~= old(out)@ + register_text(r@, index));
}

impl Number {
    /// The number as the listing shows it: an integer in decimal, a
    /// decimal literal as written.
    pub fn to_debug_string(&self) -> (r: String)
        ensures
            r@ == number_text(self@),
    {
        let mut out = String::new();
        push_number(&mut out, self);
        assert(out@ =~= number_text(self@));
        out
    }
}

impl<'a> Path<'a> {
    /// The segments joined by `::`.
    pub fn to_debug_string(&self) -> (r: String)
        ensures
            r@ == path_text(self@),
    {
        let mut out = String::new();
        push_path(&mut out, self);
        assert(out@ =~= path_text(self@));
        out
    }
}

impl<'a> Import<'a> {
    /// The import as the listing shows it: its path, or `import` and the
    /// quoted file name.
    pub fn to_debug_string(&self) -> (r: String)
        ensures
            r@ == import_text(self@),
    {
        let mut out = String::new();
        push_import(&mut out, self);
        assert(out@ =~= import_text(self@));
        out
    }
}

impl<'a> Expression<'a> {
    /// The expression as the listing shows it, with `%` and an index for
    /// each register it refers to.
    pub fn to_debug_string(&self) -> (r: String)
        ensures
            r@ == expression_text(self@),
    {
        let mut out = String::new();
        push_expression(&mut out, self);
        assert(out@ =~= expression_text(self@));
        out
    }
}

impl<'a> Register<'a> {
    /// The register's listing line as register `index`.
    pub fn to_debug_string_with_index(&self, index: usize) -> (r: String)
        ensures
            r@ == register_text(self@, index),
    {
        let mut out = String::new();
        push_register(&mut out, self, index);
        assert(out@ =~= register_text(self@, index));
        out
    }

    /// The register's listing line as register `0`.
    pub fn to_debug_string(&self) -> (r: String)
        ensures
            r@ == register_text(self@, 0),
    {
        self.to_debug_string_with_index(0)
    }
}

impl Application {
    /// The application as the listing shows it: `%entity <- %expression`.
    pub fn to_debug_string(&self) -> (r: String)
        ensures
            r@ == application_text(*self),
    {
        let mut out = String::new();
        push_ref(&mut out, self.entity);
        proof {
            reveal_strlit(" <- ");
            assert(" <- "@ =~= seq![' ', '<', '-', ' ']);
        }
        out.append(" <- ");
        push_ref(&mut out, self.expression);
        assert(out@ =~= application_text(*self));
        out
    }
}

fn push_edges(out: &mut String, parts: &[usize], k: usize)
    ensures
        final(out)@ == old(out)@ + dot_edges(parts@, k),
{
    let n = parts.len();
    let ghost start = out@;
    let mut i: usize = 0;
    while i < n
        invariant
            n == parts@.len(),
            i <= n,
            out@ == start + dot_edges(parts@.take(i as int), k),
        decreases n - i,
    {
        proof {
            reveal_strlit("  v");
            assert("  v"@ =~= seq![' ', ' ', 'v']);
        }
        out.append("  v");
        push_decimal(out, parts[i]);
        proof {
            reveal_strlit(" -> v");
            assert(" -> v"@ =~= seq![' ', '-', '>', ' ', 'v']);
        }
        out.append(" -> v");
        push_decimal(out, k);
        proof {
            reveal_strlit(";\n");
            assert(";\n"@ =~= seq![';', '\n']);
        }
        out.append(";\n");
        proof {
            assert(parts@.take(i + 1).drop_last() =~= parts@.take(i as int));
        }
        assert(out@ =~= start + dot_edges(parts@.take(i + 1), k));
        i = i + 1;
    }
    assert(parts@.take(n as int) =~= parts@);
}

fn push_register_dot(out: &mut String, r: &Register, k: usize)
    ensures
        final(out)@ == old(out)@ + register_dot(r@, k),
{
    proof {
        reveal_strlit("  v");
        assert("  v"@ =~= seq![' ', ' ', 'v']);
    }
    out.append("  v");
    push_decimal(out, k);
    proof {
        reveal_strlit(" [shape=box,label=");
        assert(" [shape=box,label="@ =~= seq![' ', '[', 's', 'h', 'a', 'p', 'e', '=', 'b', 'o', 'x', ',', 'l', 'a', 'b', 'e', 'l', '=']);
    }
    out.append(" [shape=box,label=");
    let line = r.to_debug_string_with_index(k);
    let label = escape_string(line.as_str());
    out.append(label.as_str());
    proof {
        reveal_strlit("];\n");
        assert("];\n"@ =~= seq![']', ';', '\n']);
    }
    out.append("];\n");
    match &r.expression {
        Some(Expression::Tuple(_, parts)) => push_edges(out, parts.as_slice(), k),
        Some(Expression::Struct(_, fields)) => {
            let items = fields.as_slice();
            let mut indices: Vec<usize> = Vec::new();
            let mut i: usize = 0;
            while i < items.len()
                invariant
                    items@.len() == field_items(*fields).len(),
                    forall|m: int| 0 <= m < items@.len() ==> (#[trigger] items@[m]).1 == field_items(*fields)[m].1,
                    i <= items@.len(),
                    indices@ == field_indices(field_items(*fields)).take(i as int),
                decreases items@.len() - i,
            {
                indices.push(items[i].1);
                i = i + 1;
                assert(indices@ =~= field_indices(field_items(*fields)).take(i as int));
            }
            assert(indices@ =~= field_indices(field_items(*fields)));
            push_edges(out, indices.as_slice(), k);
        },
        _ => {},
    }
    assert(out@ =~= old(out)@ + register_dot(r@, k));
}

fn push_application_dot(out: &mut String, a: &Application, k: usize)
    ensures
        final(out)@ == old(out)@ + application_dot(*a, k),
{
    proof {
        reveal_strlit("  a");
        assert("  a"@ =~= seq![' ', ' ', 'a']);
    }
    out.append("  a");
    push_decimal(out, k);
    proof {
        reveal_strlit(" [label=apply]\n  a");
        assert(" [label=apply]\n  a"@ =~= seq![' ', '[', 'l', 'a', 'b', 'e', 'l', '=', 'a', 'p', 'p', 'l', 'y', ']', '\n', ' ', ' ', 'a']);
    }
    out.append(" [label=apply]\n  a");
    push_decimal(out, k);
    proof {
        reveal_strlit(" -> v");
        assert(" -> v"@ =~= seq![' ', '-', '>', ' ', 'v']);
    }
    out.append(" -> v");
    push_decimal(out, a.entity);
    proof {
        reveal_strlit("\n  v");
        assert("\n  v"@ =~= seq!['\n', ' ', ' ', 'v']);
    }
    out.append("\n  v");
    push_decimal(out, a.expression);
    proof {
        reveal_strlit(" -> a");
        assert(" -> a"@ =~= seq![' ', '-', '>', ' ', 'a']);
    }
    out.append(" -> a");
    push_decimal(out, k);
    proof {
        reveal_strlit("\n");
        assert("\n"@ =~= seq!['\n']);
    }
    out.append("\n");
    assert(out@ =~= old(out)@ + application_dot(*a, k));
}

impl<'a> Document<'a> {
    /// The document's listing: `Document {`, a line for each register and
    /// each application, and `}`.
    pub fn to_debug_string(&self) -> (r: String)
        ensures
            r@ == document_text(self@),
    {
        let mut out = String::new();
        proof {
            reveal_strlit("Document {\n");
            assert("Document {\n"@ =~= seq!['D', 'o', 'c', 'u', 'm', 'e', 'n', 't', ' ', '{', '\n']);
        }
        out.append("Document {\n");
        let n = self.registers.len();
        let mut i: usize = 0;
        while i < n
            invariant
                n == self.registers@.len() == self@.registers.len(),
                i <= n,
                out@ == seq!['D', 'o', 'c', 'u', 'm', 'e', 'n', 't', ' ', '{', '\n'] + registers_text(self@.registers.take(i as int)),
            decreases n - i,
        {
            proof {
                reveal_strlit("  ");
                assert("  "@ =~= seq![' ', ' ']);
            }
            out.append("  ");
            push_register(&mut out, &self.registers[i], i);
            proof {
                reveal_strlit(";\n");
                assert(";\n"@ =~= seq![';', '\n']);
            }
            out.append(";\n");
            proof {
                assert(self@.registers.take(i + 1).drop_last() =~= self@.registers.take(i as int));
                assert(self@.registers.take(i + 1).last() == self.registers@[i as int]@);
            }
            assert(out@ =~= seq!['D', 'o', 'c', 'u', 'm', 'e', 'n', 't', ' ', '{', '\n'] + registers_text(self@.registers.take(i + 1)));
            i = i + 1;
        }
        assert(self@.registers.take(n as int) =~= self@.registers);
        let ghost mid = out@;
        let m = self.applications.len();
        let mut j: usize = 0;
        while j < m
            invariant
                m == self.applications@.len(),
                j <= m,
                out@ == mid + applications_text(self.applications@.take(j as int)),
            decreases m - j,
        {
            proof {
                reveal_strlit("  ");
                assert("  "@ =~= seq![' ', ' ']);
            }
            out.append("  ");
            push_ref(&mut out, self.applications[j].entity);
            proof {
                reveal_strlit(" <- ");
                assert(" <- "@ =~= seq![' ', '<', '-', ' ']);
            }
            out.append(" <- ");
            push_ref(&mut out, self.applications[j].expression);
            proof {
                reveal_strlit(";\n");
                assert(";\n"@ =~= seq![';', '\n']);
            }
            out.append(";\n");
            proof {
                assert(self.applications@.take(j + 1).drop_last() =~= self.applications@.take(j as int));
            }
            assert(out@ =~= mid + applications_text(self.applications@.take(j + 1)));
            j = j + 1;
        }
        assert(self.applications@.take(m as int) =~= self.applications@);
        proof {
            reveal_strlit("}");
            assert("}"@ =~= seq!['}']);
        }
        out.append("}");
        assert(out@ =~= document_text(self@));
        out
    }

    /// The document as a Graphviz graph: a box for each register, labelled
    /// with its listing line, with edges from the elements of tuples and
    /// structs, and a node for each application.
    pub fn to_dot(&self) -> (r: String)
        ensures
            r@ == document_dot(self@),
    {
        let mut out = String::new();
        proof {
            reveal_strlit("digraph Document {\n");
            assert("digraph Document {\n"@ =~= seq!['d', 'i', 'g', 'r', 'a', 'p', 'h', ' ', 'D', 'o', 'c', 'u', 'm', 'e', 'n', 't', ' ', '{', '\n']);
        }
        out.append("digraph Document {\n");
        let n = self.registers.len();
        let mut i: usize = 0;
        while i < n
            invariant
                n == self.registers@.len() == self@.registers.len(),
                i <= n,
                out@ == seq!['d', 'i', 'g', 'r', 'a', 'p', 'h', ' ', 'D', 'o', 'c', 'u', 'm', 'e', 'n', 't', ' ', '{', '\n'] + registers_dot(self@.registers.take(i as int)),
            decreases n - i,
        {
            push_register_dot(&mut out, &self.registers[i], i);
            proof {
                assert(self@.registers.take(i + 1).drop_last() =~= self@.registers.take(i as int));
                assert(self@.registers.take(i + 1).last() == self.registers@[i as int]@);
            }
            assert(out@ =~= seq!['d', 'i', 'g', 'r', 'a', 'p', 'h', ' ', 'D', 'o', 'c', 'u', 'm', 'e', 'n', 't', ' ', '{', '\n'] + registers_dot(self@.registers.take(i + 1)));
            i = i + 1;
        }
        assert(self@.registers.take(n as int) =~= self@.registers);
        let ghost mid = out@;
        let m = self.applications.len();
        let mut j: usize = 0;
        while j < m
            invariant
                m == self.applications@.len(),
                j <= m,
                out@ == mid + applications_dot(self.applications@.take(j as int)),
            decreases m - j,
        {
            push_application_dot(&mut out, &self.applications[j], j);
            proof {
                assert(self.applications@.take(j + 1).drop_last() =~= self.applications@.take(j as int));
            }
            assert(out@ =~= mid + applications_dot(self.applications@.take(j + 1)));
            j = j + 1;
        }
        assert(self.applications@.take(m as int) =~= self.applications@);
        proof {
            reveal_strlit("}\n");
            assert("}\n"@ =~= seq!['}', '\n']);
        }
        out.append("}\n");
        assert(out@ =~= document_dot(self@));
        out
    }
}

/// What a string literal error says, after its position.
pub open spec fn string_error_message(empty: bool) -> Seq<char> {
    if empty {
        seq!['e', 'm', 'p', 't', 'y', ' ', 's', 't', 'r', 'i', 'n', 'g', ' ', 'l', 'i', 't', 'e', 'r', 'a', 'l']
    } else {
        seq!['u', 'n', 'c', 'l', 'o', 's', 'e', 'd', ' ', 's', 't', 'r', 'i', 'n', 'g', ' ', 'l', 'i', 't', 'e', 'r', 'a', 'l']
    }
}

/// What a document error says, after its position.
pub open spec fn error_message(e: ParseError<()>) -> Seq<char> {
    match e {
        ParseError::StringError(s) => string_error_message(s.spec_is_empty()),
        ParseError::ExpectedExpression(_) => seq!['e', 'x', 'p', 'e', 'c', 't', 'e', 'd', ' ', 'e', 'x', 'p', 'r', 'e', 's', 's', 'i', 'o', 'n'],
        ParseError::UnclosedTuple(_) => seq!['u', 'n', 'c', 'l', 'o', 's', 'e', 'd', ' ', 't', 'u', 'p', 'l', 'e'],
        ParseError::ExpectedIdentifier(_) => seq!['e', 'x', 'p', 'e', 'c', 't', 'e', 'd', ' ', 'i', 'd', 'e', 'n', 't', 'i', 'f', 'i', 'e', 'r'],
        ParseError::ExpectedColon(_) => seq!['e', 'x', 'p', 'e', 'c', 't', 'e', 'd', ' ', 'c', 'o', 'l', 'o', 'n'],
        ParseError::UnclosedStruct(_) => seq!['u', 'n', 'c', 'l', 'o', 's', 'e', 'd', ' ', 's', 't', 'r', 'u', 'c', 't'],
        ParseError::UnclosedList(_) => seq!['u', 'n', 'c', 'l', 'o', 's', 'e', 'd', ' ', 'l', 'i', 's', 't'],
        ParseError::ExpectedKeyword { at, keyword } => seq!['e', 'x', 'p', 'e', 'c', 't', 'e', 'd', ' '] + keyword@ + seq![' ', 'k', 'e', 'y', 'w', 'o', 'r', 'd'],
        ParseError::ExpectedPath(_) => seq!['e', 'x', 'p', 'e', 'c', 't', 'e', 'd', ' ', 'p', 'a', 't', 'h'],
        ParseError::ExpectedSemiColon(_) => seq!['e', 'x', 'p', 'e', 'c', 't', 'e', 'd', ' ', 's', 'e', 'm', 'i', '-', 'c', 'o', 'l', 'o', 'n'],
        ParseError::ExpectedOpenBrace(_) => seq!['e', 'x', 'p', 'e', 'c', 't', 'e', 'd', ' ', 'o', 'p', 'e', 'n', ' ', 'b', 'r', 'a', 'c', 'e'],
        ParseError::ExpectedImportPath(_) => seq!['e', 'x', 'p', 'e', 'c', 't', 'e', 'd', ' ', 'i', 'm', 'p', 'o', 'r', 't', ' ', 'p', 'a', 't', 'h'],
        ParseError::ExpectedIntRadix(_, radix) => seq!['e', 'x', 'p', 'e', 'c', 't', 'e', 'd', ' ', 'i', 'n', 't', 'e', 'g', 'e', 'r', ' ', '(', 'w', 'i', 't', 'h', ' ', 'r', 'a', 'd', 'i', 'x', ' '] + decimal(radix as nat) + seq![')'],
    }
}

fn push_string_error_message(out: &mut String, empty: bool)
    ensures
        final(out)@ == old(out)@ + string_error_message(empty),
{
    if empty {
        proof {
            reveal_strlit("empty string literal");
            assert("empty string literal"@ =~= seq!['e', 'm', 'p', 't', 'y', ' ', 's', 't', 'r', 'i', 'n', 'g', ' ', 'l', 'i', 't', 'e', 'r', 'a', 'l']);
        }
        out.append("empty string literal");
    } else {
        proof {
            reveal_strlit("unclosed string literal");
            assert("unclosed string literal"@ =~= seq!['u', 'n', 'c', 'l', 'o', 's', 'e', 'd', ' ', 's', 't', 'r', 'i', 'n', 'g', ' ', 'l', 'i', 't', 'e', 'r', 'a', 'l']);
        }
        out.append("unclosed string literal");
    }
}

impl<P: SourcePosition> string::ParseError<P> {
    /// The error as text: the position's address, `: ` and what is wrong.
    pub fn to_string(&self) -> (r: String)
        ensures
            r@ == self.spec_position().spec_address() + seq![':', ' '] + string_error_message(self.spec_is_empty()),
    {
        let (p, empty) = match self {
            string::ParseError::EmptyString(p) => (p, true),
            string::ParseError::UnclosedString(p) => (p, false),
        };
        let mut out = p.address();
        proof {
            reveal_strlit(": ");
            assert(": "@ =~= seq![':', ' ']);
        }
        out.append(": ");
        push_string_error_message(&mut out, empty);
        out
    }
}

impl<P: SourcePosition> ParseError<P> {
    /// The error as text: the position's address, `: ` and what is wrong.
    pub fn to_string(&self) -> (r: String)
        ensures
            r@ == self.spec_position().spec_address() + seq![':', ' '] + error_message(self.spec_shape()),
    {
        let mut out = match self {
            ParseError::StringError(string::ParseError::EmptyString(p)) => p.address(),
            ParseError::StringError(string::ParseError::UnclosedString(p)) => p.address(),
            ParseError::ExpectedExpression(p) => p.address(),
            ParseError::UnclosedTuple(p) => p.address(),
            ParseError::ExpectedIdentifier(p) => p.address(),
            ParseError::ExpectedColon(p) => p.address(),
            ParseError::UnclosedStruct(p) => p.address(),
            ParseError::UnclosedList(p) => p.address(),
            ParseError::ExpectedKeyword { at, keyword } => at.address(),
            ParseError::ExpectedPath(p) => p.address(),
            ParseError::ExpectedSemiColon(p) => p.address(),
            ParseError::ExpectedOpenBrace(p) => p.address(),
            ParseError::ExpectedImportPath(p) => p.address(),
            ParseError::ExpectedIntRadix(p, _) => p.address(),
        };
        proof {
            reveal_strlit(": ");
            assert(": "@ =~= seq![':', ' ']);
        }
        out.append(": ");
        match self {
            ParseError::StringError(string::ParseError::EmptyString(_)) => push_string_error_message(&mut out, true),
            ParseError::StringError(string::ParseError::UnclosedString(_)) => push_string_error_message(&mut out, false),
            ParseError::ExpectedExpression(_) => {
                proof {
                    reveal_strlit("expected expression");
                    assert("expected expression"@ =~= seq!['e', 'x', 'p', 'e', 'c', 't', 'e', 'd', ' ', 'e', 'x', 'p', 'r', 'e', 's', 's', 'i', 'o', 'n']);
                }
                out.append("expected expression");
            },
            ParseError::UnclosedTuple(_) => {
                proof {
                    reveal_strlit("unclosed tuple");
                    assert("unclosed tuple"@ =~= seq!['u', 'n', 'c', 'l', 'o', 's', 'e', 'd', ' ', 't', 'u', 'p', 'l', 'e']);
                }
                out.append("unclosed tuple");
            },
            ParseError::ExpectedIdentifier(_) => {
                proof {
                    reveal_strlit("expected identifier");
                    assert("expected identifier"@ =~= seq!['e', 'x', 'p', 'e', 'c', 't', 'e', 'd', ' ', 'i', 'd', 'e', 'n', 't', 'i', 'f', 'i', 'e', 'r']);
                }
                out.append("expected identifier");
            },
            ParseError::ExpectedColon(_) => {
                proof {
                    reveal_strlit("expected colon");
                    assert("expected colon"@ =~= seq!['e', 'x', 'p', 'e', 'c', 't', 'e', 'd', ' ', 'c', 'o', 'l', 'o', 'n']);
                }
                out.append("expected colon");
            },
            ParseError::UnclosedStruct(_) => {
                proof {
                    reveal_strlit("unclosed struct");
                    assert("unclosed struct"@ =~= seq!['u', 'n', 'c', 'l', 'o', 's', 'e', 'd', ' ', 's', 't', 'r', 'u', 'c', 't']);
                }
                out.append("unclosed struct");
            },
            ParseError::UnclosedList(_) => {
                proof {
                    reveal_strlit("unclosed list");
                    assert("unclosed list"@ =~= seq!['u', 'n', 'c', 'l', 'o', 's', 'e', 'd', ' ', 'l', 'i', 's', 't']);
                }
                out.append("unclosed list");
            },
            ParseError::ExpectedKeyword { at, keyword } => {
                proof {
                    reveal_strlit("expected ");
                    assert("expected "@ =~= seq!['e', 'x', 'p', 'e', 'c', 't', 'e', 'd', ' ']);
                }
                out.append("expected ");
                out.append(keyword);
                proof {
                    reveal_strlit(" keyword");
                    assert(" keyword"@ =~= seq![' ', 'k', 'e', 'y', 'w', 'o', 'r', 'd']);
                }
                out.append(" keyword");
            },
            ParseError::ExpectedPath(_) => {
                proof {
                    reveal_strlit("expected path");
                    assert("expected path"@ =~= seq!['e', 'x', 'p', 'e', 'c', 't', 'e', 'd', ' ', 'p', 'a', 't', 'h']);
                }
                out.append("expected path");
            },
            ParseError::ExpectedSemiColon(_) => {
                proof {
                    reveal_strlit("expected semi-colon");
                    assert("expected semi-colon"@ =~= seq!['e', 'x', 'p', 'e', 'c', 't', 'e', 'd', ' ', 's', 'e', 'm', 'i', '-', 'c', 'o', 'l', 'o', 'n']);
                }
                out.append("expected semi-colon");
            },
            ParseError::ExpectedOpenBrace(_) => {
                proof {
                    reveal_strlit("expected open brace");
                    assert("expected open brace"@ =~= seq!['e', 'x', 'p', 'e', 'c', 't', 'e', 'd', ' ', 'o', 'p', 'e', 'n', ' ', 'b', 'r', 'a', 'c', 'e']);
                }
                out.append("expected open brace");
            },
            ParseError::ExpectedImportPath(_) => {
                proof {
                    reveal_strlit("expected import path");
                    assert("expected import path"@ =~= seq!['e', 'x', 'p', 'e', 'c', 't', 'e', 'd', ' ', 'i', 'm', 'p', 'o', 'r', 't', ' ', 'p', 'a', 't', 'h']);
                }
                out.append("expected import path");
            },
            ParseError::ExpectedIntRadix(_, radix) => {
                proof {
                    reveal_strlit("expected integer (with radix ");
                    assert("expected integer (with radix "@ =~= seq!['e', 'x', 'p', 'e', 'c', 't', 'e', 'd', ' ', 'i', 'n', 't', 'e', 'g', 'e', 'r', ' ', '(', 'w', 'i', 't', 'h', ' ', 'r', 'a', 'd', 'i', 'x', ' ']);
                }
                out.append("expected integer (with radix ");
                push_decimal_u64(&mut out, *radix as u64);
                proof {
                    reveal_strlit(")");
                    assert(")"@ =~= seq![')']);
                }
                out.append(")");
            },
        }
        assert(out@ =~= self.spec_position().spec_address() + seq![':', ' '] + error_message(self.spec_shape()));
        out
    }
}

/// The number that a run of decimal digits denotes.
pub open spec fn digits_value(t: Seq<char>) -> int
    decreases t.len(),
{
    if t.len() == 0 {
        0
    } else {
        10 * digits_value(t.drop_last()) + (t.last() as int - '0' as int)
    }
}

/// The number that an integer's text denotes: its digits, negated when a
/// minus sign comes first.
pub open spec fn signed_value(t: Seq<char>) -> int {
    if t.len() > 0 && t[0] == '-' {
        -digits_value(t.drop_first())
    } else {
        digits_value(t)
    }
}

/// The decimal text of `n` is one or more digits, and denotes `n`.
proof fn lemma_decimal_denotes(n: nat)
    ensures
        decimal(n).len() > 0,
        forall|k: int| 0 <= k < decimal(n).len() ==> '0' <= #[trigger] decimal(n)[k] <= '9',
        digits_value(decimal(n)) == n,
    decreases n,
{
    assert('0' as int == 48);
    if n < 10 {
        assert(((48 + n) as char) as int == 48 + n);
        assert(decimal(n).drop_last() =~= Seq::<char>::empty());
        assert(digits_value(decimal(n)) == 10 * digits_value(decimal(n).drop_last()) + (decimal(n).last() as int
            - '0' as int));
    } else {
        lemma_decimal_denotes(n / 10);
        let t = decimal(n);
        assert(t.drop_last() =~= decimal(n / 10));
        assert(t.last() == (48 + n % 10) as char);
        assert(((48 + n % 10) as char) as int == 48 + n % 10);
        assert(n == 10 * (n / 10) + n % 10);
        assert(digits_value(t) == 10 * digits_value(t.drop_last()) + (t.last() as int - '0' as int));
        assert forall|k: int| 0 <= k < t.len() implies '0' <= #[trigger] t[k] <= '9' by {
            if k < t.len() - 1 {
                assert(t[k] == decimal(n / 10)[k]);
            }
        }
    }
}

/// The listing shows an integer as text that reads back to it: a minus sign
/// comes first exactly for a negative number, and the digits after it give
/// the number's size.
pub proof fn lemma_number_text_reads_back(n: NumberView)
    requires
        !(n is F64),
    ensures
        number_text(n).len() > 0,
        n matches NumberView::I64(v) ==> signed_value(number_text(n)) == v as int && (number_text(n)[0] == '-'
            <==> v < 0),
        n matches NumberView::U64(v) ==> signed_value(number_text(n)) == v as int && number_text(n)[0] != '-',
{
    match n {
        NumberView::I64(v) => {
            if v < 0 {
                let m = (-(v as int)) as nat;
                lemma_decimal_denotes(m);
                assert((seq!['-'] + decimal(m)).drop_first() =~= decimal(m));
            } else {
                lemma_decimal_denotes(v as nat);
                assert('0' <= decimal(v as nat)[0] <= '9');
            }
        },
        NumberView::U64(v) => {
            lemma_decimal_denotes(v as nat);
            assert('0' <= decimal(v as nat)[0] <= '9');
        },
        NumberView::F64(_) => {},
    }
}

} // verus!
