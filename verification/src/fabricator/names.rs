//! The names of a document, as building a fabricator from it first binds
//! them: each named register's index, the inputs, the import aliases
//! resolved through earlier aliases, and the files imported.

use vstd::prelude::*;
use vstd::string::StrSliceExecFns;
use vstd::string::StringExecFns;

use crate::fabricator::document::{
    file_imports_ok, Document, DocumentView, Expression, ExpressionView, Import, ImportView, Path,
    RegisterView, Visibility,
};
use crate::fabricator::lists::PathSegments;
use crate::fabricator::string::{parse_string, unescaped};
use crate::source::{decimal, push_decimal};

verus! {

/// A name declared twice: the later register and the earlier one.
#[derive(Clone, Debug)]
pub struct DuplicateName<'a> {
    pub name: &'a str,
    pub index: usize,
    pub last_index: usize,
}

impl<'a> DuplicateName<'a> {
    /// The error as text.
    pub fn to_string(&self) -> (r: String)
        ensures
            r@ == seq!['d', 'u', 'p', 'l', 'i', 'c', 'a', 't', 'e', ' ', 'v', 'a', 'r', 'i', 'a', 'b', 'l', 'e', ' ', 'n', 'a', 'm', 'e', ':', ' ', '\''] + self.name@ + seq!['\'', ' ', '(', 'i', 'n', 'd', 'e', 'x', ' '] + decimal(self.index as nat)
                + seq![' ', 'a', 'n', 'd', ' '] + decimal(self.last_index as nat) + seq![')'],
    {
        let mut out = String::new();
        proof {
            reveal_strlit("duplicate variable name: '");
            assert("duplicate variable name: '"@ =~= seq!['d', 'u', 'p', 'l', 'i', 'c', 'a', 't', 'e', ' ', 'v', 'a', 'r', 'i', 'a', 'b', 'l', 'e', ' ', 'n', 'a', 'm', 'e', ':', ' ', '\'']);
        }
        out.append("duplicate variable name: '");
        out.append(self.name);
        proof {
            reveal_strlit("' (index ");
            assert("' (index "@ =~= seq!['\'', ' ', '(', 'i', 'n', 'd', 'e', 'x', ' ']);
        }
        out.append("' (index ");
        push_decimal(&mut out, self.index);
        proof {
            reveal_strlit(" and ");
            assert(" and "@ =~= seq![' ', 'a', 'n', 'd', ' ']);
        }
        out.append(" and ");
        push_decimal(&mut out, self.last_index);
        proof {
            reveal_strlit(")");
            assert(")"@ =~= seq![')']);
        }
        out.append(")");
        out
    }
}

/// The names a document binds.
pub struct Names<'a> {
    /// Each name with the register it names; `$` names the entity being
    /// built, one past the last register.
    pub locals: Vec<(&'a str, usize)>,
    /// Each input's name, register, and whether it must be given.
    pub inputs: Vec<(&'a str, usize, bool)>,
    /// Whether some input must be given because it has no default value.
    pub requires_an_input: bool,
    /// Each path import's name with the path it stands for.
    pub aliases: Vec<(&'a str, Path<'a>)>,
    /// Each file import's name with the file's name, escapes replaced.
    pub file_imports: Vec<(&'a str, String)>,
}

pub struct NamesView {
    pub locals: Seq<(Seq<char>, usize)>,
    pub inputs: Seq<(Seq<char>, usize, bool)>,
    pub requires_an_input: bool,
    pub aliases: Seq<(Seq<char>, Seq<Seq<char>>)>,
    pub file_imports: Seq<(Seq<char>, Seq<char>)>,
}

impl<'a> View for Names<'a> {
    type V = NamesView;

    open spec fn view(&self) -> NamesView {
        NamesView {
            locals: self.locals@.map_values(|l: (&'a str, usize)| (l.0@, l.1)),
            inputs: self.inputs@.map_values(|l: (&'a str, usize, bool)| (l.0@, l.1, l.2)),
            requires_an_input: self.requires_an_input,
            aliases: self.aliases@.map_values(|l: (&'a str, Path<'a>)| (l.0@, l.1@)),
            file_imports: self.file_imports@.map_values(|l: (&'a str, String)| (l.0@, l.1@)),
        }
    }
}

/// The register that `name` names in `locals`, if any.
pub open spec fn local_index(locals: Seq<(Seq<char>, usize)>, name: Seq<char>) -> Option<usize>
    decreases locals.len(),
{
    if locals.len() == 0 {
        None
    } else if locals.last().0 == name {
        Some(locals.last().1)
    } else {
        local_index(locals.drop_last(), name)
    }
}

/// The path that `name` stands for in `aliases`, if any.
pub open spec fn alias_of(aliases: Seq<(Seq<char>, Seq<Seq<char>>)>, name: Seq<char>) -> Option<Seq<Seq<char>>>
    decreases aliases.len(),
{
    if aliases.len() == 0 {
        None
    } else if aliases.last().0 == name {
        Some(aliases.last().1)
    } else {
        alias_of(aliases.drop_last(), name)
    }
}

/// `p` with its first segment replaced by the path it is an alias for,
/// when it is one.
pub open spec fn resolve_alias(aliases: Seq<(Seq<char>, Seq<Seq<char>>)>, p: Seq<Seq<char>>) -> Seq<Seq<char>> {
    if p.len() > 0 {
        match alias_of(aliases, p[0]) {
            Some(q) => q + p.skip(1),
            None => p,
        }
    } else {
        p
    }
}

/// The names before any register: `$` for the entity, at `root`.
pub open spec fn names_start(root: usize) -> NamesView {
    NamesView {
        locals: seq![(seq!['$'], root)],
        inputs: Seq::empty(),
        requires_an_input: false,
        aliases: Seq::empty(),
        file_imports: Seq::empty(),
    }
}

/// The names after register `r`, at index `k`: a name already bound is an
/// error, given as the name, `k` and the earlier index.
pub open spec fn name_step(v: NamesView, r: RegisterView, k: usize) -> Result<NamesView, (Seq<char>, usize, usize)> {
    match r.name {
        None => Ok(v),
        Some(n) => match local_index(v.locals, n) {
            Some(last) => Err((n, k, last)),
            None => {
                let is_input = r.visibility == Visibility::In;
                Ok(NamesView {
                    locals: v.locals.push((n, k)),
                    inputs: if is_input { v.inputs.push((n, k, !r.optional)) } else { v.inputs },
                    requires_an_input: v.requires_an_input || (is_input && !r.optional && r.expression is None),
                    aliases: match r.expression {
                        Some(ExpressionView::Import(ImportView::Path(p))) => v.aliases.push((n, resolve_alias(v.aliases, p))),
                        _ => v.aliases,
                    },
                    file_imports: match r.expression {
                        Some(ExpressionView::Import(ImportView::File(f))) => v.file_imports.push((n, unescaped(f, 1))),
                        _ => v.file_imports,
                    },
                })
            },
        },
    }
}

/// The names that the registers `rs` bind, `$` being at `root`.
pub open spec fn names_upto(rs: Seq<RegisterView>, root: usize) -> Result<NamesView, (Seq<char>, usize, usize)>
    decreases rs.len(),
{
    if rs.len() == 0 {
        Ok(names_start(root))
    } else {
        match names_upto(rs.drop_last(), root) {
            Err(e) => Err(e),
            Ok(v) => name_step(v, rs.last(), (rs.len() - 1) as usize),
        }
    }
}

/// The names that document `d` binds.
pub open spec fn names_of(d: DocumentView) -> Result<NamesView, (Seq<char>, usize, usize)> {
    names_upto(d.registers, d.registers.len() as usize)
}

/// Once some registers bind a name twice, all of them do.
proof fn lemma_names_error_stays(rs: Seq<RegisterView>, root: usize, j: int)
    requires
        0 <= j <= rs.len(),
        names_upto(rs.take(j), root) is Err,
    ensures
        names_upto(rs.take(rs.len() as int), root) == names_upto(rs.take(j), root),
    decreases rs.len() - j,
{
    if j < rs.len() {
        assert(rs.take(j + 1).drop_last() =~= rs.take(j));
        lemma_names_error_stays(rs, root, j + 1);
    }
}

/// Whether `a` and `b` are the same text.
fn same_text(a: &str, b: &str) -> (r: bool)
    ensures
        r == (a@ == b@),
{
    let n = a.unicode_len();
    if n != b.unicode_len() {
        return false;
    }
    let mut k: usize = 0;
    while k < n
        invariant
            n == a@.len() == b@.len(),
            k <= n,
            forall|m: int| 0 <= m < k ==> a@[m] == b@[m],
        decreases n - k,
    {
        if a.get_char(k) != b.get_char(k) {
            return false;
        }
        k = k + 1;
    }
    assert(a@ =~= b@);
    true
}

fn find_local(locals: &Vec<(&str, usize)>, name: &str) -> (r: Option<usize>)
    ensures
        r == local_index(locals@.map_values(|l: (&str, usize)| (l.0@, l.1)), name@),
{
    let ghost view = locals@.map_values(|l: (&str, usize)| (l.0@, l.1));
    let mut k = locals.len();
    assert(view.take(k as int) =~= view);
    while k > 0
        invariant
            k <= locals@.len(),
            view == locals@.map_values(|l: (&str, usize)| (l.0@, l.1)),
            local_index(view, name@) == local_index(view.take(k as int), name@),
        decreases k,
    {
        assert(view.take(k as int).drop_last() =~= view.take(k - 1));
        if same_text(locals[k - 1].0, name) {
            return Some(locals[k - 1].1);
        }
        k = k - 1;
    }
    assert(view.take(0) =~= Seq::<(Seq<char>, usize)>::empty());
    None
}

fn find_alias<'b, 'a>(aliases: &'b Vec<(&'a str, Path<'a>)>, name: &str) -> (r: Option<&'b Path<'a>>)
    ensures
        match alias_of(aliases@.map_values(|l: (&'a str, Path<'a>)| (l.0@, l.1@)), name@) {
            Some(q) => r is Some && r->0@ == q,
            None => r is None,
        },
{
    let ghost view = aliases@.map_values(|l: (&'a str, Path<'a>)| (l.0@, l.1@));
    let mut k = aliases.len();
    assert(view.take(k as int) =~= view);
    while k > 0
        invariant
            k <= aliases@.len(),
            view == aliases@.map_values(|l: (&'a str, Path<'a>)| (l.0@, l.1@)),
            alias_of(view, name@) == alias_of(view.take(k as int), name@),
        decreases k,
    {
        assert(view.take(k as int).drop_last() =~= view.take(k - 1));
        if same_text(aliases[k - 1].0, name) {
            return Some(&aliases[k - 1].1);
        }
        k = k - 1;
    }
    assert(view.take(0) =~= Seq::<(Seq<char>, Seq<Seq<char>>)>::empty());
    None
}

/// `path` with its first segment replaced by the path it is an alias for,
/// when it is one.
fn resolve_path<'a>(aliases: &Vec<(&'a str, Path<'a>)>, path: &Path<'a>) -> (r: Path<'a>)
    ensures
        r@ == resolve_alias(aliases@.map_values(|l: (&'a str, Path<'a>)| (l.0@, l.1@)), path@),
{
    let segments = path.0.as_slice();
    if segments.len() == 0 {
        return path.clone();
    }
    match find_alias(aliases, segments[0]) {
        None => path.clone(),
        Some(existing) => {
            // The slice bounds how many segments `existing` has.
            let _ = existing.0.as_slice();
            let mut out = PathSegments::new();
            out.extend_from(&existing.0);
            let ghost start = crate::fabricator::lists::path_segment_items(out);
            let mut i: usize = 1;
            while i < segments.len()
                invariant
                    segments@.len() == path@.len() <= usize::MAX / 16,
                    forall|k: int| 0 <= k < segments@.len() ==> (#[trigger] segments@[k])@ == path@[k],
                    start.len() <= usize::MAX / 16,
                    1 <= i <= segments@.len(),
                    crate::fabricator::lists::path_segment_items(out) == start + path@.subrange(1, i as int),
                decreases segments@.len() - i,
            {
                out.push(segments[i]);
                i = i + 1;
                assert(crate::fabricator::lists::path_segment_items(out) =~= start + path@.subrange(1, i as int));
            }
            assert(path@.subrange(1, i as int) =~= path@.skip(1));
            Path(out)
        },
    }
}

impl<'a> Document<'a> {
    /// The names the document binds, registers read in order: a name
    /// declared twice is an error that gives both registers.
    pub fn resolve_names(&self) -> (r: Result<Names<'a>, DuplicateName<'a>>)
        requires
            file_imports_ok(self@),
        ensures
            match names_of(self@) {
                Ok(v) => r is Ok && r->Ok_0@ == v,
                Err((name, index, last_index)) => r is Err && r->Err_0.name@ == name
                    && r->Err_0.index == index && r->Err_0.last_index == last_index,
            },
    {
        let n = self.registers.len();
        proof {
            reveal_strlit("$");
            assert("$"@ =~= seq!['$']);
        }
        let mut names = Names {
            locals: vec![("$", n)],
            inputs: Vec::new(),
            requires_an_input: false,
            aliases: Vec::new(),
            file_imports: Vec::new(),
        };
        assert(names@.locals =~= names_start(n).locals);
        assert(names@.inputs =~= Seq::<(Seq<char>, usize, bool)>::empty());
        assert(names@.aliases =~= Seq::<(Seq<char>, Seq<Seq<char>>)>::empty());
        assert(names@.file_imports =~= Seq::<(Seq<char>, Seq<char>)>::empty());
        let mut i: usize = 0;
        while i < n
            invariant
                n == self.registers@.len() == self@.registers.len(),
                file_imports_ok(self@),
                i <= n,
                names_upto(self@.registers.take(i as int), n) == Ok::<NamesView, (Seq<char>, usize, usize)>(names@),
            decreases n - i,
        {
            let register = &self.registers[i];
            assert(self@.registers.take(i + 1).drop_last() =~= self@.registers.take(i as int));
            assert(self@.registers.take(i + 1).last() == register@);
            match register.name {
                None => {},
                Some(name) => {
                    match find_local(&names.locals, name) {
                        Some(last_index) => {
                            proof {
                                lemma_names_error_stays(self@.registers, n, (i + 1) as int);
                                assert(self@.registers.take(n as int) =~= self@.registers);
                            }
                            return Err(DuplicateName { name, index: i, last_index });
                        },
                        None => {},
                    }
                    let ghost before = names@;
                    names.locals.push((name, i));
                    let is_input = register.visibility == Visibility::In;
                    if is_input {
                        names.inputs.push((name, i, !register.optional));
                        if !register.optional && register.expression.is_none() {
                            names.requires_an_input = true;
                        }
                    }
                    match &register.expression {
                        Some(Expression::Import(Import::Path(path))) => {
                            let resolved = resolve_path(&names.aliases, path);
                            names.aliases.push((name, resolved));
                        },
                        Some(Expression::Import(Import::File(file_path))) => {
                            assert(self@.registers[i as int].expression == Some(ExpressionView::Import(ImportView::File(file_path@))));
                            match parse_string(file_path) {
                                Ok(Some((_, text))) => {
                                    names.file_imports.push((name, text));
                                },
                                _ => {},
                            }
                        },
                        _ => {},
                    }
                    assert(names@.locals =~= before.locals.push((name@, i)));
                    assert(names@.inputs =~= (if is_input { before.inputs.push((name@, i, !register.optional)) } else { before.inputs }));
                    assert(names@.aliases =~= match register@.expression {
                        Some(ExpressionView::Import(ImportView::Path(p))) => before.aliases.push((name@, resolve_alias(before.aliases, p))),
                        _ => before.aliases,
                    });
                    assert(names@.file_imports =~= match register@.expression {
                        Some(ExpressionView::Import(ImportView::File(f))) => before.file_imports.push((name@, unescaped(f, 1))),
                        _ => before.file_imports,
                    });
                },
            }
            i = i + 1;
        }
        assert(self@.registers.take(n as int) =~= self@.registers);
        Ok(names)
    }
}

} // verus!
