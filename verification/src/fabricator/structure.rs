//! What every document read from text is like: each register is built only
//! from registers before it, each application names registers of the
//! document, and each imported file is named by one whole literal.

use vstd::prelude::*;

use crate::fabricator::document::{
    as_keyword, at, digits_run, document_from, empty_document, expression_at, expression_register,
    fields_from, file_import_at, file_import_ok, file_imports_ok, float_end, ident_end, import_at,
    import_group, import_keyword, import_register, items_from, keyword_end, lemma_digits_run,
    lemma_ident_end, lemma_path_at, lemma_radix_scan, lemma_ws_end, number_at, parse_document,
    path_at, path_import_at, refs_below, register_ok, statement_at, value_at, variable_at,
    visibility_at, well_formed, whole_literal, with_application, with_expression, with_register,
    ws_end, DocumentView, ExpressionView, ImportView, RegisterView, Visibility,
};
use crate::fabricator::string::{lemma_fragments_end_bounds, lemma_literal_cut, literal_at};

verus! {

/// `d2` is well formed and has at least the registers of `d`, and at most
/// `room` more.
pub open spec fn grown(d: DocumentView, d2: DocumentView, room: int) -> bool {
    &&& well_formed(d2)
    &&& d.registers.len() <= d2.registers.len() <= d.registers.len() + room
}

/// Room for the registers still to come: one per character left.
pub open spec fn room_left(d: DocumentView, s: Seq<char>, i: int) -> bool {
    &&& 0 <= i <= s.len()
    &&& d.registers.len() + s.len() - i <= usize::MAX / 2
}

proof fn lemma_with_register(d: DocumentView, r: RegisterView)
    requires
        well_formed(d),
        register_ok(r, d.registers.len() as int),
    ensures
        well_formed(with_register(d, r)),
{
    let d2 = with_register(d, r);
    assert forall|k: int| 0 <= k < d2.registers.len() implies register_ok(#[trigger] d2.registers[k], k) by {
        if k < d.registers.len() {
            assert(d2.registers[k] == d.registers[k]);
        }
    }
}

proof fn lemma_with_expression(d: DocumentView, x: ExpressionView)
    requires
        well_formed(d),
        d.registers.len() < usize::MAX,
        refs_below(x, d.registers.len() as int),
        file_import_ok(x),
    ensures
        well_formed(with_expression(d, x).0),
        with_expression(d, x).0.registers.len() == d.registers.len() + 1,
        with_expression(d, x).1 == d.registers.len(),
{
    lemma_with_register(d, expression_register(x));
}

proof fn lemma_items_wf(d: DocumentView, s: Seq<char>, r: int, close: char, body: Seq<usize>)
    requires
        well_formed(d),
        room_left(d, s, r),
        forall|k: int| 0 <= k < body.len() ==> (#[trigger] body[k]) < d.registers.len(),
    ensures
        match items_from(d, s, r, close, body) {
            Ok((d2, e, b)) => grown(d, d2, e - r - 1) && r < e <= s.len()
                && forall|k: int| 0 <= k < b.len() ==> (#[trigger] b[k]) < d2.registers.len(),
            Err(_) => true,
        },
    decreases s.len() - r, 4int,
{
    if r < s.len() {
        lemma_ws_end(s, r);
        let r1 = ws_end(s, r);
        if !at(s, r1, close) {
            lemma_expression_wf(d, s, r1);
            if let Ok(Some((d2, next, x))) = expression_at(d, s, r1) {
                lemma_with_expression(d2, x);
                let (d3, index) = with_expression(d2, x);
                let b2 = body.push(index);
                assert forall|k: int| 0 <= k < b2.len() implies (#[trigger] b2[k]) < d3.registers.len() by {
                    if k < body.len() {
                        assert(b2[k] == body[k]);
                    }
                }
                lemma_ws_end(s, next);
                let r2 = ws_end(s, next);
                if at(s, r2, ',') && r1 < next <= s.len() {
                    lemma_ws_end(s, r2 + 1);
                    lemma_items_wf(d3, s, ws_end(s, r2 + 1), close, b2);
                }
            }
        }
    }
}

proof fn lemma_fields_wf(d: DocumentView, s: Seq<char>, r: int, body: Seq<(Seq<char>, usize)>)
    requires
        well_formed(d),
        room_left(d, s, r),
        forall|k: int| 0 <= k < body.len() ==> (#[trigger] body[k]).1 < d.registers.len(),
    ensures
        match fields_from(d, s, r, body) {
            Ok((d2, e, b)) => grown(d, d2, e - r - 1) && r < e <= s.len()
                && forall|k: int| 0 <= k < b.len() ==> (#[trigger] b[k]).1 < d2.registers.len(),
            Err(_) => true,
        },
    decreases s.len() - r, 4int,
{
    if r < s.len() {
        lemma_ws_end(s, r);
        let r1 = ws_end(s, r);
        if !at(s, r1, '}') {
            lemma_ident_end(s, r1);
            if let Some(ke) = ident_end(s, r1) {
                let key = s.subrange(r1, ke);
                lemma_ws_end(s, ke);
                let r2 = ws_end(s, ke);
                if at(s, r2, ',') || at(s, r2, '}') {
                    let x = ExpressionView::Path(seq![key]);
                    lemma_with_expression(d, x);
                    let (d2, index) = with_expression(d, x);
                    let b2 = body.push((key, index));
                    assert forall|k: int| 0 <= k < b2.len() implies (#[trigger] b2[k]).1 < d2.registers.len() by {
                        if k < body.len() {
                            assert(b2[k] == body[k]);
                        }
                    }
                    if at(s, r2, ',') {
                        lemma_ws_end(s, r2 + 1);
                        lemma_fields_wf(d2, s, ws_end(s, r2 + 1), b2);
                    }
                } else if at(s, r2, ':') {
                    lemma_ws_end(s, r2 + 1);
                    let r3 = ws_end(s, r2 + 1);
                    lemma_expression_wf(d, s, r3);
                    if let Ok(Some((d2, next, x))) = expression_at(d, s, r3) {
                        lemma_with_expression(d2, x);
                        let (d3, index) = with_expression(d2, x);
                        let b2 = body.push((key, index));
                        assert forall|k: int| 0 <= k < b2.len() implies (#[trigger] b2[k]).1 < d3.registers.len() by {
                            if k < body.len() {
                                assert(b2[k] == body[k]);
                            }
                        }
                        lemma_ws_end(s, next);
                        let r4 = ws_end(s, next);
                        if at(s, r4, ',') && r3 < next <= s.len() {
                            lemma_ws_end(s, r4 + 1);
                            lemma_fields_wf(d3, s, ws_end(s, r4 + 1), b2);
                        }
                    }
                }
            }
        }
    }
}

proof fn lemma_expression_wf(d: DocumentView, s: Seq<char>, i: int)
    requires
        well_formed(d),
        room_left(d, s, i),
    ensures
        match expression_at(d, s, i) {
            Ok(Some((d2, e, x))) => grown(d, d2, e - i - 1) && i < e <= s.len()
                && refs_below(x, d2.registers.len() as int) && file_import_ok(x),
            _ => true,
        },
    decreases s.len() - i, 3int,
{
    lemma_number_at(s, i);
    lemma_fragments_end_bounds(s, i + 1, false);
    match number_at(s, i) {
        Ok(None) => match literal_at(s, i) {
            None => if at(s, i, '(') {
                lemma_items_wf(d, s, i + 1, ')', Seq::empty());
            } else if at(s, i, '{') {
                lemma_fields_wf(d, s, i + 1, Seq::empty());
            } else if at(s, i, '[') {
                lemma_items_wf(d, s, i + 1, ']', Seq::empty());
            } else {
                lemma_path_at(s, i);
                if let Some((pe, p)) = path_at(s, i) {
                    lemma_ws_end(s, pe);
                    let rest = ws_end(s, pe);
                    if at(s, rest, '(') {
                        lemma_items_wf(d, s, rest + 1, ')', Seq::empty());
                    } else if at(s, rest, '{') {
                        lemma_fields_wf(d, s, rest + 1, Seq::empty());
                    } else if at(s, rest, '[') {
                        lemma_items_wf(d, s, rest + 1, ']', Seq::empty());
                    }
                }
            },
            _ => {},
        },
        _ => {},
    }
}

proof fn lemma_float_end(s: Seq<char>, i: int)
    requires
        0 <= i <= s.len(),
    ensures
        float_end(s, i) is Some ==> i < float_end(s, i)->0 <= s.len(),
{
    lemma_digits_run(s, i);
    let d1 = digits_run(s, i);
    if at(s, d1, '.') {
        lemma_digits_run(s, d1 + 1);
    }
    let r = if at(s, d1, '.') { digits_run(s, d1 + 1) } else { d1 };
    if at(s, r, 'e') || at(s, r, 'E') {
        let k = if at(s, r + 1, '+') || at(s, r + 1, '-') { r + 2 } else { r + 1 };
        lemma_digits_run(s, k);
    }
}

proof fn lemma_number_at(s: Seq<char>, i: int)
    requires
        0 <= i <= s.len(),
    ensures
        match number_at(s, i) {
            Ok(Some((e, _))) => i < e <= s.len(),
            _ => true,
        },
{
    let signed = at(s, i, '+') || at(s, i, '-');
    let j = if signed { i + 1 } else { i };
    if at(s, j, '0') && (at(s, j + 1, 'x') || at(s, j + 1, 'o') || at(s, j + 1, 'b')) {
        let radix: u32 = if at(s, j + 1, 'x') { 16 } else if at(s, j + 1, 'o') { 8 } else { 2 };
        lemma_radix_scan(s, j + 2, radix, j + 2, 0);
    } else {
        lemma_float_end(s, i);
    }
}

proof fn lemma_with_application(d: DocumentView, entity: usize, expression: usize)
    requires
        well_formed(d),
        entity < d.registers.len(),
        expression < d.registers.len(),
    ensures
        well_formed(with_application(d, entity, expression)),
{
    let d2 = with_application(d, entity, expression);
    assert forall|a: int| 0 <= a < d2.applications.len() implies (#[trigger] d2.applications[a]).entity < d2.registers.len()
        && d2.applications[a].expression < d2.registers.len() by {
        if a < d.applications.len() {
            assert(d2.applications[a] == d.applications[a]);
        }
    }
}

proof fn lemma_keyword_end(s: Seq<char>, i: int, kw: Seq<char>)
    ensures
        keyword_end(s, i, kw) is Some ==> i < keyword_end(s, i, kw)->0 <= s.len(),
{
    lemma_ident_end(s, i);
}

proof fn lemma_path_import_wf(d: DocumentView, s: Seq<char>, i: int, root: Seq<Seq<char>>)
    requires
        well_formed(d),
        room_left(d, s, i),
    ensures
        match path_import_at(d, s, i, root) {
            Ok(Some((d2, e))) => grown(d, d2, e - i) && i < e <= s.len(),
            _ => true,
        },
    decreases s.len() - i, 0int,
{
    lemma_path_at(s, i);
    if let Some((pe, p)) = path_at(s, i) {
        lemma_ws_end(s, pe);
        let rest = ws_end(s, pe);
        let path = root + p;
        if at(s, rest, ':') && at(s, rest + 1, ':') {
            lemma_ws_end(s, rest + 2);
            let r1 = ws_end(s, rest + 2);
            if at(s, r1, '{') {
                lemma_ws_end(s, r1 + 1);
                lemma_group_wf(d, s, ws_end(s, r1 + 1), path);
            }
        } else {
            lemma_keyword_end(s, rest, as_keyword());
            match keyword_end(s, rest, as_keyword()) {
                Some(k) => {
                    lemma_ws_end(s, k);
                    let r2 = ws_end(s, k);
                    lemma_ident_end(s, r2);
                    if let Some(ne) = ident_end(s, r2) {
                        lemma_with_register(d, import_register(s.subrange(r2, ne), ImportView::Path(path)));
                    }
                },
                None => {
                    lemma_with_register(d, import_register(path.last(), ImportView::Path(path)));
                },
            }
        }
    }
}

proof fn lemma_group_wf(d: DocumentView, s: Seq<char>, r: int, path: Seq<Seq<char>>)
    requires
        well_formed(d),
        room_left(d, s, r),
    ensures
        match import_group(d, s, r, path) {
            Ok(Some((d2, e))) => grown(d, d2, e - r) && r < e <= s.len(),
            _ => true,
        },
    decreases s.len() - r, 1int,
{
    if at(s, r, '}') {
        lemma_ws_end(s, r + 1);
    } else {
        lemma_path_import_wf(d, s, r, path);
        if let Ok(Some((d2, next))) = path_import_at(d, s, r, path) {
            if r < next <= s.len() {
                lemma_ws_end(s, next);
                let r2 = ws_end(s, next);
                if at(s, r2, ',') {
                    lemma_ws_end(s, r2 + 1);
                    lemma_group_wf(d2, s, ws_end(s, r2 + 1), path);
                } else if at(s, r2, '}') {
                    lemma_group_wf(d2, s, r2, path);
                }
            }
        }
    }
}

proof fn lemma_file_import_wf(s: Seq<char>, i: int, n: int)
    requires
        0 <= i <= s.len(),
    ensures
        match file_import_at(s, i) {
            Ok(Some((e, reg))) => i < e <= s.len() && register_ok(reg, n),
            _ => true,
        },
{
    lemma_fragments_end_bounds(s, i + 1, false);
    if let Some(Ok(le)) = literal_at(s, i) {
        lemma_literal_cut(s, i, le);
        assert(whole_literal(s.subrange(i, le)));
        lemma_ws_end(s, le);
        let rest = ws_end(s, le);
        lemma_keyword_end(s, rest, as_keyword());
        if let Some(k) = keyword_end(s, rest, as_keyword()) {
            lemma_ws_end(s, k);
            lemma_ident_end(s, ws_end(s, k));
        }
    }
}

proof fn lemma_import_wf(d: DocumentView, s: Seq<char>, i: int)
    requires
        well_formed(d),
        room_left(d, s, i),
    ensures
        match import_at(d, s, i) {
            Ok(Some((d2, e))) => grown(d, d2, e - i) && i < e <= s.len(),
            _ => true,
        },
{
    lemma_keyword_end(s, i, import_keyword());
    if let Some(k) = keyword_end(s, i, import_keyword()) {
        lemma_ws_end(s, k);
        let rest = ws_end(s, k);
        if at(s, rest, '"') {
            lemma_file_import_wf(s, rest, d.registers.len() as int);
            if let Ok(Some((e, reg))) = file_import_at(s, rest) {
                lemma_with_register(d, reg);
            }
        } else {
            lemma_path_import_wf(d, s, rest, Seq::empty());
        }
    }
}

proof fn lemma_value_wf(
    d: DocumentView,
    s: Seq<char>,
    r: int,
    name: Seq<char>,
    visibility: Visibility,
    ty: Option<Seq<Seq<char>>>,
    optional: bool,
)
    requires
        well_formed(d),
        room_left(d, s, r),
    ensures
        match value_at(d, s, r, name, visibility, ty, optional) {
            Ok(Some((d2, e, reg))) => grown(d, d2, e - r) && r <= e <= s.len()
                && register_ok(reg, d2.registers.len() as int),
            _ => true,
        },
{
    let has_value = at(s, r, '=');
    lemma_ws_end(s, if has_value { r + 1 } else { r });
    let r1 = ws_end(s, if has_value { r + 1 } else { r });
    if has_value {
        lemma_expression_wf(d, s, r1);
        if let Ok(Some((d2, next, x))) = expression_at(d, s, r1) {
            lemma_ws_end(s, next);
        }
    }
}

proof fn lemma_variable_wf(d: DocumentView, s: Seq<char>, i: int)
    requires
        well_formed(d),
        room_left(d, s, i),
    ensures
        match variable_at(d, s, i) {
            Ok(Some((d2, e, reg))) => grown(d, d2, e - i - 1) && i < e <= s.len()
                && register_ok(reg, d2.registers.len() as int),
            _ => true,
        },
{
    lemma_ident_end(s, i);
    if let Some((k, visibility)) = visibility_at(s, i) {
        lemma_ws_end(s, k);
        let r1 = ws_end(s, k);
        lemma_ident_end(s, r1);
        if let Some(ne) = ident_end(s, r1) {
            let name = s.subrange(r1, ne);
            lemma_ws_end(s, ne);
            let r2 = ws_end(s, ne);
            let has_type = at(s, r2, ':');
            lemma_ws_end(s, if has_type { r2 + 1 } else { r2 });
            let r3 = ws_end(s, if has_type { r2 + 1 } else { r2 });
            if has_type {
                lemma_path_at(s, r3);
                if let Some((pe, p)) = path_at(s, r3) {
                    lemma_ws_end(s, pe);
                    let r4 = ws_end(s, pe);
                    let optional = at(s, r4, '?');
                    if optional {
                        lemma_ws_end(s, r4 + 1);
                    }
                    let r5 = if optional { ws_end(s, r4 + 1) } else { r4 };
                    lemma_value_wf(d, s, r5, name, visibility, Some(p), optional);
                }
            } else {
                lemma_value_wf(d, s, r3, name, visibility, None, false);
            }
        }
    }
}

proof fn lemma_statement_wf(d: DocumentView, s: Seq<char>, i: int)
    requires
        well_formed(d),
        room_left(d, s, i),
    ensures
        match statement_at(d, s, i) {
            Ok(Some((d2, e))) => grown(d, d2, e - i) && i < e <= s.len(),
            _ => true,
        },
{
    lemma_import_wf(d, s, i);
    if let Ok(None) = import_at(d, s, i) {
        lemma_variable_wf(d, s, i);
        match variable_at(d, s, i) {
            Ok(Some((d2, r, reg))) => {
                lemma_with_register(d2, reg);
            },
            Ok(None) => {
                lemma_expression_wf(d, s, i);
                if let Ok(Some((d2, next, x))) = expression_at(d, s, i) {
                    lemma_with_expression(d2, x);
                    let (d3, entity) = with_expression(d2, x);
                    lemma_ws_end(s, next);
                    let r = ws_end(s, next);
                    if at(s, r, '<') && at(s, r + 1, '-') {
                        lemma_ws_end(s, r + 2);
                        let r2 = ws_end(s, r + 2);
                        lemma_expression_wf(d3, s, r2);
                        if let Ok(Some((d4, n2, x2))) = expression_at(d3, s, r2) {
                            lemma_with_expression(d4, x2);
                            let (d5, source) = with_expression(d4, x2);
                            lemma_with_application(d5, entity, source);
                        }
                    }
                }
            },
            _ => {},
        }
    }
}

proof fn lemma_document_wf(d: DocumentView, s: Seq<char>, r: int)
    requires
        well_formed(d),
        room_left(d, s, r),
    ensures
        document_from(d, s, r) is Ok ==> well_formed(document_from(d, s, r)->Ok_0),
    decreases s.len() - r,
{
    if r < s.len() {
        lemma_ws_end(s, r);
        let r1 = ws_end(s, r);
        if r1 < s.len() {
            if at(s, r1, ';') {
                lemma_ws_end(s, r1 + 1);
                lemma_document_wf(d, s, ws_end(s, r1 + 1));
            } else {
                lemma_statement_wf(d, s, r1);
                if let Ok(Some((d2, next))) = statement_at(d, s, r1) {
                    if r1 < next <= s.len() {
                        lemma_ws_end(s, next);
                        let r2 = ws_end(s, next);
                        if r2 < s.len() && at(s, r2, ';') {
                            lemma_ws_end(s, r2 + 1);
                            lemma_document_wf(d2, s, ws_end(s, r2 + 1));
                        }
                    }
                }
            }
        }
    }
}

/// Every document read from text is well formed: each register is built
/// only from registers before it, each application names registers of the
/// document, and each imported file is named by one whole string literal.
pub proof fn lemma_parsed_document_well_formed(s: Seq<char>)
    requires
        s.len() <= usize::MAX / 2,
    ensures
        parse_document(s) is Ok ==> well_formed(parse_document(s)->Ok_0),
{
    assert(well_formed(empty_document()));
    lemma_document_wf(empty_document(), s, 0);
}

/// A well-formed document names each imported file by one whole literal.
pub proof fn lemma_well_formed_file_imports(d: DocumentView)
    requires
        well_formed(d),
    ensures
        file_imports_ok(d),
{
    assert forall|k: int| 0 <= k < d.registers.len() implies match (#[trigger] d.registers[k]).expression {
        Some(e) => file_import_ok(e),
        None => true,
    } by {
        assert(register_ok(d.registers[k], k));
    }
}

} // verus!
