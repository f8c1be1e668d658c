//! The field binder: resolves a `$F(name)` row-field reference against one
//! data record, yielding at most one cell text.
//!
//! The field name is obtained by stripping the fixed prefix `$F(` and the
//! suffix `)` from the reference literal; as with the `str` trim operations
//! this strips *every* leading `$F(` and every trailing `)`, and a literal
//! that does not match the exact shape still yields the trimmed result as
//! the field name. That trimmed name is looked up verbatim in the record.

use vstd::prelude::*;
use crate::data::Json;
use crate::data::JsonV;
use crate::data::spec_obj_get;

verus! {

/// `s` with every leading repetition of `$F(` removed.
pub open spec fn trim_fprefix(s: Seq<char>) -> Seq<char>
    decreases s.len(),
{
    if s.len() >= 3 && s[0] == '$' && s[1] == 'F' && s[2] == '(' {
        trim_fprefix(s.skip(3))
    } else {
        s
    }
}

/// `s` with every trailing `)` removed.
pub open spec fn trim_closers(s: Seq<char>) -> Seq<char>
    decreases s.len(),
{
    if s.len() > 0 && s[s.len() - 1] == ')' {
        trim_closers(s.take(s.len() - 1))
    } else {
        s
    }
}

/// The field name a `$F(...)` reference literal denotes.
pub open spec fn field_of_expr(s: Seq<char>) -> Seq<char> {
    trim_closers(trim_fprefix(s))
}

/// The cell a field yields against a record: a string field yields its text,
/// a numeric field its canonical text, and anything else (a missing field,
/// or a bool, null, array or object value) yields no cell.
pub open spec fn spec_bind_cell(record: JsonV, field: Seq<char>) -> Option<Seq<char>> {
    match record {
        JsonV::Obj(entries) => match spec_obj_get(entries, field) {
            Some(JsonV::Str(s)) => Some(s),
            Some(JsonV::Num { text, int_val }) => Some(text),
            _ => None,
        },
        _ => None,
    }
}

/// Strips the fixed `$F(` prefix and `)` suffix from a reference literal.
pub fn field_name_of(expr: &str) -> (r: String)
    ensures
        r@ == field_of_expr(expr@),
{
    let n = expr.unicode_len();
    let mut i: usize = 0;
    proof {
        assert(expr@.subrange(0, n as int) =~= expr@);
    }
    while n - i >= 3 && expr.get_char(i) == '$' && expr.get_char(i + 1) == 'F' && expr.get_char(
        i + 2,
    ) == '('
        invariant
            i <= n,
            n == expr@.len(),
            trim_fprefix(expr@.subrange(i as int, n as int)) == trim_fprefix(expr@),
        decreases n - i,
    {
        proof {
            let rest = expr@.subrange(i as int, n as int);
            assert(rest.len() >= 3 && rest[0] == '$' && rest[1] == 'F' && rest[2] == '(');
            assert(rest.skip(3) =~= expr@.subrange(i + 3, n as int));
        }
        i = i + 3;
    }
    proof {
        let rest = expr@.subrange(i as int, n as int);
        assert(!(rest.len() >= 3 && rest[0] == '$' && rest[1] == 'F' && rest[2] == '('));
        assert(trim_fprefix(rest) == rest);
    }
    let mut j = n;
    while j > i && expr.get_char(j - 1) == ')'
        invariant
            i <= j <= n,
            n == expr@.len(),
            trim_fprefix(expr@) == expr@.subrange(i as int, n as int),
            trim_closers(expr@.subrange(i as int, j as int)) == trim_closers(
                expr@.subrange(i as int, n as int),
            ),
        decreases j,
    {
        proof {
            let cur = expr@.subrange(i as int, j as int);
            assert(cur.len() > 0 && cur[cur.len() - 1] == ')');
            assert(cur.take(cur.len() - 1) =~= expr@.subrange(i as int, j - 1));
        }
        j = j - 1;
    }
    proof {
        let cur = expr@.subrange(i as int, j as int);
        assert(!(cur.len() > 0 && cur[cur.len() - 1] == ')'));
        assert(trim_closers(cur) == cur);
    }
    String::from_str(expr.substring_char(i, j))
}

/// Resolves one `$F(...)` reference against one data record: at most one
/// cell text comes back, exactly when the named field is a string or a
/// number in the record.
pub fn bind_field(expr: &str, record: &Json) -> (r: Option<String>)
    ensures
        match r {
            Some(c) => spec_bind_cell(record@, field_of_expr(expr@)) == Some(c@),
            None => spec_bind_cell(record@, field_of_expr(expr@)) is None,
        },
{
    let field = field_name_of(expr);
    match record.obj_get(field.as_str()) {
        Some(v) => match v {
            Json::Str(s) => Some(s.clone()),
            Json::Num { text, int_val } => Some(text.clone()),
            _ => None,
        },
        None => None,
    }
}

} // verus!
