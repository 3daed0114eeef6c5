//! Reading a lattice description: each rule of the grammar as a function that
//! advances its input past what it reads.

use vstd::prelude::*;
use crate::grammar::{
    StatementView, symbol_at, expr_at, use_at, assignment_at, assignment_statement_at,
    separator_at, assignments_after, assignments_at, parameters_at, element_at, item_at,
    items_after, items_at, line_at, statement_at, statements_at,
};
use crate::text::{
    ws_end, lemma_ws_end, lemma_symbol_end, lemma_expr_end, chars_of, skip_whitespace,
    skip_symbol, skip_expression, has_at,
};

verus! {

/// The text does not match the rule that was asked for.
#[derive(Debug, Clone, Copy, PartialEq, Eq, Structural)]
pub struct ParseError;

/// A statement of a lattice description; its parts borrow the text.
#[derive(Debug, PartialEq)]
pub enum Statement<'a> {
    /// A variable and the expression assigned to it.
    Assignment(&'a str, &'a str),
    /// An element's name, its type name, and its parameters with their
    /// expressions, in the order written.
    Element(&'a str, &'a str, Vec<(&'a str, &'a str)>),
    /// A line's name and the names it lists, in order.
    Line(&'a str, Vec<&'a str>),
    /// The name of the line that the description selects.
    Use(&'a str),
}

pub open spec fn pairs_view(ps: Seq<(&str, &str)>) -> Seq<(Seq<char>, Seq<char>)> {
    ps.map_values(|p: (&str, &str)| (p.0@, p.1@))
}

pub open spec fn names_view(ns: Seq<&str>) -> Seq<Seq<char>> {
    ns.map_values(|n: &str| n@)
}

impl<'a> View for Statement<'a> {
    type V = StatementView;

    open spec fn view(&self) -> StatementView {
        match self {
            Statement::Assignment(v, e) => StatementView::Assignment(v@, e@),
            Statement::Element(n, t, ps) => StatementView::Element(n@, t@, pairs_view(ps@)),
            Statement::Line(n, ns) => StatementView::Line(n@, names_view(ns@)),
            Statement::Use(n) => StatementView::Use(n@),
        }
    }
}

pub open spec fn statements_view(v: Seq<Statement>) -> Seq<StatementView> {
    v.map_values(|st: Statement| st@)
}

/// What a rule read at the start of `s`: on success the token and the rest of
/// the text; on failure an error and the text unchanged.
pub open spec fn read_token(
    s: &str,
    rest: &str,
    r: Result<&str, ParseError>,
    m: Option<(Seq<char>, int)>,
) -> bool {
    match m {
        Some((t, j)) => r matches Ok(x) && x@ == t && rest@ == s@.subrange(j, s@.len() as int),
        None => r is Err && rest == s,
    }
}

/// Like `read_token`, for rules that read a name and an expression.
pub open spec fn read_pair(
    s: &str,
    rest: &str,
    r: Result<(&str, &str), ParseError>,
    m: Option<(Seq<char>, Seq<char>, int)>,
) -> bool {
    match m {
        Some((n, e, j)) => r matches Ok(x) && x.0@ == n && x.1@ == e && rest@ == s@.subrange(
            j,
            s@.len() as int,
        ),
        None => r is Err && rest == s,
    }
}

fn symbol_from<'a>(s: &'a str, cs: &Vec<char>, i: usize) -> (r: Option<(&'a str, usize)>)
    requires
        cs@ == s@,
        i <= cs.len(),
    ensures
        match symbol_at(s@, i as int) {
            Some((t, j)) => r matches Some(x) && x.0@ == t && x.1 == j,
            None => r is None,
        },
        r matches Some(x) ==> i < x.1 <= cs.len(),
{
    proof {
        lemma_symbol_end(cs@, i as int);
    }
    let j = skip_symbol(cs, i);
    if j > i {
        Some((s.substring_char(i, j), j))
    } else {
        None
    }
}

fn expr_from<'a>(s: &'a str, cs: &Vec<char>, i: usize) -> (r: Option<(&'a str, usize)>)
    requires
        cs@ == s@,
        i <= cs.len(),
    ensures
        match expr_at(s@, i as int) {
            Some((t, j)) => r matches Some(x) && x.0@ == t && x.1 == j,
            None => r is None,
        },
        r matches Some(x) ==> i < x.1 <= cs.len(),
{
    proof {
        lemma_expr_end(cs@, i as int);
    }
    let j = skip_expression(cs, i);
    if j > i {
        Some((s.substring_char(i, j), j))
    } else {
        None
    }
}

fn whitespace_from(cs: &Vec<char>, i: usize) -> (j: usize)
    requires
        i <= cs.len(),
    ensures
        j == ws_end(cs@, i as int),
        i <= j <= cs.len(),
{
    proof {
        lemma_ws_end(cs@, i as int);
    }
    skip_whitespace(cs, i)
}

fn use_from<'a>(s: &'a str, cs: &Vec<char>, i: usize) -> (r: Option<(&'a str, usize)>)
    requires
        cs@ == s@,
        i <= cs.len(),
    ensures
        match use_at(s@, i as int) {
            Some((t, j)) => r matches Some(x) && x.0@ == t && x.1 == j,
            None => r is None,
        },
        r matches Some(x) ==> i < x.1 <= cs.len(),
{
    proof {
        reveal_strlit("USE:");
    }
    if !has_at(cs, i, "USE:") {
        return None;
    }
    let p = whitespace_from(cs, i + 4);
    match symbol_from(s, cs, p) {
        Some((name, j)) => if j < cs.len() && cs[j] == ';' {
            Some((name, j + 1))
        } else {
            None
        },
        None => None,
    }
}

fn assignment_from<'a>(s: &'a str, cs: &Vec<char>, i: usize) -> (r: Option<
    (&'a str, &'a str, usize),
>)
    requires
        cs@ == s@,
        i <= cs.len(),
    ensures
        match assignment_at(s@, i as int) {
            Some((n, e, j)) => r matches Some(x) && x.0@ == n && x.1@ == e && x.2 == j,
            None => r is None,
        },
        r matches Some(x) ==> i < x.2 <= cs.len(),
{
    match symbol_from(s, cs, i) {
        Some((name, a)) => {
            let p = whitespace_from(cs, a);
            if p < cs.len() && cs[p] == '=' {
                let b = whitespace_from(cs, p + 1);
                match expr_from(s, cs, b) {
                    Some((e, j)) => Some((name, e, j)),
                    None => None,
                }
            } else {
                None
            }
        },
        None => None,
    }
}

fn assignment_statement_from<'a>(s: &'a str, cs: &Vec<char>, i: usize) -> (r: Option<
    (&'a str, &'a str, usize),
>)
    requires
        cs@ == s@,
        i <= cs.len(),
    ensures
        match assignment_statement_at(s@, i as int) {
            Some((n, e, j)) => r matches Some(x) && x.0@ == n && x.1@ == e && x.2 == j,
            None => r is None,
        },
        r matches Some(x) ==> i < x.2 <= cs.len(),
{
    match assignment_from(s, cs, i) {
        Some((name, e, j)) => {
            let k = whitespace_from(cs, j);
            if k < cs.len() && cs[k] == ';' {
                Some((name, e, k + 1))
            } else {
                None
            }
        },
        None => None,
    }
}

fn separator_from(cs: &Vec<char>, i: usize) -> (r: Option<usize>)
    requires
        i <= cs.len(),
    ensures
        match separator_at(cs@, i as int) {
            Some(q) => r matches Some(x) && x == q,
            None => r is None,
        },
        r matches Some(x) ==> i < x <= cs.len(),
{
    let a = whitespace_from(cs, i);
    if a < cs.len() && cs[a] == ',' {
        Some(whitespace_from(cs, a + 1))
    } else {
        None
    }
}

fn assignments_from<'a>(s: &'a str, cs: &Vec<char>, i: usize) -> (r: (Vec<(&'a str, &'a str)>, usize))
    requires
        cs@ == s@,
        i <= cs.len(),
    ensures
        pairs_view(r.0@) == assignments_at(s@, i as int).0,
        r.1 == assignments_at(s@, i as int).1,
        i <= r.1 <= cs.len(),
{
    let mut v: Vec<(&'a str, &'a str)> = Vec::new();
    let (name, e, j) = match assignment_from(s, cs, i) {
        Some(x) => x,
        None => {
            assert(pairs_view(v@) =~= seq![]);
            return (v, i);
        },
    };
    v.push((name, e));
    let ghost all = assignments_after(s@, j as int);
    let mut p = j;
    loop
        invariant
            cs@ == s@,
            i < j <= p <= cs.len(),
            pairs_view(v@) + assignments_after(s@, p as int).0 == seq![(name@, e@)] + all.0,
            assignments_after(s@, p as int).1 == all.1,
        ensures
            assignments_after(s@, p as int).0 == Seq::<(Seq<char>, Seq<char>)>::empty(),
            assignments_after(s@, p as int).1 == p,
        decreases cs.len() - p,
    {
        let q = match separator_from(cs, p) {
            Some(q) => q,
            None => {
                break;
            },
        };
        match assignment_from(s, cs, q) {
            Some((n2, e2, k)) => {
                let ghost before = pairs_view(v@);
                v.push((n2, e2));
                assert(pairs_view(v@) =~= before + seq![(n2@, e2@)]);
                assert(assignments_after(s@, p as int).0 =~= seq![(n2@, e2@)]
                    + assignments_after(s@, k as int).0);
                p = k;
            },
            None => {
                break;
            },
        }
    }
    assert(pairs_view(v@) =~= seq![(name@, e@)] + all.0);
    (v, p)
}

fn parameters_from<'a>(s: &'a str, cs: &Vec<char>, i: usize) -> (r: (Vec<(&'a str, &'a str)>, usize))
    requires
        cs@ == s@,
        i <= cs.len(),
    ensures
        pairs_view(r.0@) == parameters_at(s@, i as int).0,
        r.1 == parameters_at(s@, i as int).1,
        i <= r.1 <= cs.len(),
{
    if i < cs.len() && cs[i] == ',' {
        let a = whitespace_from(cs, i + 1);
        assignments_from(s, cs, a)
    } else {
        let v: Vec<(&'a str, &'a str)> = Vec::new();
        assert(pairs_view(v@) =~= seq![]);
        (v, i)
    }
}

fn element_from<'a>(s: &'a str, cs: &Vec<char>, i: usize) -> (r: Option<
    (&'a str, &'a str, Vec<(&'a str, &'a str)>, usize),
>)
    requires
        cs@ == s@,
        i <= cs.len(),
    ensures
        match element_at(s@, i as int) {
            Some((n, t, ps, j)) => r matches Some(x) && x.0@ == n && x.1@ == t && pairs_view(
                x.2@,
            ) == ps && x.3 == j,
            None => r is None,
        },
        r matches Some(x) ==> i < x.3 <= cs.len(),
{
    let (name, a) = match symbol_from(s, cs, i) {
        Some(x) => x,
        None => return None,
    };
    let p = whitespace_from(cs, a);
    if !(p < cs.len() && cs[p] == ':') {
        return None;
    }
    let q = whitespace_from(cs, p + 1);
    let (typ, b) = match symbol_from(s, cs, q) {
        Some(x) => x,
        None => return None,
    };
    let c = whitespace_from(cs, b);
    let (params, e) = parameters_from(s, cs, c);
    if e < cs.len() && cs[e] == ';' {
        Some((name, typ, params, e + 1))
    } else {
        None
    }
}

fn item_from<'a>(s: &'a str, cs: &Vec<char>, i: usize) -> (r: Option<(&'a str, usize)>)
    requires
        cs@ == s@,
        i <= cs.len(),
    ensures
        match item_at(s@, i as int) {
            Some((t, j)) => r matches Some(x) && x.0@ == t && x.1 == j,
            None => r is None,
        },
        r matches Some(x) ==> i < x.1 <= cs.len(),
{
    let a = whitespace_from(cs, i);
    match symbol_from(s, cs, a) {
        Some((name, j)) => Some((name, whitespace_from(cs, j))),
        None => None,
    }
}

fn items_from<'a>(s: &'a str, cs: &Vec<char>, i: usize) -> (r: (Vec<&'a str>, usize))
    requires
        cs@ == s@,
        i <= cs.len(),
    ensures
        names_view(r.0@) == items_at(s@, i as int).0,
        r.1 == items_at(s@, i as int).1,
        i <= r.1 <= cs.len(),
{
    let mut v: Vec<&'a str> = Vec::new();
    let (name, j) = match item_from(s, cs, i) {
        Some(x) => x,
        None => {
            assert(names_view(v@) =~= seq![]);
            return (v, i);
        },
    };
    v.push(name);
    let ghost all = items_after(s@, j as int);
    let mut p = j;
    loop
        invariant
            cs@ == s@,
            i < j <= p <= cs.len(),
            names_view(v@) + items_after(s@, p as int).0 == seq![name@] + all.0,
            items_after(s@, p as int).1 == all.1,
        ensures
            items_after(s@, p as int).0 == Seq::<Seq<char>>::empty(),
            items_after(s@, p as int).1 == p,
        decreases cs.len() - p,
    {
        let q = match separator_from(cs, p) {
            Some(q) => q,
            None => {
                break;
            },
        };
        match item_from(s, cs, q) {
            Some((n2, k)) => {
                let ghost before = names_view(v@);
                v.push(n2);
                assert(names_view(v@) =~= before + seq![n2@]);
                assert(items_after(s@, p as int).0 =~= seq![n2@] + items_after(s@, k as int).0);
                p = k;
            },
            None => {
                break;
            },
        }
    }
    assert(names_view(v@) =~= seq![name@] + all.0);
    (v, p)
}

fn line_from<'a>(s: &'a str, cs: &Vec<char>, i: usize) -> (r: Option<(&'a str, Vec<&'a str>, usize)>)
    requires
        cs@ == s@,
        i <= cs.len(),
    ensures
        match line_at(s@, i as int) {
            Some((n, ns, j)) => r matches Some(x) && x.0@ == n && names_view(x.1@) == ns && x.2
                == j,
            None => r is None,
        },
        r matches Some(x) ==> i < x.2 <= cs.len(),
{
    proof {
        reveal_strlit("LINE");
    }
    let (name, a) = match symbol_from(s, cs, i) {
        Some(x) => x,
        None => return None,
    };
    let p = whitespace_from(cs, a);
    if !(p < cs.len() && cs[p] == ':') {
        return None;
    }
    let q = whitespace_from(cs, p + 1);
    if !has_at(cs, q, "LINE") {
        return None;
    }
    let r = whitespace_from(cs, q + 4);
    if !(r < cs.len() && cs[r] == '=') {
        return None;
    }
    let o = whitespace_from(cs, r + 1);
    if !(o < cs.len() && cs[o] == '(') {
        return None;
    }
    let (items, k) = items_from(s, cs, o + 1);
    if k < cs.len() && cs[k] == ')' && k + 1 < cs.len() && cs[k + 1] == ';' {
        Some((name, items, k + 2))
    } else {
        None
    }
}

fn statement_from<'a>(s: &'a str, cs: &Vec<char>, i: usize) -> (r: Option<(Statement<'a>, usize)>)
    requires
        cs@ == s@,
        i <= cs.len(),
    ensures
        match statement_at(s@, i as int) {
            Some((st, j)) => r matches Some(x) && x.0@ == st && x.1 == j,
            None => r is None,
        },
        r matches Some(x) ==> i < x.1 <= cs.len(),
{
    if let Some((name, j)) = use_from(s, cs, i) {
        return Some((Statement::Use(name), j));
    }
    if let Some((name, typ, params, j)) = element_from(s, cs, i) {
        return Some((Statement::Element(name, typ, params), j));
    }
    if let Some((name, items, j)) = line_from(s, cs, i) {
        return Some((Statement::Line(name, items), j));
    }
    if let Some((name, e, j)) = assignment_statement_from(s, cs, i) {
        return Some((Statement::Assignment(name, e), j));
    }
    None
}

/// Reads the whitespace at the start of `input`, possibly none.
pub fn optional_whitespace<'a>(input: &mut &'a str) -> (r: Result<&'a str, ParseError>)
    ensures
        read_token(
            *old(input),
            *final(input),
            r,
            Some((old(input)@.subrange(0, ws_end(old(input)@, 0)), ws_end(old(input)@, 0))),
        ),
{
    let s: &'a str = *input;
    let cs = chars_of(s);
    let j = whitespace_from(&cs, 0);
    *input = s.substring_char(j, cs.len());
    Ok(s.substring_char(0, j))
}

/// Reads a name: one or more alphanumerics, `_` or `-`.
pub fn symbol<'a>(input: &mut &'a str) -> (r: Result<&'a str, ParseError>)
    ensures
        read_token(*old(input), *final(input), r, symbol_at(old(input)@, 0)),
{
    let s: &'a str = *input;
    let cs = chars_of(s);
    match symbol_from(s, &cs, 0) {
        Some((t, j)) => {
            *input = s.substring_char(j, cs.len());
            Ok(t)
        },
        None => Err(ParseError),
    }
}

/// Reads `USE:`, optional whitespace, a name and `;`, and gives the name.
pub fn use_instruction<'a>(input: &mut &'a str) -> (r: Result<&'a str, ParseError>)
    ensures
        read_token(*old(input), *final(input), r, use_at(old(input)@, 0)),
{
    let s: &'a str = *input;
    let cs = chars_of(s);
    match use_from(s, &cs, 0) {
        Some((t, j)) => {
            *input = s.substring_char(j, cs.len());
            Ok(t)
        },
        None => Err(ParseError),
    }
}

/// Reads an expression: everything up to the first `;` or `,`, which is left
/// in place; at least one character.
pub fn expr_til_semicolon_or_comma<'a>(input: &mut &'a str) -> (r: Result<&'a str, ParseError>)
    ensures
        read_token(*old(input), *final(input), r, expr_at(old(input)@, 0)),
{
    let s: &'a str = *input;
    let cs = chars_of(s);
    match expr_from(s, &cs, 0) {
        Some((t, j)) => {
            *input = s.substring_char(j, cs.len());
            Ok(t)
        },
        None => Err(ParseError),
    }
}

/// Reads `name = expression` and gives the name and the expression.
pub fn variable_assignment<'a>(input: &mut &'a str) -> (r: Result<(&'a str, &'a str), ParseError>)
    ensures
        read_pair(*old(input), *final(input), r, assignment_at(old(input)@, 0)),
{
    let s: &'a str = *input;
    let cs = chars_of(s);
    match assignment_from(s, &cs, 0) {
        Some((n, e, j)) => {
            *input = s.substring_char(j, cs.len());
            Ok((n, e))
        },
        None => Err(ParseError),
    }
}

/// Reads an assignment that ends with `;`.
pub fn variable_assignment_statement<'a>(input: &mut &'a str) -> (r: Result<
    (&'a str, &'a str),
    ParseError,
>)
    ensures
        read_pair(*old(input), *final(input), r, assignment_statement_at(old(input)@, 0)),
{
    let s: &'a str = *input;
    let cs = chars_of(s);
    match assignment_statement_from(s, &cs, 0) {
        Some((n, e, j)) => {
            *input = s.substring_char(j, cs.len());
            Ok((n, e))
        },
        None => Err(ParseError),
    }
}

/// Reads an element definition and gives its name, its type name and its
/// parameters.
pub fn element_creation<'a>(input: &mut &'a str) -> (r: Result<
    (&'a str, &'a str, Vec<(&'a str, &'a str)>),
    ParseError,
>)
    ensures
        match element_at(old(input)@, 0) {
            Some((n, t, ps, j)) => r matches Ok(x) && x.0@ == n && x.1@ == t && pairs_view(x.2@)
                == ps && final(input)@ == old(input)@.subrange(j, old(input)@.len() as int),
            None => r is Err && *final(input) == *old(input),
        },
{
    let s: &'a str = *input;
    let cs = chars_of(s);
    match element_from(s, &cs, 0) {
        Some((n, typ, ps, j)) => {
            *input = s.substring_char(j, cs.len());
            Ok((n, typ, ps))
        },
        None => Err(ParseError),
    }
}

/// Reads a line definition and gives its name and the names it lists.
pub fn line_creation<'a>(input: &mut &'a str) -> (r: Result<(&'a str, Vec<&'a str>), ParseError>)
    ensures
        match line_at(old(input)@, 0) {
            Some((n, ns, j)) => r matches Ok(x) && x.0@ == n && names_view(x.1@) == ns
                && final(input)@ == old(input)@.subrange(j, old(input)@.len() as int),
            None => r is Err && *final(input) == *old(input),
        },
{
    let s: &'a str = *input;
    let cs = chars_of(s);
    match line_from(s, &cs, 0) {
        Some((n, ns, j)) => {
            *input = s.substring_char(j, cs.len());
            Ok((n, ns))
        },
        None => Err(ParseError),
    }
}

/// Reads one statement of any form.
pub fn parse_statement<'a>(input: &mut &'a str) -> (r: Result<Statement<'a>, ParseError>)
    ensures
        match statement_at(old(input)@, 0) {
            Some((st, j)) => r matches Ok(x) && x@ == st && final(input)@ == old(input)@.subrange(
                j,
                old(input)@.len() as int,
            ),
            None => r is Err && *final(input) == *old(input),
        },
{
    let s: &'a str = *input;
    let cs = chars_of(s);
    match statement_from(s, &cs, 0) {
        Some((st, j)) => {
            *input = s.substring_char(j, cs.len());
            Ok(st)
        },
        None => Err(ParseError),
    }
}

/// Reads statements, each after optional whitespace, until the text ends or
/// one does not parse; gives them with the position, in characters, where
/// reading stopped (the length of the text when all of it was read).
pub fn parse_statements<'a>(input: &'a str) -> (r: (Vec<Statement<'a>>, usize))
    ensures
        statements_view(r.0@) == statements_at(input@, 0).0,
        r.1 == statements_at(input@, 0).1,
{
    let cs = chars_of(input);
    let mut v: Vec<Statement<'a>> = Vec::new();
    let ghost all = statements_at(input@, 0);
    let mut i: usize = 0;
    let mut stop: usize = 0;
    loop
        invariant
            cs@ == input@,
            i <= cs.len(),
            statements_view(v@) + statements_at(input@, i as int).0 == all.0,
            statements_at(input@, i as int).1 == all.1,
        ensures
            statements_view(v@) == all.0,
            stop == all.1,
        decreases cs.len() - i,
    {
        let j = whitespace_from(&cs, i);
        if j >= cs.len() {
            assert(statements_view(v@) =~= all.0);
            stop = j;
            break;
        }
        match statement_from(input, &cs, j) {
            Some((st, k)) => {
                let ghost before = statements_view(v@);
                let ghost stv = st@;
                v.push(st);
                assert(statements_view(v@) =~= before + seq![stv]);
                assert(statements_at(input@, i as int).0 =~= seq![stv] + statements_at(
                    input@,
                    k as int,
                ).0);
                i = k;
            },
            None => {
                assert(statements_view(v@) =~= all.0);
                stop = j;
                break;
            },
        }
    }
    (v, stop)
}

/// Reads the statements of a lattice description, stopping at the first that
/// does not parse.
pub fn parse_tracy_file<'a>(input: &'a str) -> (r: Vec<Statement<'a>>)
    ensures
        statements_view(r@) == statements_at(input@, 0).0,
{
    parse_statements(input).0
}

} // verus!
