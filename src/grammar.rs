//! The lattice description grammar, stated over character sequences.
//!
//! Each rule takes the text and a start position and gives what it reads and
//! the position after it, or `None` when the text does not match there. Runs
//! of whitespace, of name characters and of expression characters are always
//! read whole.

use vstd::prelude::*;
use crate::text::{ws_end, symbol_end, expr_end};

verus! {

/// A statement of a lattice description, as text.
pub ghost enum StatementView {
    Assignment(Seq<char>, Seq<char>),
    Element(Seq<char>, Seq<char>, Seq<(Seq<char>, Seq<char>)>),
    Line(Seq<char>, Seq<Seq<char>>),
    Use(Seq<char>),
}

/// Whether `s` holds the character `c` at position `i`.
pub open spec fn char_at(s: Seq<char>, i: int, c: char) -> bool {
    0 <= i < s.len() && s[i] == c
}

/// Whether `s` holds the text `t` at position `i`.
pub open spec fn text_at(s: Seq<char>, i: int, t: Seq<char>) -> bool {
    0 <= i && i + t.len() <= s.len() && s.subrange(i, i + t.len()) == t
}

/// A name: one or more name characters.
pub open spec fn symbol_at(s: Seq<char>, i: int) -> Option<(Seq<char>, int)> {
    let j = symbol_end(s, i);
    if j > i {
        Some((s.subrange(i, j), j))
    } else {
        None
    }
}

/// An expression: one or more characters other than `;` and `,`.
pub open spec fn expr_at(s: Seq<char>, i: int) -> Option<(Seq<char>, int)> {
    let j = expr_end(s, i);
    if j > i {
        Some((s.subrange(i, j), j))
    } else {
        None
    }
}

/// `USE:`, optional whitespace, a name and `;`.
pub open spec fn use_at(s: Seq<char>, i: int) -> Option<(Seq<char>, int)> {
    if text_at(s, i, "USE:"@) {
        match symbol_at(s, ws_end(s, i + 4)) {
            Some((name, j)) => if char_at(s, j, ';') {
                Some((name, j + 1))
            } else {
                None
            },
            None => None,
        }
    } else {
        None
    }
}

/// A name, `=` with optional whitespace around it, and an expression.
pub open spec fn assignment_at(s: Seq<char>, i: int) -> Option<(Seq<char>, Seq<char>, int)> {
    match symbol_at(s, i) {
        Some((name, a)) => {
            let p = ws_end(s, a);
            if char_at(s, p, '=') {
                match expr_at(s, ws_end(s, p + 1)) {
                    Some((e, j)) => Some((name, e, j)),
                    None => None,
                }
            } else {
                None
            }
        },
        None => None,
    }
}

/// An assignment, optional whitespace and `;`.
pub open spec fn assignment_statement_at(s: Seq<char>, i: int) -> Option<(Seq<char>, Seq<char>, int)> {
    match assignment_at(s, i) {
        Some((name, e, j)) => {
            let k = ws_end(s, j);
            if char_at(s, k, ';') {
                Some((name, e, k + 1))
            } else {
                None
            }
        },
        None => None,
    }
}

/// A `,` with optional whitespace around it.
pub open spec fn separator_at(s: Seq<char>, i: int) -> Option<int> {
    let a = ws_end(s, i);
    if char_at(s, a, ',') {
        Some(ws_end(s, a + 1))
    } else {
        None
    }
}

/// Further assignments, each after a separator, as many as follow.
pub open spec fn assignments_after(s: Seq<char>, p: int) -> (Seq<(Seq<char>, Seq<char>)>, int)
    decreases s.len() - p,
{
    match separator_at(s, p) {
        Some(q) => match assignment_at(s, q) {
            Some((name, e, j)) => if p < j <= s.len() {
                let (rest, k) = assignments_after(s, j);
                (seq![(name, e)] + rest, k)
            } else {
                (seq![], p)
            },
            None => (seq![], p),
        },
        None => (seq![], p),
    }
}

/// Zero or more assignments, separated by separators.
pub open spec fn assignments_at(s: Seq<char>, i: int) -> (Seq<(Seq<char>, Seq<char>)>, int) {
    match assignment_at(s, i) {
        Some((name, e, j)) => {
            let (rest, k) = assignments_after(s, j);
            (seq![(name, e)] + rest, k)
        },
        None => (seq![], i),
    }
}

/// The parameters of an element: nothing, or `,`, optional whitespace and
/// assignments.
pub open spec fn parameters_at(s: Seq<char>, i: int) -> (Seq<(Seq<char>, Seq<char>)>, int) {
    if char_at(s, i, ',') {
        assignments_at(s, ws_end(s, i + 1))
    } else {
        (seq![], i)
    }
}

/// A name, `:`, a type name, parameters and `;`, with optional whitespace
/// between the first four.
pub open spec fn element_at(s: Seq<char>, i: int) -> Option<
    (Seq<char>, Seq<char>, Seq<(Seq<char>, Seq<char>)>, int),
> {
    match symbol_at(s, i) {
        Some((name, a)) => {
            let p = ws_end(s, a);
            if char_at(s, p, ':') {
                match symbol_at(s, ws_end(s, p + 1)) {
                    Some((typ, b)) => {
                        let (params, e) = parameters_at(s, ws_end(s, b));
                        if char_at(s, e, ';') {
                            Some((name, typ, params, e + 1))
                        } else {
                            None
                        }
                    },
                    None => None,
                }
            } else {
                None
            }
        },
        None => None,
    }
}

/// A name with optional whitespace on both sides.
pub open spec fn item_at(s: Seq<char>, i: int) -> Option<(Seq<char>, int)> {
    match symbol_at(s, ws_end(s, i)) {
        Some((name, j)) => Some((name, ws_end(s, j))),
        None => None,
    }
}

/// Further items, each after a separator, as many as follow.
pub open spec fn items_after(s: Seq<char>, p: int) -> (Seq<Seq<char>>, int)
    decreases s.len() - p,
{
    match separator_at(s, p) {
        Some(q) => match item_at(s, q) {
            Some((name, j)) => if p < j <= s.len() {
                let (rest, k) = items_after(s, j);
                (seq![name] + rest, k)
            } else {
                (seq![], p)
            },
            None => (seq![], p),
        },
        None => (seq![], p),
    }
}

/// Zero or more items, separated by separators.
pub open spec fn items_at(s: Seq<char>, i: int) -> (Seq<Seq<char>>, int) {
    match item_at(s, i) {
        Some((name, j)) => {
            let (rest, k) = items_after(s, j);
            (seq![name] + rest, k)
        },
        None => (seq![], i),
    }
}

/// A name, `:`, `LINE`, `=`, then `(`, items, `)` and `;`, with optional
/// whitespace between the first five.
pub open spec fn line_at(s: Seq<char>, i: int) -> Option<(Seq<char>, Seq<Seq<char>>, int)> {
    match symbol_at(s, i) {
        Some((name, a)) => {
            let p = ws_end(s, a);
            let q = ws_end(s, p + 1);
            let r = ws_end(s, q + 4);
            let o = ws_end(s, r + 1);
            if char_at(s, p, ':') && text_at(s, q, "LINE"@) && char_at(s, r, '=') && char_at(
                s,
                o,
                '(',
            ) {
                let (items, k) = items_at(s, o + 1);
                if char_at(s, k, ')') && char_at(s, k + 1, ';') {
                    Some((name, items, k + 2))
                } else {
                    None
                }
            } else {
                None
            }
        },
        None => None,
    }
}

/// One statement; the forms are tried in the order `USE`, element, line,
/// assignment, and the first that matches is taken.
pub open spec fn statement_at(s: Seq<char>, i: int) -> Option<(StatementView, int)> {
    match use_at(s, i) {
        Some((name, j)) => Some((StatementView::Use(name), j)),
        None => match element_at(s, i) {
            Some((name, typ, params, j)) => Some((StatementView::Element(name, typ, params), j)),
            None => match line_at(s, i) {
                Some((name, items, j)) => Some((StatementView::Line(name, items), j)),
                None => match assignment_statement_at(s, i) {
                    Some((name, e, j)) => Some((StatementView::Assignment(name, e), j)),
                    None => None,
                },
            },
        },
    }
}

/// Statements, each after optional whitespace, until the text ends or a
/// statement does not parse; the position is where reading stopped.
pub open spec fn statements_at(s: Seq<char>, i: int) -> (Seq<StatementView>, int)
    decreases s.len() - i,
{
    let j = ws_end(s, i);
    if j < s.len() {
        match statement_at(s, j) {
            Some((st, k)) => if i < k <= s.len() {
                let (rest, e) = statements_at(s, k);
                (seq![st] + rest, e)
            } else {
                (seq![], j)
            },
            None => (seq![], j),
        }
    } else {
        (seq![], j)
    }
}

} // verus!
