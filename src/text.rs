//! Character classes of the lattice grammar and scanning over character runs.

use vstd::prelude::*;

verus! {

/// Whether a character has Unicode's `White_Space` property.
pub uninterp spec fn whitespace_char(c: char) -> bool;

/// Whether a character is alphabetic or numeric in Unicode's sense.
pub uninterp spec fn alphanumeric_char(c: char) -> bool;

/// Relies on `char::is_whitespace`: the `White_Space` property of the character.
#[verifier::external_body]
pub(crate) fn is_whitespace(c: char) -> (r: bool)
    ensures
        r == whitespace_char(c),
{
    c.is_whitespace()
}

/// Relies on `char::is_alphanumeric`: the character is alphabetic or numeric.
#[verifier::external_body]
pub(crate) fn is_alphanumeric(c: char) -> (r: bool)
    ensures
        r == alphanumeric_char(c),
{
    c.is_alphanumeric()
}

/// Characters that make up a name: alphanumerics, `_` and `-`.
pub open spec fn symbol_char(c: char) -> bool {
    alphanumeric_char(c) || c == '_' || c == '-'
}

/// Characters that end an expression.
pub open spec fn stop_char(c: char) -> bool {
    c == ';' || c == ','
}

/// End of the longest run of whitespace that starts at `i`.
pub open spec fn ws_end(s: Seq<char>, i: int) -> int
    decreases s.len() - i,
{
    if 0 <= i < s.len() && whitespace_char(s[i]) {
        ws_end(s, i + 1)
    } else {
        i
    }
}

/// End of the longest run of name characters that starts at `i`.
pub open spec fn symbol_end(s: Seq<char>, i: int) -> int
    decreases s.len() - i,
{
    if 0 <= i < s.len() && symbol_char(s[i]) {
        symbol_end(s, i + 1)
    } else {
        i
    }
}

/// End of the longest run without `;` or `,` that starts at `i`.
pub open spec fn expr_end(s: Seq<char>, i: int) -> int
    decreases s.len() - i,
{
    if 0 <= i < s.len() && !stop_char(s[i]) {
        expr_end(s, i + 1)
    } else {
        i
    }
}

pub proof fn lemma_ws_end(s: Seq<char>, i: int)
    requires
        0 <= i <= s.len(),
    ensures
        i <= ws_end(s, i) <= s.len(),
        forall|k: int| i <= k < ws_end(s, i) ==> whitespace_char(#[trigger] s[k]),
        ws_end(s, i) < s.len() ==> !whitespace_char(s[ws_end(s, i)]),
    decreases s.len() - i,
{
    if i < s.len() && whitespace_char(s[i]) {
        lemma_ws_end(s, i + 1);
    }
}

pub proof fn lemma_symbol_end(s: Seq<char>, i: int)
    requires
        0 <= i <= s.len(),
    ensures
        i <= symbol_end(s, i) <= s.len(),
        forall|k: int| i <= k < symbol_end(s, i) ==> symbol_char(#[trigger] s[k]),
        symbol_end(s, i) < s.len() ==> !symbol_char(s[symbol_end(s, i)]),
    decreases s.len() - i,
{
    if i < s.len() && symbol_char(s[i]) {
        lemma_symbol_end(s, i + 1);
    }
}

pub proof fn lemma_expr_end(s: Seq<char>, i: int)
    requires
        0 <= i <= s.len(),
    ensures
        i <= expr_end(s, i) <= s.len(),
        forall|k: int| i <= k < expr_end(s, i) ==> !stop_char(#[trigger] s[k]),
        expr_end(s, i) < s.len() ==> stop_char(s[expr_end(s, i)]),
    decreases s.len() - i,
{
    if i < s.len() && !stop_char(s[i]) {
        lemma_expr_end(s, i + 1);
    }
}

/// The characters of `s`, in order.
pub fn chars_of(s: &str) -> (v: Vec<char>)
    ensures
        v@ == s@,
{
    let mut v: Vec<char> = Vec::new();
    for c in it: s.chars()
        invariant
            v@ == it.seq().subrange(0, it.index() as int),
    {
        v.push(c);
    }
    v
}

/// Position after the whitespace that starts at `i`.
pub fn skip_whitespace(cs: &Vec<char>, i: usize) -> (j: usize)
    requires
        i <= cs.len(),
    ensures
        j == ws_end(cs@, i as int),
{
    let mut j = i;
    while j < cs.len() && is_whitespace(cs[j])
        invariant
            i <= j <= cs.len(),
            ws_end(cs@, j as int) == ws_end(cs@, i as int),
        decreases cs.len() - j,
    {
        j = j + 1;
    }
    j
}

/// Position after the name characters that start at `i`.
pub fn skip_symbol(cs: &Vec<char>, i: usize) -> (j: usize)
    requires
        i <= cs.len(),
    ensures
        j == symbol_end(cs@, i as int),
{
    let mut j = i;
    while j < cs.len() && (is_alphanumeric(cs[j]) || cs[j] == '_' || cs[j] == '-')
        invariant
            i <= j <= cs.len(),
            symbol_end(cs@, j as int) == symbol_end(cs@, i as int),
        decreases cs.len() - j,
    {
        j = j + 1;
    }
    j
}

/// Position of the first `;` or `,` at or after `i`, or the end.
pub fn skip_expression(cs: &Vec<char>, i: usize) -> (j: usize)
    requires
        i <= cs.len(),
    ensures
        j == expr_end(cs@, i as int),
{
    let mut j = i;
    while j < cs.len() && cs[j] != ';' && cs[j] != ','
        invariant
            i <= j <= cs.len(),
            expr_end(cs@, j as int) == expr_end(cs@, i as int),
        decreases cs.len() - j,
    {
        j = j + 1;
    }
    j
}

/// Whether `lit` occurs in `cs` at position `i`.
pub fn has_at(cs: &Vec<char>, i: usize, lit: &str) -> (r: bool)
    requires
        i <= cs.len(),
    ensures
        r == (i + lit@.len() <= cs.len() && cs@.subrange(i as int, i + lit@.len()) == lit@),
{
    let l = chars_of(lit);
    if l.len() > cs.len() - i {
        return false;
    }
    let mut k: usize = 0;
    while k < l.len()
        invariant
            k <= l.len(),
            i + l.len() <= cs.len(),
            l@ == lit@,
            forall|m: int| 0 <= m < k ==> cs@[i + m] == l@[m],
        decreases l.len() - k,
    {
        if cs[i + k] != l[k] {
            assert(cs@.subrange(i as int, i + lit@.len())[k as int] != lit@[k as int]);
            return false;
        }
        k = k + 1;
    }
    assert(cs@.subrange(i as int, i + lit@.len()) =~= lit@);
    true
}

/// Whether two character sequences are equal.
pub fn same_chars(a: &Vec<char>, b: &Vec<char>) -> (r: bool)
    ensures
        r == (a@ == b@),
{
    if a.len() != b.len() {
        return false;
    }
    let mut k: usize = 0;
    while k < a.len()
        invariant
            k <= a.len(),
            a.len() == b.len(),
            forall|m: int| 0 <= m < k ==> a@[m] == b@[m],
        decreases a.len() - k,
    {
        if a[k] != b[k] {
            return false;
        }
        k = k + 1;
    }
    assert(a@ =~= b@);
    true
}

} // verus!
