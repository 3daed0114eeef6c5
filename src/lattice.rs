//! Resolving the statements of a lattice description into the flat sequence
//! of element definitions that the selected line runs through.
//!
//! Definitions are read in order. A later definition of a name shadows an
//! earlier one, and a line refers to the definitions in force where it is
//! defined. A line item written `-name` takes the line `name` in reverse
//! order; an element is its own reverse.

use vstd::prelude::*;
use crate::grammar::StatementView;
use crate::parser::{Statement, names_view, statements_view};
use crate::text::{chars_of, same_chars};

verus! {

/// Why a lattice description does not resolve to a beamline.
#[derive(Debug, Clone, Copy, PartialEq, Eq, Structural)]
pub enum LatticeError {
    /// The line defined by this statement lists a name that is neither an
    /// element nor a line defined before it.
    UndefinedName(usize),
    /// The `USE` statement at this position names no line defined before it.
    UndefinedLine(usize),
    /// The description holds no `USE` statement.
    MissingUse,
}

/// The beamline that a lattice description selects.
#[derive(Debug, PartialEq, Eq)]
pub struct Beamline {
    /// Position of the `USE` statement among the statements.
    pub use_position: usize,
    /// For each element of the line, in order, the position of the statement
    /// that defines it.
    pub element_statements: Vec<usize>,
}

/// The value of the last entry with key `k`.
pub open spec fn lookup<V>(d: Seq<(Seq<char>, V)>, k: Seq<char>) -> Option<V>
    decreases d.len(),
{
    if d.len() == 0 {
        None
    } else if d.last().0 == k {
        Some(d.last().1)
    } else {
        lookup(d.drop_last(), k)
    }
}

/// Whether a line item asks for the reverse of a line.
pub open spec fn reversed_item(item: Seq<char>) -> bool {
    item.len() > 0 && item[0] == '-'
}

/// The name a line item refers to.
pub open spec fn item_name(item: Seq<char>) -> Seq<char> {
    if reversed_item(item) {
        item.subrange(1, item.len() as int)
    } else {
        item
    }
}

/// The element statements one line item stands for: an element defined under
/// its name, else the line defined under its name, reversed for `-name`.
pub open spec fn expand_item(
    elements: Seq<(Seq<char>, usize)>,
    lines: Seq<(Seq<char>, Seq<usize>)>,
    item: Seq<char>,
) -> Option<Seq<usize>> {
    match lookup(elements, item_name(item)) {
        Some(k) => Some(seq![k]),
        None => match lookup(lines, item_name(item)) {
            Some(l) => Some(
                if reversed_item(item) {
                    l.reverse()
                } else {
                    l
                },
            ),
            None => None,
        },
    }
}

/// The element statements a list of line items stands for, one item after
/// another; `None` when an item names nothing defined.
pub open spec fn expand_items(
    elements: Seq<(Seq<char>, usize)>,
    lines: Seq<(Seq<char>, Seq<usize>)>,
    items: Seq<Seq<char>>,
) -> Option<Seq<usize>>
    decreases items.len(),
{
    if items.len() == 0 {
        Some(seq![])
    } else {
        match expand_items(elements, lines, items.drop_last()) {
            Some(front) => match expand_item(elements, lines, items.last()) {
                Some(back) => Some(front + back),
                None => None,
            },
            None => None,
        }
    }
}

/// Resolution from statement `k` on, with the definitions made before it.
pub open spec fn resolve_from(
    sts: Seq<StatementView>,
    k: int,
    elements: Seq<(Seq<char>, usize)>,
    lines: Seq<(Seq<char>, Seq<usize>)>,
) -> Result<(Seq<usize>, int), LatticeError>
    decreases sts.len() - k,
{
    if k < 0 || k >= sts.len() {
        Err(LatticeError::MissingUse)
    } else {
        match sts[k] {
            StatementView::Assignment(_, _) => resolve_from(sts, k + 1, elements, lines),
            StatementView::Element(name, _, _) => resolve_from(
                sts,
                k + 1,
                elements.push((name, k as usize)),
                lines,
            ),
            StatementView::Line(name, items) => match expand_items(elements, lines, items) {
                Some(l) => resolve_from(sts, k + 1, elements, lines.push((name, l))),
                None => Err(LatticeError::UndefinedName(k as usize)),
            },
            StatementView::Use(name) => match lookup(lines, name) {
                Some(l) => Ok((l, k)),
                None => Err(LatticeError::UndefinedLine(k as usize)),
            },
        }
    }
}

/// The beamline that statements `sts` select: the line named by the first
/// `USE`, as the element statements it runs through, and where that `USE`
/// stands.
pub open spec fn resolve(sts: Seq<StatementView>) -> Result<(Seq<usize>, int), LatticeError> {
    resolve_from(sts, 0, seq![], seq![])
}

pub open spec fn elements_view(d: Seq<(Vec<char>, usize)>) -> Seq<(Seq<char>, usize)> {
    d.map_values(|e: (Vec<char>, usize)| (e.0@, e.1))
}

pub open spec fn lines_view(d: Seq<(Vec<char>, Vec<usize>)>) -> Seq<(Seq<char>, Seq<usize>)> {
    d.map_values(|e: (Vec<char>, Vec<usize>)| (e.0@, e.1@))
}

proof fn lemma_lookup_prefix<V>(d: Seq<(Seq<char>, V)>, m: int, k: Seq<char>)
    requires
        0 < m <= d.len(),
        d[m - 1].0 != k,
    ensures
        lookup(d.subrange(0, m), k) == lookup(d.subrange(0, m - 1), k),
{
    assert(d.subrange(0, m).drop_last() =~= d.subrange(0, m - 1));
}

/// Position of the last element definition named `name`.
fn find_element(elements: &Vec<(Vec<char>, usize)>, name: &Vec<char>) -> (r: Option<usize>)
    ensures
        r == lookup(elements_view(elements@), name@),
{
    let ghost d = elements_view(elements@);
    let mut m = elements.len();
    assert(d.subrange(0, m as int) =~= d);
    while m > 0
        invariant
            m <= elements.len(),
            d == elements_view(elements@),
            lookup(d.subrange(0, m as int), name@) == lookup(d, name@),
        decreases m,
    {
        if same_chars(&elements[m - 1].0, name) {
            assert(d.subrange(0, m as int).last() == d[m - 1]);
            return Some(elements[m - 1].1);
        }
        proof {
            lemma_lookup_prefix(d, m as int, name@);
        }
        m = m - 1;
    }
    None
}

/// Index of the last line definition named `name`.
fn find_line(lines: &Vec<(Vec<char>, Vec<usize>)>, name: &Vec<char>) -> (r: Option<usize>)
    ensures
        match lookup(lines_view(lines@), name@) {
            Some(l) => r matches Some(i) && i < lines.len() && lines@[i as int].1@ == l,
            None => r is None,
        },
{
    let ghost d = lines_view(lines@);
    let mut m = lines.len();
    assert(d.subrange(0, m as int) =~= d);
    while m > 0
        invariant
            m <= lines.len(),
            d == lines_view(lines@),
            lookup(d.subrange(0, m as int), name@) == lookup(d, name@),
        decreases m,
    {
        if same_chars(&lines[m - 1].0, name) {
            assert(d.subrange(0, m as int).last() == d[m - 1]);
            return Some(m - 1);
        }
        proof {
            lemma_lookup_prefix(d, m as int, name@);
        }
        m = m - 1;
    }
    None
}

/// Appends the element statements of one line item; false when the item
/// names nothing defined.
fn expand_item_into(
    elements: &Vec<(Vec<char>, usize)>,
    lines: &Vec<(Vec<char>, Vec<usize>)>,
    item: &str,
    out: &mut Vec<usize>,
) -> (ok: bool)
    ensures
        match expand_item(elements_view(elements@), lines_view(lines@), item@) {
            Some(x) => ok && final(out)@ == old(out)@ + x,
            None => !ok && final(out)@ == old(out)@,
        },
{
    let cs = chars_of(item);
    let reversed = cs.len() > 0 && cs[0] == '-';
    let name: Vec<char> = if reversed {
        chars_of(item.substring_char(1, cs.len()))
    } else {
        cs
    };
    assert(name@ == item_name(item@));
    if let Some(k) = find_element(elements, &name) {
        out.push(k);
        return true;
    }
    let i = match find_line(lines, &name) {
        Some(i) => i,
        None => return false,
    };
    let l = &lines[i].1;
    let ghost start = out@;
    if reversed {
        let mut j: usize = 0;
        while j < l.len()
            invariant
                j <= l.len(),
                out@ == start + l@.reverse().subrange(0, j as int),
            decreases l.len() - j,
        {
            out.push(l[l.len() - 1 - j]);
            assert(l@.reverse().subrange(0, j + 1) =~= l@.reverse().subrange(0, j as int)
                + seq![l@[l.len() - 1 - j]]);
            j = j + 1;
        }
        assert(l@.reverse().subrange(0, l.len() as int) =~= l@.reverse());
    } else {
        let mut j: usize = 0;
        while j < l.len()
            invariant
                j <= l.len(),
                out@ == start + l@.subrange(0, j as int),
            decreases l.len() - j,
        {
            out.push(l[j]);
            assert(l@.subrange(0, j + 1) =~= l@.subrange(0, j as int) + seq![l@[j as int]]);
            j = j + 1;
        }
        assert(l@.subrange(0, l.len() as int) =~= l@);
    }
    true
}

/// The element statements that a line's items stand for.
fn expand_line(
    elements: &Vec<(Vec<char>, usize)>,
    lines: &Vec<(Vec<char>, Vec<usize>)>,
    items: &Vec<&str>,
) -> (r: Option<Vec<usize>>)
    ensures
        match expand_items(elements_view(elements@), lines_view(lines@), names_view(items@)) {
            Some(x) => r matches Some(v) && v@ == x,
            None => r is None,
        },
{
    let ghost ev = elements_view(elements@);
    let ghost lv = lines_view(lines@);
    let ghost names = names_view(items@);
    let mut out: Vec<usize> = Vec::new();
    let mut m: usize = 0;
    assert(names.subrange(0, 0) =~= Seq::<Seq<char>>::empty());
    while m < items.len()
        invariant
            m <= items.len(),
            ev == elements_view(elements@),
            lv == lines_view(lines@),
            names == names_view(items@),
            expand_items(ev, lv, names.subrange(0, m as int)) == Some(out@),
        decreases items.len() - m,
    {
        assert(names.subrange(0, m + 1).drop_last() =~= names.subrange(0, m as int));
        assert(names.subrange(0, m + 1).last() == items@[m as int]@);
        if !expand_item_into(elements, lines, items[m], &mut out) {
            assert(expand_items(ev, lv, names.subrange(0, m + 1)) is None);
            assert(names.subrange(0, items.len() as int) =~= names);
            proof {
                lemma_expand_fails_later(ev, lv, names, m as int + 1);
            }
            return None;
        }
        m = m + 1;
    }
    assert(names.subrange(0, items.len() as int) =~= names);
    Some(out)
}

proof fn lemma_expand_fails_later(
    ev: Seq<(Seq<char>, usize)>,
    lv: Seq<(Seq<char>, Seq<usize>)>,
    names: Seq<Seq<char>>,
    m: int,
)
    requires
        0 <= m <= names.len(),
        expand_items(ev, lv, names.subrange(0, m)) is None,
    ensures
        expand_items(ev, lv, names) is None,
    decreases names.len() - m,
{
    if m < names.len() {
        assert(names.subrange(0, m + 1).drop_last() =~= names.subrange(0, m));
        lemma_expand_fails_later(ev, lv, names, m + 1);
    } else {
        assert(names.subrange(0, m) =~= names);
    }
}

/// Resolves the statements of a lattice description into the line that its
/// first `USE` statement selects.
pub fn resolve_beamline(statements: &Vec<Statement>) -> (r: Result<Beamline, LatticeError>)
    ensures
        match resolve(statements_view(statements@)) {
            Ok((l, k)) => r matches Ok(b) && b.element_statements@ == l && b.use_position == k,
            Err(e) => r == Err::<Beamline, LatticeError>(e),
        },
        r matches Ok(b) ==> forall|j: int|
            0 <= j < b.element_statements.len() ==> defines_element_before(
                statements_view(statements@),
                b.use_position as int,
                #[trigger] b.element_statements@[j],
            ),
{
    let ghost sts = statements_view(statements@);
    let mut elements: Vec<(Vec<char>, usize)> = Vec::new();
    let mut lines: Vec<(Vec<char>, Vec<usize>)> = Vec::new();
    let mut k: usize = 0;
    assert(elements_view(elements@) =~= seq![]);
    assert(lines_view(lines@) =~= seq![]);
    while k < statements.len()
        invariant
            k <= statements.len(),
            sts == statements_view(statements@),
            sts.len() == statements.len(),
            resolve(sts) == resolve_from(sts, k as int, elements_view(elements@), lines_view(lines@)),
        decreases statements.len() - k,
    {
        let ghost ev = elements_view(elements@);
        let ghost lv = lines_view(lines@);
        assert(sts[k as int] == statements@[k as int]@);
        match &statements[k] {
            Statement::Assignment(_, _) => {},
            Statement::Element(name, _, _) => {
                elements.push((chars_of(name), k));
                assert(elements_view(elements@) =~= ev.push((name@, k)));
            },
            Statement::Line(name, items) => {
                match expand_line(&elements, &lines, items) {
                    Some(l) => {
                        lines.push((chars_of(name), l));
                        assert(lines_view(lines@) =~= lv.push((name@, l@)));
                    },
                    None => {
                        return Err(LatticeError::UndefinedName(k));
                    },
                }
            },
            Statement::Use(name) => {
                return match find_line(&lines, &chars_of(name)) {
                    Some(i) => {
                        let v = lines[i].1.clone();
                        assert(resolve(sts) == Ok::<(Seq<usize>, int), LatticeError>((v@, k as int)));
                        assert forall|j: int| 0 <= j < v.len() implies defines_element_before(
                            sts,
                            k as int,
                            #[trigger] v@[j],
                        ) by {
                            lemma_resolved_entries_are_element_definitions(sts);
                            if let Ok((l, u)) = resolve(sts) {
                                assert(l[j] == v@[j] && u == k);
                            }
                        }
                        Ok(Beamline { use_position: k, element_statements: v })
                    },
                    None => Err(LatticeError::UndefinedLine(k)),
                };
            },
        }
        k = k + 1;
    }
    Err(LatticeError::MissingUse)
}

/// Whether `x` is the position of an element definition before `k`.
pub open spec fn defines_element_before(sts: Seq<StatementView>, k: int, x: usize) -> bool {
    x < k && sts[x as int] is Element
}

/// Whether all the definitions recorded before statement `k` point at
/// element definitions before `k`.
pub open spec fn definitions_point_back(
    sts: Seq<StatementView>,
    k: int,
    elements: Seq<(Seq<char>, usize)>,
    lines: Seq<(Seq<char>, Seq<usize>)>,
) -> bool {
    &&& forall|i: int| 0 <= i < elements.len() ==> defines_element_before(sts, k, #[trigger] elements[i].1)
    &&& forall|i: int, j: int|
        0 <= i < lines.len() && 0 <= j < lines[i].1.len() ==> defines_element_before(
            sts,
            k,
            #[trigger] lines[i].1[j],
        )
}

proof fn lemma_lookup_from<V>(d: Seq<(Seq<char>, V)>, key: Seq<char>)
    ensures
        lookup(d, key) matches Some(v) ==> exists|i: int| 0 <= i < d.len() && #[trigger] d[i].1 == v,
    decreases d.len(),
{
    if d.len() > 0 && d.last().0 != key {
        lemma_lookup_from(d.drop_last(), key);
        if let Some(v) = lookup(d, key) {
            let i = choose|i: int| 0 <= i < d.drop_last().len() && #[trigger] d.drop_last()[i].1 == v;
            assert(d[i].1 == v);
        }
    } else if d.len() > 0 {
        assert(d[d.len() - 1].1 == d.last().1);
    }
}

proof fn lemma_expand_points_back(
    sts: Seq<StatementView>,
    k: int,
    elements: Seq<(Seq<char>, usize)>,
    lines: Seq<(Seq<char>, Seq<usize>)>,
    items: Seq<Seq<char>>,
)
    requires
        definitions_point_back(sts, k, elements, lines),
    ensures
        expand_items(elements, lines, items) matches Some(l) ==> forall|j: int|
            0 <= j < l.len() ==> defines_element_before(sts, k, #[trigger] l[j]),
    decreases items.len(),
{
    if items.len() > 0 {
        lemma_expand_points_back(sts, k, elements, lines, items.drop_last());
        let name = item_name(items.last());
        lemma_lookup_from(elements, name);
        lemma_lookup_from(lines, name);
        if let Some(front) = expand_items(elements, lines, items.drop_last()) {
            if let Some(back) = expand_item(elements, lines, items.last()) {
                assert forall|j: int| 0 <= j < back.len() implies defines_element_before(
                    sts,
                    k,
                    #[trigger] back[j],
                ) by {
                    if let Some(e) = lookup(elements, name) {
                        let i = choose|i: int| 0 <= i < elements.len() && #[trigger] elements[i].1 == e;
                        assert(defines_element_before(sts, k, elements[i].1));
                    } else if let Some(l) = lookup(lines, name) {
                        let i = choose|i: int| 0 <= i < lines.len() && #[trigger] lines[i].1 == l;
                        if reversed_item(items.last()) {
                            assert(back[j] == lines[i].1[l.len() - 1 - j]);
                        } else {
                            assert(back[j] == lines[i].1[j]);
                        }
                    }
                }
                let l = front + back;
                assert forall|j: int| 0 <= j < l.len() implies defines_element_before(
                    sts,
                    k,
                    #[trigger] l[j],
                ) by {
                    if j < front.len() {
                        assert(l[j] == front[j]);
                    } else {
                        assert(l[j] == back[j - front.len()]);
                    }
                }
            }
        }
    }
}

proof fn lemma_resolve_from_points_back(
    sts: Seq<StatementView>,
    k: int,
    elements: Seq<(Seq<char>, usize)>,
    lines: Seq<(Seq<char>, Seq<usize>)>,
)
    requires
        0 <= k,
        sts.len() <= usize::MAX,
        definitions_point_back(sts, k, elements, lines),
    ensures
        resolve_from(sts, k, elements, lines) matches Ok((l, u)) ==> forall|j: int|
            0 <= j < l.len() ==> defines_element_before(sts, u, #[trigger] l[j]),
    decreases sts.len() - k,
{
    if k < sts.len() {
        let next = k + 1;
        assert forall|x: usize| defines_element_before(sts, k, x) implies defines_element_before(
            sts,
            next,
            x,
        ) by {}
        match sts[k] {
            StatementView::Assignment(_, _) => {
                lemma_resolve_from_points_back(sts, next, elements, lines);
            },
            StatementView::Element(name, _, _) => {
                let e2 = elements.push((name, k as usize));
                assert forall|i: int| 0 <= i < e2.len() implies defines_element_before(
                    sts,
                    next,
                    #[trigger] e2[i].1,
                ) by {
                    if i < elements.len() {
                        assert(e2[i] == elements[i]);
                    } else {
                        assert(e2[i].1 == k as usize);
                    }
                }
                lemma_resolve_from_points_back(sts, next, e2, lines);
            },
            StatementView::Line(name, items) => {
                lemma_expand_points_back(sts, k, elements, lines, items);
                if let Some(l) = expand_items(elements, lines, items) {
                    let l2 = lines.push((name, l));
                    assert forall|i: int, j: int|
                        0 <= i < l2.len() && 0 <= j < l2[i].1.len() implies defines_element_before(
                        sts,
                        next,
                        #[trigger] l2[i].1[j],
                    ) by {
                        if i < lines.len() {
                            assert(l2[i] == lines[i]);
                        }
                    }
                    lemma_resolve_from_points_back(sts, next, elements, l2);
                }
            },
            StatementView::Use(name) => {
                lemma_lookup_from(lines, name);
                if let Some(l) = lookup(lines, name) {
                    let i = choose|i: int| 0 <= i < lines.len() && #[trigger] lines[i].1 == l;
                    assert forall|j: int| 0 <= j < l.len() implies defines_element_before(
                        sts,
                        k,
                        #[trigger] l[j],
                    ) by {
                        assert(l[j] == lines[i].1[j]);
                    }
                }
            },
        }
    }
}

/// Every entry of a resolved line is the position of an element definition
/// that stands before the `USE` statement.
pub proof fn lemma_resolved_entries_are_element_definitions(sts: Seq<StatementView>)
    requires
        sts.len() <= usize::MAX,
    ensures
        resolve(sts) matches Ok((l, u)) ==> forall|j: int|
            0 <= j < l.len() ==> defines_element_before(sts, u, #[trigger] l[j]),
{
    lemma_resolve_from_points_back(sts, 0, seq![], seq![]);
}

} // verus!
