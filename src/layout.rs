//! Fixed-width layout of numbers already written in scientific notation, for
//! printing matrices in columns.

use vstd::prelude::*;
use crate::text::chars_of;

verus! {

/// `s` with copies of `c` put in front until it is `w` characters long; `s`
/// itself when it is that long already.
pub open spec fn pad_left(s: Seq<char>, c: char, w: nat) -> Seq<char> {
    if s.len() >= w {
        s
    } else {
        Seq::new((w - s.len()) as nat, |i: int| c) + s
    }
}

/// Position of the first `e` in `s`.
pub open spec fn first_e(s: Seq<char>) -> int
    recommends
        s.contains('e'),
    decreases s.len(),
{
    if s.len() == 0 || s[0] == 'e' {
        0
    } else {
        1 + first_e(s.subrange(1, s.len() as int))
    }
}

/// A number in scientific notation laid out with an explicit exponent sign,
/// the exponent's digits padded with zeros to `exp_pad`, and the whole padded
/// with spaces on the left to `width`.
pub open spec fn scientific_layout(s: Seq<char>, width: nat, exp_pad: nat) -> Seq<char> {
    let p = first_e(s);
    let negative = p + 1 < s.len() && s[p + 1] == '-';
    let digits = if negative {
        s.subrange(p + 2, s.len() as int)
    } else {
        s.subrange(p + 1, s.len() as int)
    };
    let sign = if negative {
        '-'
    } else {
        '+'
    };
    pad_left(s.subrange(0, p) + seq!['e', sign] + pad_left(digits, '0', exp_pad), ' ', width)
}

proof fn lemma_first_e(s: Seq<char>)
    requires
        s.contains('e'),
    ensures
        0 <= first_e(s) < s.len(),
        s[first_e(s)] == 'e',
        forall|i: int| 0 <= i < first_e(s) ==> s[i] != 'e',
    decreases s.len(),
{
    if s[0] != 'e' {
        let t = s.subrange(1, s.len() as int);
        let k = choose|k: int| 0 <= k < s.len() && s[k] == 'e';
        assert(t[k - 1] == 'e');
        lemma_first_e(t);
        assert forall|i: int| 0 <= i < first_e(s) implies s[i] != 'e' by {
            if i > 0 {
                assert(s[i] == t[i - 1]);
            }
        }
    }
}

/// Appends `n` copies of the one-character text `c` to `out`.
fn append_copies(out: &mut String, c: &str, n: usize)
    requires
        c@.len() == 1,
    ensures
        final(out)@ == old(out)@ + Seq::new(n as nat, |i: int| c@[0]),
{
    let ghost start = out@;
    let mut k: usize = 0;
    while k < n
        invariant
            k <= n,
            c@.len() == 1,
            out@ == start + Seq::new(k as nat, |i: int| c@[0]),
        decreases n - k,
    {
        out.append(c);
        assert(Seq::new((k + 1) as nat, |i: int| c@[0]) =~= Seq::new(k as nat, |i: int| c@[0])
            + c@);
        k = k + 1;
    }
}

/// `text` with spaces put in front until it is `width` characters long.
pub fn align_right(text: &str, width: usize) -> (r: String)
    ensures
        r@ == pad_left(text@, ' ', width as nat),
{
    proof {
        reveal_strlit(" ");
    }
    let n = chars_of(text).len();
    let mut out = String::new();
    if n < width {
        append_copies(&mut out, " ", width - n);
    }
    out.append(text);
    proof {
        if n < width {
            assert(out@ =~= pad_left(text@, ' ', width as nat));
        } else {
            assert(out@ =~= text@);
        }
    }
    out
}

/// Lays out a number written in scientific notation (`+1.5e-3`, `-2.0e12`):
/// the exponent gets an explicit sign and at least `exp_pad` digits, and the
/// whole is right-aligned in `width` characters.
pub fn lay_out_scientific(text: &str, width: usize, exp_pad: usize) -> (r: String)
    requires
        text@.contains('e'),
    ensures
        r@ == scientific_layout(text@, width as nat, exp_pad as nat),
{
    proof {
        reveal_strlit("e");
        reveal_strlit("-");
        reveal_strlit("+");
        reveal_strlit("0");
        lemma_first_e(text@);
    }
    let cs = chars_of(text);
    let mut p: usize = 0;
    while cs[p] != 'e'
        invariant
            cs@ == text@,
            text@.contains('e'),
            0 <= first_e(text@) < text@.len(),
            text@[first_e(text@)] == 'e',
            forall|i: int| 0 <= i < first_e(text@) ==> #[trigger] text@[i] != 'e',
            p <= first_e(text@),
        decreases first_e(text@) - p,
    {
        assert(p != first_e(text@));
        p = p + 1;
    }
    assert(p == first_e(text@));
    assert(p < cs.len());
    let negative = p + 1 < cs.len() && cs[p + 1] == '-';
    let start = if negative {
        p + 2
    } else {
        p + 1
    };
    let digits = text.substring_char(start, cs.len());
    let nd = cs.len() - start;
    let mut body = String::new();
    body.append(text.substring_char(0, p));
    body.append("e");
    if negative {
        body.append("-");
    } else {
        body.append("+");
    }
    if nd < exp_pad {
        append_copies(&mut body, "0", exp_pad - nd);
    }
    body.append(digits);
    let ghost s = text@;
    let ghost sign = if negative {
        '-'
    } else {
        '+'
    };
    assert(body@ =~= s.subrange(0, p as int) + seq!['e', sign] + pad_left(digits@, '0', exp_pad as nat));
    align_right(body.as_str(), width)
}

} // verus!
