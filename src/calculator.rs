//! Text side of the inline calculator: which queries look like arithmetic,
//! and the rewrite that makes every integer literal a decimal one so that
//! division is not integer division. Evaluating is up to the caller.
use vstd::prelude::*;
use crate::text::{is_white_space, is_whitespace, chars_of, push_char};

verus! {

pub open spec fn is_digit(c: char) -> bool {
    '0' <= c && c <= '9'
}

/// A character that may appear in an arithmetic query.
pub open spec fn arithmetic_char(c: char) -> bool {
    is_digit(c) || c == '.' || c == '+' || c == '-' || c == '*' || c == '/' || c == '%' || c == '^'
        || c == '(' || c == ')' || is_white_space(c)
}

/// Tells whether the query holds only digits, `.`, operators, parentheses
/// and white space.
pub fn is_arithmetic_query(s: &str) -> (r: bool)
    ensures
        r == forall|i: int| 0 <= i < s@.len() ==> arithmetic_char(#[trigger] s@[i]),
{
    let c = chars_of(s);
    let mut i: usize = 0;
    while i < c.len()
        invariant
            i <= c.len(),
            c@ == s@,
            forall|j: int| 0 <= j < i ==> arithmetic_char(#[trigger] c@[j]),
        decreases c.len() - i,
    {
        let x = c[i];
        if !(('0' <= x && x <= '9') || x == '.' || x == '+' || x == '-' || x == '*' || x == '/' || x
            == '%' || x == '^' || x == '(' || x == ')' || is_whitespace(x)) {
            return false;
        }
        i = i + 1;
    }
    true
}

/// The number of leading digits of `s`.
pub open spec fn digit_run(s: Seq<char>) -> nat
    decreases s.len(),
{
    if s.len() > 0 && is_digit(s[0]) {
        1 + digit_run(s.subrange(1, s.len() as int))
    } else {
        0
    }
}

/// `x` brought into `lo..=hi`.
pub open spec fn clamp(x: int, lo: int, hi: int) -> int {
    if x < lo { lo } else if x > hi { hi } else { x }
}

/// `s` with `.0` after every integer literal; literals with a decimal
/// point and all other characters are kept. (A run of digits that starts
/// at a digit is never empty nor longer than `s`: the clamps only make
/// that visible to the termination check.)
pub open spec fn float_literals(s: Seq<char>) -> Seq<char>
    decreases s.len(),
{
    if s.len() == 0 {
        s
    } else if is_digit(s[0]) {
        let k = clamp(digit_run(s) as int, 1, s.len() as int);
        let rest = s.subrange(k, s.len() as int);
        if rest.len() > 0 && rest[0] == '.' {
            let m = clamp(digit_run(rest.subrange(1, rest.len() as int)) as int, 0, rest.len() - 1);
            s.subrange(0, k + 1 + m) + float_literals(s.subrange(k + 1 + m, s.len() as int))
        } else {
            s.subrange(0, k) + ".0"@ + float_literals(rest)
        }
    } else {
        seq![s[0]] + float_literals(s.subrange(1, s.len() as int))
    }
}

proof fn lemma_digit_run(s: Seq<char>, i: int, j: int)
    requires
        0 <= i <= j <= s.len(),
        forall|k: int| i <= k < j ==> is_digit(#[trigger] s[k]),
        j == s.len() || !is_digit(s[j]),
    ensures
        digit_run(s.subrange(i, s.len() as int)) == j - i,
    decreases j - i,
{
    let t = s.subrange(i, s.len() as int);
    if i < j {
        assert(t.subrange(1, t.len() as int) =~= s.subrange(i + 1, s.len() as int));
        lemma_digit_run(s, i + 1, j);
    }
}

/// The end of the run of digits that starts at `i`.
pub(crate) fn skip_digits(c: &Vec<char>, i: usize) -> (j: usize)
    requires
        i <= c.len(),
    ensures
        i <= j <= c.len(),
        digit_run(c@.subrange(i as int, c@.len() as int)) == j - i,
        forall|k: int| i <= k < j ==> is_digit(#[trigger] c@[k]),
{
    let mut j = i;
    while j < c.len() && '0' <= c[j] && c[j] <= '9'
        invariant
            i <= j <= c.len(),
            forall|k: int| i <= k < j ==> is_digit(#[trigger] c@[k]),
        decreases c.len() - j,
    {
        j = j + 1;
    }
    proof { lemma_digit_run(c@, i as int, j as int); }
    j
}

/// Appends `c[lo..hi]` to `out`.
fn push_range(out: &mut String, c: &Vec<char>, lo: usize, hi: usize)
    requires
        lo <= hi <= c.len(),
    ensures
        final(out)@ == old(out)@ + c@.subrange(lo as int, hi as int),
{
    let mut k = lo;
    while k < hi
        invariant
            lo <= k <= hi <= c.len(),
            out@ == old(out)@ + c@.subrange(lo as int, k as int),
        decreases hi - k,
    {
        push_char(out, c[k]);
        assert(c@.subrange(lo as int, k + 1) =~= c@.subrange(lo as int, k as int).push(c@[k as int]));
        k = k + 1;
    }
}

/// Rewrites every integer literal of an expression as a decimal one
/// (`7/5` becomes `7.0/5.0`).
pub fn ensure_float_literals(expr: &str) -> (r: String)
    ensures
        r@ == float_literals(expr@),
{
    let c = chars_of(expr);
    let mut out = String::new();
    let mut i: usize = 0;
    assert(c@.subrange(0, c@.len() as int) =~= c@);
    while i < c.len()
        invariant
            i <= c.len(),
            c@ == expr@,
            float_literals(expr@) == out@ + float_literals(c@.subrange(i as int, c@.len() as int)),
        decreases c.len() - i,
    {
        let ghost s = c@.subrange(i as int, c@.len() as int);
        let ghost before = out@;
        if '0' <= c[i] && c[i] <= '9' {
            let j = skip_digits(&c, i);
            assert(s.subrange(digit_run(s) as int, s.len() as int) =~= c@.subrange(j as int, c@.len() as int));
            if j < c.len() && c[j] == '.' {
                let m = skip_digits(&c, j + 1);
                push_range(&mut out, &c, i, m);
                proof {
                    let rest = c@.subrange(j as int, c@.len() as int);
                    assert(rest.subrange(1, rest.len() as int) =~= c@.subrange(j + 1, c@.len() as int));
                    assert(s.subrange(0, (m - i) as int) =~= c@.subrange(i as int, m as int));
                    assert(s.subrange((m - i) as int, s.len() as int) =~= c@.subrange(m as int, c@.len() as int));
                    assert((before + c@.subrange(i as int, m as int)) + float_literals(c@.subrange(m as int, c@.len() as int))
                        =~= before + (c@.subrange(i as int, m as int) + float_literals(c@.subrange(m as int, c@.len() as int))));
                }
                i = m;
            } else {
                push_range(&mut out, &c, i, j);
                out.append(".0");
                proof {
                    assert(s.subrange(0, (j - i) as int) =~= c@.subrange(i as int, j as int));
                    assert(out@ =~= before + c@.subrange(i as int, j as int) + ".0"@);
                    assert(out@ + float_literals(c@.subrange(j as int, c@.len() as int))
                        =~= before + (c@.subrange(i as int, j as int) + ".0"@ + float_literals(c@.subrange(j as int, c@.len() as int))));
                }
                i = j;
            }
        } else {
            push_char(&mut out, c[i]);
            proof {
                assert(s.subrange(1, s.len() as int) =~= c@.subrange(i + 1, c@.len() as int));
                assert(out@ + float_literals(c@.subrange(i + 1, c@.len() as int))
                    =~= before + (seq![s[0]] + float_literals(s.subrange(1, s.len() as int))));
            }
            i = i + 1;
        }
    }
    assert(c@.subrange(c@.len() as int, c@.len() as int) =~= Seq::<char>::empty());
    assert(out@ + Seq::<char>::empty() =~= out@);
    out
}

} // verus!
