//! Decimal fraction tokens.  A flag value or coordinate that is not an
//! integer may still be numeric: an optional sign, digits with at most one
//! decimal point, and an optional exponent.  Such a token is kept as numeric
//! text, canonicalized so that it is always a valid JSON number (a leading
//! `+` is dropped, leading zeros are trimmed, and a missing integer or
//! fraction digit group becomes `0`).

use vstd::prelude::*;

use crate::number::{all_digits, is_digit, sign_split};

verus! {

/// An exponent marker.
pub open spec fn is_exp_char(c: char) -> bool {
    c == 'e' || c == 'E'
}

/// The index of the first exponent marker in `s`, or `s.len()` if none.
pub open spec fn first_exp_idx(s: Seq<char>) -> int
    decreases s.len(),
{
    if s.len() == 0 {
        0
    } else if is_exp_char(s[0]) {
        0
    } else {
        1 + first_exp_idx(s.drop_first())
    }
}

/// The index of the first `.` in `s`, or `s.len()` if none.
pub open spec fn first_dot_idx(s: Seq<char>) -> int
    decreases s.len(),
{
    if s.len() == 0 {
        0
    } else if s[0] == '.' {
        0
    } else {
        1 + first_dot_idx(s.drop_first())
    }
}

proof fn lemma_first_exp_idx_is(s: Seq<char>, k: int)
    requires
        0 <= k <= s.len(),
        forall|j: int| 0 <= j < k ==> !is_exp_char(s[j]),
        k < s.len() ==> is_exp_char(s[k]),
    ensures
        first_exp_idx(s) == k,
    decreases s.len(),
{
    if s.len() == 0 {
    } else if k == 0 {
    } else {
        lemma_first_exp_idx_is(s.drop_first(), k - 1);
    }
}

proof fn lemma_first_dot_idx_is(s: Seq<char>, k: int)
    requires
        0 <= k <= s.len(),
        forall|j: int| 0 <= j < k ==> s[j] != '.',
        k < s.len() ==> s[k] == '.',
    ensures
        first_dot_idx(s) == k,
    decreases s.len(),
{
    if s.len() == 0 {
    } else if k == 0 {
    } else {
        lemma_first_dot_idx_is(s.drop_first(), k - 1);
    }
}

/// Digit text with its leading zeros removed; an empty or all-zero group
/// becomes the single digit `0`.
pub open spec fn strip_zeros(s: Seq<char>) -> Seq<char>
    decreases s.len(),
{
    if s.len() == 0 {
        seq!['0']
    } else if s[0] == '0' {
        if s.len() == 1 {
            seq!['0']
        } else {
            strip_zeros(s.drop_first())
        }
    } else {
        s
    }
}

proof fn lemma_strip_zeros_at(s: Seq<char>, k: int)
    requires
        0 <= k < s.len(),
        forall|j: int| 0 <= j < k ==> s[j] == '0',
        s[k] != '0' || k == s.len() - 1,
    ensures
        strip_zeros(s) == s.subrange(k, s.len() as int),
    decreases s.len(),
{
    if k == 0 {
        if s[0] == '0' {
            assert(s.len() == 1);
            assert(s.subrange(0, s.len() as int) =~= seq!['0']);
        } else {
            assert(s.subrange(0, s.len() as int) =~= s);
        }
    } else {
        lemma_strip_zeros_at(s.drop_first(), k - 1);
        assert(s.drop_first().subrange(k - 1, s.drop_first().len() as int) =~= s.subrange(
            k,
            s.len() as int,
        ));
    }
}

/// A well-formed mantissa: digits with at most one decimal point and at
/// least one digit overall.
pub open spec fn mant_ok(m: Seq<char>) -> bool {
    let d = first_dot_idx(m);
    if d == m.len() {
        m.len() > 0 && all_digits(m)
    } else {
        let a = m.subrange(0, d);
        let b = m.subrange(d + 1, m.len() as int);
        all_digits(a) && all_digits(b) && a.len() + b.len() >= 1
    }
}

/// The canonical text of a well-formed mantissa.
pub open spec fn mant_canon(m: Seq<char>) -> Seq<char> {
    let d = first_dot_idx(m);
    if d == m.len() {
        strip_zeros(m)
    } else {
        let a = m.subrange(0, d);
        let b = m.subrange(d + 1, m.len() as int);
        strip_zeros(a) + seq!['.'] + (if b.len() == 0 {
            seq!['0']
        } else {
            b
        })
    }
}

/// A well-formed exponent: an optional sign and one or more digits.
pub open spec fn exp_ok(e: Seq<char>) -> bool {
    let ed = sign_split(e).1;
    ed.len() > 0 && all_digits(ed)
}

/// The canonical text of a well-formed exponent.
pub open spec fn exp_canon(e: Seq<char>) -> Seq<char> {
    let en = sign_split(e).0;
    let ed = sign_split(e).1;
    (if en {
        seq!['-']
    } else {
        Seq::<char>::empty()
    }) + strip_zeros(ed)
}

/// Whether a token is numeric decimal-fraction text: an optional sign, a
/// mantissa of digits with at most one decimal point and at least one digit,
/// and an optional `e`/`E` exponent with optionally signed digits.
pub open spec fn is_float_syntax(s: Seq<char>) -> bool {
    let t = sign_split(s).1;
    let k = first_exp_idx(t);
    if k < t.len() {
        mant_ok(t.subrange(0, k)) && exp_ok(t.subrange(k + 1, t.len() as int))
    } else {
        mant_ok(t)
    }
}

/// The canonical JSON-number text of a token with float syntax.
pub open spec fn float_canon(s: Seq<char>) -> Seq<char> {
    let neg = sign_split(s).0;
    let t = sign_split(s).1;
    let k = first_exp_idx(t);
    let sgn = if neg {
        seq!['-']
    } else {
        Seq::<char>::empty()
    };
    if k < t.len() {
        sgn + mant_canon(t.subrange(0, k)) + seq!['e'] + exp_canon(t.subrange(k + 1, t.len() as int))
    } else {
        sgn + mant_canon(t)
    }
}

/// Decides whether every character in `tok[from..to]` is a digit.
fn all_digits_range(tok: &[char], from: usize, to: usize) -> (r: bool)
    requires
        from <= to <= tok@.len(),
    ensures
        r == all_digits(tok@.subrange(from as int, to as int)),
{
    let ghost s = tok@.subrange(from as int, to as int);
    let mut j: usize = from;
    while j < to
        invariant
            from <= j <= to <= tok@.len(),
            s == tok@.subrange(from as int, to as int),
            forall|q: int| 0 <= q < j - from ==> is_digit(s[q]),
        decreases to - j,
    {
        let u = tok[j] as u32;
        if !(0x30 <= u && u <= 0x39) {
            proof {
                assert(s[j - from] == tok@[j as int]);
                assert(!is_digit(s[j - from]));
            }
            return false;
        }
        proof {
            assert(s[j - from] == tok@[j as int]);
        }
        j = j + 1;
    }
    proof {
        assert(all_digits(s));
    }
    true
}

/// Finds the first exponent marker in `tok[from..to]`.
fn find_exp(tok: &[char], from: usize, to: usize) -> (k: usize)
    requires
        from <= to <= tok@.len(),
    ensures
        from <= k <= to,
        forall|j: int| from <= j < k ==> !is_exp_char(tok@[j]),
        k < to ==> is_exp_char(tok@[k as int]),
{
    let mut j: usize = from;
    while j < to
        invariant
            from <= j <= to,
            to <= tok@.len(),
            forall|q: int| from <= q < j ==> !is_exp_char(tok@[q]),
        decreases to - j,
    {
        let c = tok[j];
        if c == 'e' || c == 'E' {
            return j;
        }
        j = j + 1;
    }
    j
}

/// Finds the first `.` in `tok[from..to]`.
fn find_dot(tok: &[char], from: usize, to: usize) -> (k: usize)
    requires
        from <= to <= tok@.len(),
    ensures
        from <= k <= to,
        forall|j: int| from <= j < k ==> tok@[j] != '.',
        k < to ==> tok@[k as int] == '.',
{
    let mut j: usize = from;
    while j < to
        invariant
            from <= j <= to,
            to <= tok@.len(),
            forall|q: int| from <= q < j ==> tok@[q] != '.',
        decreases to - j,
    {
        let c = tok[j];
        if c == '.' {
            return j;
        }
        j = j + 1;
    }
    j
}

/// Appends `tok[from..to]` to `out`.
fn push_range(out: &mut Vec<char>, tok: &[char], from: usize, to: usize)
    requires
        from <= to <= tok@.len(),
    ensures
        final(out)@ == old(out)@ + tok@.subrange(from as int, to as int),
{
    let mut j: usize = from;
    while j < to
        invariant
            from <= j <= to <= tok@.len(),
            out@ == old(out)@ + tok@.subrange(from as int, j as int),
        decreases to - j,
    {
        out.push(tok[j]);
        j = j + 1;
        proof {
            assert(tok@.subrange(from as int, j as int) == tok@.subrange(from as int, j - 1)
                + seq![tok@[j - 1]]);
            assert(old(out)@ + tok@.subrange(from as int, j as int) =~= (old(out)@ + tok@.subrange(
                from as int,
                j - 1,
            )).push(tok@[j - 1]));
        }
    }
}

/// Appends the leading-zero-stripped digits of `tok[from..to]` to `out`.
fn push_stripped(out: &mut Vec<char>, tok: &[char], from: usize, to: usize)
    requires
        from <= to <= tok@.len(),
    ensures
        final(out)@ == old(out)@ + strip_zeros(tok@.subrange(from as int, to as int)),
{
    let ghost s = tok@.subrange(from as int, to as int);
    if from == to {
        proof {
            assert(strip_zeros(s) == seq!['0']);
        }
        out.push('0');
        proof {
            assert(out@ =~= old(out)@ + seq!['0']);
        }
        return ;
    }
    let mut p: usize = from;
    while p + 1 < to && tok[p] == '0'
        invariant
            from <= p < to <= tok@.len(),
            s == tok@.subrange(from as int, to as int),
            forall|j: int| 0 <= j < p - from ==> s[j] == '0',
        decreases to - p,
    {
        proof {
            assert(s[p - from] == tok@[p as int]);
        }
        p = p + 1;
    }
    proof {
        assert(s[p - from] == tok@[p as int]);
        lemma_strip_zeros_at(s, p - from);
        assert(s.subrange(p - from, s.len() as int) =~= tok@.subrange(p as int, to as int));
    }
    push_range(out, tok, p, to);
}

/// Decides `mant_ok` for `tok[i..ka]`, given the position of its first dot.
fn mant_ok_range(tok: &[char], i: usize, kd: usize, ka: usize) -> (r: bool)
    requires
        i <= kd <= ka <= tok@.len(),
        first_dot_idx(tok@.subrange(i as int, ka as int)) == kd - i,
    ensures
        r == mant_ok(tok@.subrange(i as int, ka as int)),
{
    let ghost mant = tok@.subrange(i as int, ka as int);
    if kd == ka {
        let digits_ok = all_digits_range(tok, i, ka);
        ka > i && digits_ok
    } else {
        let a_ok = all_digits_range(tok, i, kd);
        let b_ok = all_digits_range(tok, kd + 1, ka);
        proof {
            assert(mant.subrange(0, kd - i) =~= tok@.subrange(i as int, kd as int));
            assert(mant.subrange(kd - i + 1, mant.len() as int) =~= tok@.subrange(
                kd + 1,
                ka as int,
            ));
        }
        a_ok && b_ok && (kd > i || ka > kd + 1)
    }
}

/// Appends the canonical text of the mantissa `tok[i..ka]` to `out`, given
/// the position of its first dot.
fn push_mant_canon(out: &mut Vec<char>, tok: &[char], i: usize, kd: usize, ka: usize)
    requires
        i <= kd <= ka <= tok@.len(),
        first_dot_idx(tok@.subrange(i as int, ka as int)) == kd - i,
    ensures
        final(out)@ == old(out)@ + mant_canon(tok@.subrange(i as int, ka as int)),
{
    let ghost mant = tok@.subrange(i as int, ka as int);
    let ghost start = out@;
    if kd == ka {
        push_stripped(out, tok, i, ka);
    } else {
        push_stripped(out, tok, i, kd);
        out.push('.');
        if kd + 1 == ka {
            out.push('0');
        } else {
            push_range(out, tok, kd + 1, ka);
        }
        proof {
            let a = mant.subrange(0, kd - i);
            let b = mant.subrange(kd - i + 1, mant.len() as int);
            assert(a =~= tok@.subrange(i as int, kd as int));
            assert(b =~= tok@.subrange(kd + 1, ka as int));
            if kd + 1 == ka {
                assert(out@ =~= start + (strip_zeros(a) + seq!['.'] + seq!['0']));
            } else {
                assert(out@ =~= start + (strip_zeros(a) + seq!['.'] + b));
            }
        }
    }
}

/// Decides `exp_ok` for `tok[from..n]` and returns the sign and the start of
/// the digit group.
fn exp_parts(tok: &[char], from: usize, n: usize) -> (r: (bool, bool, usize))
    requires
        from <= n <= tok@.len(),
    ensures
        r.0 == exp_ok(tok@.subrange(from as int, n as int)),
        r.1 == sign_split(tok@.subrange(from as int, n as int)).0,
        from <= r.2 <= n,
        sign_split(tok@.subrange(from as int, n as int)).1 == tok@.subrange(r.2 as int, n as int),
{
    let ghost ex = tok@.subrange(from as int, n as int);
    let mut eneg: bool = false;
    let mut es: usize = from;
    if from < n && tok[from] == '-' {
        eneg = true;
        es = from + 1;
    } else if from < n && tok[from] == '+' {
        es = from + 1;
    }
    proof {
        assert(sign_split(ex).0 == eneg);
        assert(sign_split(ex).1 =~= tok@.subrange(es as int, n as int));
    }
    let ed_ok = all_digits_range(tok, es, n);
    (es < n && ed_ok, eneg, es)
}

/// Recognizes a token with float syntax and returns its canonical
/// JSON-number text; returns `None` exactly when the token lacks that
/// syntax.
pub fn float_token_canon(tok: &[char]) -> (r: Option<Vec<char>>)
    ensures
        (r is Some) == is_float_syntax(tok@),
        r is Some ==> r.unwrap()@ == float_canon(tok@),
{
    let n = tok.len();
    let mut i: usize = 0;
    let mut neg: bool = false;
    if n > 0 && tok[0] == '-' {
        neg = true;
        i = 1;
    } else if n > 0 && tok[0] == '+' {
        i = 1;
    }
    let ghost t = sign_split(tok@).1;
    proof {
        assert(t =~= tok@.subrange(i as int, n as int));
        assert(neg == sign_split(tok@).0);
    }
    // locate the exponent marker and the decimal point
    let ka = find_exp(tok, i, n);
    proof {
        assert(forall|j: int| 0 <= j < ka - i ==> !is_exp_char(#[trigger] t[j]));
        assert(ka < n ==> is_exp_char(t[ka - i]));
        lemma_first_exp_idx_is(t, ka - i);
    }
    let ghost mant = t.subrange(0, ka - i);
    proof {
        assert(mant =~= tok@.subrange(i as int, ka as int));
    }
    let kd = find_dot(tok, i, ka);
    proof {
        assert(forall|j: int| 0 <= j < kd - i ==> #[trigger] mant[j] != '.');
        assert(kd < ka ==> mant[kd - i] == '.');
        lemma_first_dot_idx_is(mant, kd - i);
    }
    // validate
    let mant_valid = mant_ok_range(tok, i, kd, ka);
    if !mant_valid {
        return None;
    }
    let mut eneg: bool = false;
    let mut es: usize = n;
    if ka < n {
        let ghost ex = t.subrange(ka - i + 1, t.len() as int);
        proof {
            assert(ex =~= tok@.subrange(ka + 1, n as int));
        }
        let (e_ok, eneg0, es0) = exp_parts(tok, ka + 1, n);
        if !e_ok {
            return None;
        }
        eneg = eneg0;
        es = es0;
    }
    // assemble the canonical text
    let mut out: Vec<char> = Vec::new();
    if neg {
        out.push('-');
    }
    proof {
        assert(out@ =~= (if sign_split(tok@).0 {
            seq!['-']
        } else {
            Seq::<char>::empty()
        }));
    }
    let ghost before_mant = out@;
    push_mant_canon(&mut out, tok, i, kd, ka);
    let ghost with_mant = out@;
    if ka < n {
        out.push('e');
        if eneg {
            out.push('-');
        }
        push_stripped(&mut out, tok, es, n);
        proof {
            let ex = t.subrange(ka - i + 1, t.len() as int);
            let ed = sign_split(ex).1;
            assert(ex =~= tok@.subrange(ka + 1, n as int));
            assert(ed =~= tok@.subrange(es as int, n as int));
            if eneg {
                assert(out@ =~= with_mant + seq!['e'] + (seq!['-'] + strip_zeros(ed)));
            } else {
                assert(out@ =~= with_mant + seq!['e'] + (Seq::<char>::empty() + strip_zeros(ed)));
            }
            assert(out@ == with_mant + seq!['e'] + exp_canon(ex));
            assert(out@ =~= float_canon(tok@));
        }
    } else {
        proof {
            assert(out@ =~= float_canon(tok@));
        }
    }
    Some(out)
}

} // verus!
