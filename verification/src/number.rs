//! Decimal integers: parsing a token as an `i64` and rendering an `i64` as
//! decimal text.  The accepted syntax is an optional `+` or `-` sign followed
//! by one or more ASCII digits, with the value required to fit in `i64`.

use vstd::prelude::*;

verus! {

/// An ASCII decimal digit.
pub open spec fn is_digit(c: char) -> bool {
    0x30 <= c as u32 && c as u32 <= 0x39
}

/// The numeric value of an ASCII decimal digit.
pub open spec fn digit_val(c: char) -> nat {
    (c as u32 - 0x30) as nat
}

/// Every character of `s` is an ASCII decimal digit.
pub open spec fn all_digits(s: Seq<char>) -> bool {
    forall|i: int| 0 <= i < s.len() ==> is_digit(s[i])
}

/// The value of a sequence of ASCII decimal digits, most significant first.
pub open spec fn digits_val(s: Seq<char>) -> nat
    decreases s.len(),
{
    if s.len() == 0 {
        0
    } else {
        digits_val(s.drop_last()) * 10 + digit_val(s.last())
    }
}

/// Splits a leading `+` or `-` sign off a token: (negative, rest).
pub open spec fn sign_split(s: Seq<char>) -> (bool, Seq<char>) {
    if s.len() > 0 && s[0] == '-' {
        (true, s.drop_first())
    } else if s.len() > 0 && s[0] == '+' {
        (false, s.drop_first())
    } else {
        (false, s)
    }
}

/// What parsing a token as an `i64` yields: `Some` exactly when the token is
/// an optional sign followed by one or more ASCII digits and the signed value
/// fits in `i64`.
pub open spec fn parse_int_spec(s: Seq<char>) -> Option<i64> {
    let (neg, d) = sign_split(s);
    if d.len() > 0 && all_digits(d) {
        let v = digits_val(d);
        if neg {
            if v <= 0x8000_0000_0000_0000 {
                Some((-(v as int)) as i64)
            } else {
                None
            }
        } else {
            if v <= 0x7FFF_FFFF_FFFF_FFFF {
                Some(v as i64)
            } else {
                None
            }
        }
    } else {
        None
    }
}

/// Appending a digit multiplies the value by ten and adds the digit.
proof fn lemma_digits_val_step(s: Seq<char>, j: int)
    requires
        0 <= j < s.len(),
    ensures
        digits_val(s.subrange(0, j + 1)) == digits_val(s.subrange(0, j)) * 10 + digit_val(s[j]),
{
    let t = s.subrange(0, j + 1);
    assert(t.drop_last() == s.subrange(0, j));
    assert(t.last() == s[j]);
}

/// Parses a token as an `i64`, exactly as `parse_int_spec` describes.
pub fn parse_int(tok: &[char]) -> (r: Option<i64>)
    ensures
        r == parse_int_spec(tok@),
{
    let n = tok.len();
    let mut i: usize = 0;
    let mut neg: bool = false;
    if n > 0 && tok[0] == '-' {
        neg = true;
        i = 1;
    } else if n > 0 && tok[0] == '+' {
        i = 1;
    }
    let ghost d = sign_split(tok@).1;
    proof {
        assert(d == tok@.subrange(i as int, n as int));
    }
    if i == n {
        return None;
    }
    let mut acc: u64 = 0;
    let mut over: bool = false;
    let mut j: usize = i;
    while j < n
        invariant
            i <= j <= n,
            n == tok@.len(),
            d == sign_split(tok@).1,
            d == tok@.subrange(i as int, n as int),
            all_digits(tok@.subrange(i as int, j as int)),
            !over ==> acc as nat == digits_val(tok@.subrange(i as int, j as int)) && acc
                <= 0x8000_0000_0000_0000,
            over ==> digits_val(tok@.subrange(i as int, j as int)) > 0x8000_0000_0000_0000,
        decreases n - j,
    {
        let c = tok[j];
        let u = c as u32;
        if !(0x30 <= u && u <= 0x39) {
            proof {
                assert(d[j - i] == tok@[j as int]);
                assert(!is_digit(d[j - i]));
                assert(!all_digits(d));
            }
            return None;
        }
        let dv: u64 = (u - 0x30) as u64;
        proof {
            let p = tok@.subrange(i as int, n as int);
            assert(p.subrange(0, j - i + 1) == tok@.subrange(i as int, j + 1));
            assert(p.subrange(0, j - i) == tok@.subrange(i as int, j as int));
            lemma_digits_val_step(p, j - i);
        }
        if !over {
            if acc <= 922337203685477580 {
                acc = acc * 10 + dv;
                if acc > 0x8000_0000_0000_0000 {
                    over = true;
                }
            } else {
                proof {
                    assert(digits_val(tok@.subrange(i as int, j as int)) * 10 + digit_val(
                        tok@[j as int],
                    ) > 0x8000_0000_0000_0000);
                }
                over = true;
            }
        } else {
            proof {
                assert(digits_val(tok@.subrange(i as int, j as int)) * 10 >= digits_val(
                    tok@.subrange(i as int, j as int),
                ));
            }
        }
        j = j + 1;
        proof {
            assert(forall|k: int|
                0 <= k < j - i ==> is_digit(#[trigger] tok@.subrange(i as int, j as int)[k]));
        }
    }
    proof {
        assert(tok@.subrange(i as int, j as int) == d);
    }
    if over {
        return None;
    }
    if neg {
        if acc <= 0x7FFF_FFFF_FFFF_FFFF {
            Some(-(acc as i64))
        } else {
            Some(i64::MIN)
        }
    } else {
        if acc <= 0x7FFF_FFFF_FFFF_FFFF {
            Some(acc as i64)
        } else {
            None
        }
    }
}

/// The decimal digit character for a value below ten.
pub open spec fn digit_char(n: nat) -> char {
    if n == 0 {
        '0'
    } else if n == 1 {
        '1'
    } else if n == 2 {
        '2'
    } else if n == 3 {
        '3'
    } else if n == 4 {
        '4'
    } else if n == 5 {
        '5'
    } else if n == 6 {
        '6'
    } else if n == 7 {
        '7'
    } else if n == 8 {
        '8'
    } else {
        '9'
    }
}

/// The decimal text of a natural number, without sign or leading zeros.
pub open spec fn spec_digits(n: nat) -> Seq<char>
    decreases n,
{
    if n < 10 {
        seq![digit_char(n)]
    } else {
        spec_digits(n / 10) + seq![digit_char(n % 10)]
    }
}

/// The decimal text of an integer: a `-` sign when negative, then the digits.
pub open spec fn spec_int_text(i: int) -> Seq<char> {
    if i < 0 {
        seq!['-'] + spec_digits((-i) as nat)
    } else {
        spec_digits(i as nat)
    }
}

fn digit_to_char(d: u64) -> (c: char)
    requires
        d < 10,
    ensures
        c == digit_char(d as nat),
{
    if d == 0 {
        '0'
    } else if d == 1 {
        '1'
    } else if d == 2 {
        '2'
    } else if d == 3 {
        '3'
    } else if d == 4 {
        '4'
    } else if d == 5 {
        '5'
    } else if d == 6 {
        '6'
    } else if d == 7 {
        '7'
    } else if d == 8 {
        '8'
    } else {
        '9'
    }
}

/// Renders a `u64` as decimal text.
pub fn fmt_u64(n: u64) -> (r: Vec<char>)
    ensures
        r@ == spec_digits(n as nat),
{
    let mut rev: Vec<char> = Vec::new();
    let mut m: u64 = n;
    while m >= 10
        invariant
            spec_digits(n as nat) == spec_digits(m as nat) + rev@.reverse(),
        decreases m,
    {
        let c = digit_to_char(m % 10);
        proof {
            let old_rev = rev@;
            assert(old_rev.push(c).reverse() =~= seq![c] + old_rev.reverse());
            assert(spec_digits(m as nat) == spec_digits((m as nat) / 10) + seq![
                digit_char((m as nat) % 10),
            ]);
            assert(spec_digits((m as nat) / 10) + seq![c] + old_rev.reverse() =~= spec_digits(
                (m as nat) / 10,
            ) + (seq![c] + old_rev.reverse()));
        }
        rev.push(c);
        m = m / 10;
    }
    let c = digit_to_char(m);
    proof {
        let old_rev = rev@;
        assert(old_rev.push(c).reverse() =~= seq![c] + old_rev.reverse());
        assert(spec_digits(m as nat) == seq![digit_char(m as nat)]);
        assert(seq![c] + old_rev.reverse() =~= seq![c].add(old_rev.reverse()));
    }
    rev.push(c);
    let ghost target = spec_digits(n as nat);
    proof {
        assert(target == rev@.reverse());
        assert(rev@.reverse().len() == rev@.len());
    }
    let mut out: Vec<char> = Vec::new();
    let mut k: usize = rev.len();
    while k > 0
        invariant
            k <= rev@.len(),
            target == rev@.reverse(),
            target.len() == rev@.len(),
            out@ == target.subrange(0, rev@.len() - k),
        decreases k,
    {
        k = k - 1;
        let c = rev[k];
        proof {
            assert(target[rev@.len() - 1 - k] == rev@[k as int]);
            assert(target.subrange(0, rev@.len() - k) == target.subrange(0, rev@.len() - k - 1)
                + seq![target[rev@.len() - k - 1]]);
        }
        out.push(c);
    }
    proof {
        assert(out@ == target.subrange(0, target.len() as int));
        assert(target.subrange(0, target.len() as int) == target);
    }
    out
}

/// Renders an `i64` as decimal text, exactly as `spec_int_text` describes.
pub fn fmt_i64(i: i64) -> (r: Vec<char>)
    ensures
        r@ == spec_int_text(i as int),
{
    if i >= 0 {
        fmt_u64(i as u64)
    } else {
        let mag: u64 = ((-(i + 1)) as u64) + 1;
        proof {
            assert(mag as nat == (-(i as int)) as nat);
        }
        let digits = fmt_u64(mag);
        let mut out: Vec<char> = Vec::new();
        out.push('-');
        let mut k: usize = 0;
        while k < digits.len()
            invariant
                k <= digits@.len(),
                out@ == seq!['-'] + digits@.subrange(0, k as int),
            decreases digits@.len() - k,
        {
            let c = digits[k];
            proof {
                assert(digits@.subrange(0, k + 1) == digits@.subrange(0, k as int) + seq![
                    digits@[k as int],
                ]);
                assert(seq!['-'] + digits@.subrange(0, k + 1) =~= (seq!['-'] + digits@.subrange(
                    0,
                    k as int,
                )).push(c));
            }
            out.push(c);
            k = k + 1;
        }
        proof {
            assert(digits@.subrange(0, digits@.len() as int) == digits@);
        }
        out
    }
}

} // verus!
