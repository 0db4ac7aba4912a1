//! Decimal notation: reading numbers as `str::parse` does and writing them
//! as `format!` does, with the facts about digit strings the callers need.

use vstd::prelude::*;

use crate::text::{chars_of, lex_less, push_char};

verus! {

/// Decimal value of a digit character.
pub open spec fn digit_value(c: char) -> int {
    (c as u32) - ('0' as u32)
}

/// `c` is one of '0' to '9'.
pub open spec fn is_digit(c: char) -> bool {
    '0' <= c && c <= '9'
}

/// Value of a string of decimal digits.
pub open spec fn digits_value(s: Seq<char>) -> int
    decreases s.len(),
{
    if s.len() == 0 {
        0
    } else {
        digits_value(s.drop_last()) * 10 + digit_value(s.last())
    }
}

/// Every character of `t` is a decimal digit.
pub open spec fn all_digits(t: Seq<char>) -> bool {
    forall|i: int| 0 <= i < t.len() ==> is_digit(#[trigger] t[i])
}

/// `s` without a leading '+'.
pub open spec fn unsigned_body(s: Seq<char>) -> Seq<char> {
    if s.len() > 0 && s[0] == '+' {
        s.drop_first()
    } else {
        s
    }
}

/// What `str::parse::<usize>` reads from `s`: an optional '+' followed by
/// at least one decimal digit and nothing else, whose value fits `usize`.
pub open spec fn parsed_usize(s: Seq<char>) -> Option<int> {
    let body = unsigned_body(s);
    if body.len() > 0 && all_digits(body) && digits_value(body) <= usize::MAX {
        Some(digits_value(body))
    } else {
        None
    }
}

proof fn lemma_digits_value_grows(s: Seq<char>, k: int)
    requires
        0 <= k <= s.len(),
        all_digits(s),
    ensures
        digits_value(s.take(k)) <= digits_value(s),
        0 <= digits_value(s.take(k)),
    decreases s.len() - k,
{
    if k < s.len() {
        lemma_digits_value_grows(s, k + 1);
        assert(s.take(k + 1).drop_last() =~= s.take(k));
        assert(is_digit(s.take(k + 1).last()));
    } else {
        assert(s.take(k) =~= s);
        lemma_digits_value_nonneg(s);
    }
}

proof fn lemma_digits_value_nonneg(s: Seq<char>)
    requires
        all_digits(s),
    ensures
        0 <= digits_value(s),
    decreases s.len(),
{
    if s.len() > 0 {
        assert(is_digit(s.last()));
        lemma_digits_value_nonneg(s.drop_last());
    }
}

/// Reads a number as `str::parse::<usize>` does; `None` where that fails.
pub fn parse_usize(s: &str) -> (r: Option<usize>)
    ensures
        match parsed_usize(s@) {
            Some(v) => r matches Some(x) && x as int == v,
            None => r is None,
        },
{
    let cs = chars_of(s);
    let start: usize = if cs.len() > 0 && cs[0] == '+' {
        1
    } else {
        0
    };
    let ghost body = unsigned_body(s@);
    proof {
        assert(body =~= cs@.skip(start as int));
    }
    if start == cs.len() {
        return None;
    }
    let mut v: usize = 0;
    let mut i: usize = start;
    while i < cs.len()
        invariant
            start <= i <= cs@.len(),
            cs@ == s@,
            body == cs@.skip(start as int),
            body == unsigned_body(s@),
            all_digits(body.take(i - start)),
            v as int == digits_value(body.take(i - start)),
        decreases cs@.len() - i,
    {
        let c = cs[i];
        proof {
            assert(body[i - start] == c);
            assert(body.take(i - start + 1).drop_last() =~= body.take(i - start));
            assert(body.take(i - start + 1).last() == c);
        }
        if !('0' <= c && c <= '9') {
            proof {
                assert(!is_digit(body[i - start]));
                assert(!all_digits(body));
            }
            return None;
        }
        let d = (c as u32 - '0' as u32) as usize;
        if v > (usize::MAX - d) / 10 {
            proof {
                assert(digits_value(body.take(i - start + 1)) > usize::MAX) by (nonlinear_arith)
                    requires
                        v > (usize::MAX - d) / 10,
                        digits_value(body.take(i - start + 1)) == v * 10 + d,
                        d <= 9,
                ;
                if all_digits(body) {
                    lemma_digits_value_grows(body, i - start + 1);
                }
            }
            return None;
        }
        v = v * 10 + d;
        proof {
            assert(body.take(i - start + 1) =~= body.take(i - start).push(c));
        }
        i += 1;
    }
    proof {
        assert(body.take(body.len() as int) =~= body);
    }
    Some(v)
}

/// The digit character for `d` below ten.
pub open spec fn digit_char(d: int) -> char {
    (d + 48) as char
}

/// Decimal notation of `n`, without leading zeros ("0" for zero).
pub open spec fn decimal(n: nat) -> Seq<char>
    decreases n,
{
    if n < 10 {
        seq![digit_char(n as int)]
    } else {
        decimal(n / 10).push(digit_char((n % 10) as int))
    }
}

/// The digit character for `d`.
pub fn digit_of(d: usize) -> (c: char)
    requires
        d < 10,
    ensures
        c == digit_char(d as int),
{
    match d {
        0 => '0',
        1 => '1',
        2 => '2',
        3 => '3',
        4 => '4',
        5 => '5',
        6 => '6',
        7 => '7',
        8 => '8',
        _ => '9',
    }
}

/// Appends the decimal notation of `n`.
pub fn push_decimal(s: &mut String, n: usize)
    ensures
        final(s)@ == old(s)@ + decimal(n as nat),
    decreases n,
{
    if n >= 10 {
        push_decimal(s, n / 10);
    }
    push_char(s, digit_of(n % 10));
    proof {
        if n < 10 {
            assert(n % 10 == n);
        }
    }
}

pub(crate) proof fn lemma_decimal(n: nat)
    ensures
        decimal(n).len() > 0,
        all_digits(decimal(n)),
        digits_value(decimal(n)) == n,
    decreases n,
{
    if n < 10 {
        let d = decimal(n);
        assert(d.drop_last() =~= Seq::<char>::empty());
        assert(digits_value(d.drop_last()) == 0);
        assert(digit_value(digit_char(n as int)) == n);
        assert(digits_value(d) == digits_value(d.drop_last()) * 10 + digit_value(d.last()));
    } else {
        lemma_decimal(n / 10);
        let d = decimal(n);
        assert(d.drop_last() =~= decimal(n / 10));
        assert(digit_value(digit_char((n % 10) as int)) == n % 10);
        assert(n == (n / 10) * 10 + n % 10);
        assert(digits_value(d) == digits_value(d.drop_last()) * 10 + digit_value(d.last()));
        assert(d.last() == digit_char((n % 10) as int));
        assert forall|i: int| 0 <= i < d.len() implies is_digit(#[trigger] d[i]) by {
            if i < d.len() - 1 {
                assert(d[i] == decimal(n / 10)[i]);
            }
        }
    }
}

pub(crate) proof fn lemma_zeros_value(z: nat, s: Seq<char>)
    ensures
        digits_value(Seq::new(z, |i: int| '0') + s) == digits_value(s),
    decreases s.len(), z,
{
    let zs = Seq::new(z, |i: int| '0');
    if s.len() == 0 {
        assert(zs + s =~= zs);
        if z > 0 {
            assert(zs.drop_last() =~= Seq::new((z - 1) as nat, |i: int| '0'));
            lemma_zeros_value((z - 1) as nat, s);
            assert(Seq::new((z - 1) as nat, |i: int| '0') + s =~= Seq::new((z - 1) as nat, |i: int| '0'));
        }
    } else {
        assert((zs + s).drop_last() =~= zs + s.drop_last());
        lemma_zeros_value(z, s.drop_last());
    }
}

/// Ten to the power `m`.
pub open spec fn pow10(m: nat) -> nat
    decreases m,
{
    if m == 0 {
        1
    } else {
        10 * pow10((m - 1) as nat)
    }
}

pub(crate) proof fn lemma_decimal_len(n: nat, d: nat)
    requires
        d >= 1,
        n < pow10(d),
    ensures
        decimal(n).len() <= d,
    decreases n,
{
    if n >= 10 {
        assert(d >= 2) by {
            if d == 1 {
                assert(pow10(1) == 10 * pow10(0));
            }
        }
        assert(n / 10 < pow10((d - 1) as nat)) by {
            assert(pow10(d) == 10 * pow10((d - 1) as nat));
        }
        lemma_decimal_len(n / 10, (d - 1) as nat);
    }
}

/// The value of a digit string, read from its first digit.
proof fn lemma_value_front(x: Seq<char>)
    requires
        x.len() > 0,
    ensures
        digits_value(x) == digit_value(x[0]) * pow10((x.len() - 1) as nat) + digits_value(x.drop_first()),
    decreases x.len(),
{
    if x.len() == 1 {
        assert(x.drop_last() =~= Seq::<char>::empty());
        assert(x.drop_first() =~= Seq::<char>::empty());
        assert(digits_value(x.drop_last()) == 0);
        assert(digits_value(x.drop_first()) == 0);
        assert(x.last() == x[0]);
        assert(pow10(0) == 1);
        assert(digits_value(x) == digit_value(x[0]));
        assert(digit_value(x[0]) * pow10(0) == digit_value(x[0]));
    } else {
        let d = x.drop_last();
        lemma_value_front(d);
        assert(d.drop_first() =~= x.drop_first().drop_last());
        assert(x.drop_first().last() == x.last());
        let m = (x.len() - 2) as nat;
        assert(pow10((x.len() - 1) as nat) == 10 * pow10(m));
        assert(digits_value(x) == digits_value(d) * 10 + digit_value(x.last()));
        assert(digits_value(x.drop_first()) == digits_value(d.drop_first()) * 10 + digit_value(x.last()));
        let p = pow10(m);
        let v = digit_value(x[0]);
        let r = digits_value(d.drop_first());
        assert(digits_value(d) == v * p + r);
        assert((v * p + r) * 10 == v * (10 * p) + r * 10) by (nonlinear_arith);
        assert(digits_value(x) == v * (10 * p) + r * 10 + digit_value(x.last()));
        assert(pow10((x.len() - 1) as nat) == 10 * p);
    }
}

proof fn lemma_value_below(x: Seq<char>)
    requires
        all_digits(x),
    ensures
        0 <= digits_value(x) < pow10(x.len()),
    decreases x.len(),
{
    if x.len() > 0 {
        let d = x.drop_last();
        assert(all_digits(d)) by {
            assert forall|i: int| 0 <= i < d.len() implies is_digit(#[trigger] d[i]) by {
                assert(d[i] == x[i]);
            }
        }
        lemma_value_below(d);
        assert(is_digit(x.last()));
        assert(pow10(x.len()) == 10 * pow10(d.len()));
        assert(digits_value(x) < pow10(x.len())) by (nonlinear_arith)
            requires
                digits_value(x) == digits_value(d) * 10 + digit_value(x.last()),
                0 <= digits_value(d) < pow10(d.len()),
                0 <= digit_value(x.last()) <= 9,
                pow10(x.len()) == 10 * pow10(d.len()),
        ;
    }
}

/// For digit strings of one length, the order of the strings is the order
/// of their values.
pub(crate) proof fn lemma_digits_order(x: Seq<char>, y: Seq<char>)
    requires
        x.len() == y.len(),
        all_digits(x),
        all_digits(y),
    ensures
        lex_less(x, y) == (digits_value(x) < digits_value(y)),
    decreases x.len(),
{
    if x.len() == 0 {
    } else {
        let xr = x.drop_first();
        let yr = y.drop_first();
        assert(all_digits(xr)) by {
            assert forall|i: int| 0 <= i < xr.len() implies is_digit(#[trigger] xr[i]) by {
                assert(xr[i] == x[i + 1]);
            }
        }
        assert(all_digits(yr)) by {
            assert forall|i: int| 0 <= i < yr.len() implies is_digit(#[trigger] yr[i]) by {
                assert(yr[i] == y[i + 1]);
            }
        }
        lemma_value_front(x);
        lemma_value_front(y);
        lemma_value_below(xr);
        lemma_value_below(yr);
        let m = (x.len() - 1) as nat;
        let p = pow10(m);
        assert(is_digit(x[0]) && is_digit(y[0]));
        if x[0] == y[0] {
            lemma_digits_order(xr, yr);
        } else {
            let dx = digit_value(x[0]);
            let dy = digit_value(y[0]);
            assert((x[0] < y[0]) == (dx < dy));
            assert(dx != dy);
            if dx < dy {
                assert(digits_value(x) < digits_value(y)) by (nonlinear_arith)
                    requires
                        digits_value(x) == dx * p + digits_value(xr),
                        digits_value(y) == dy * p + digits_value(yr),
                        0 <= digits_value(xr) < p,
                        0 <= digits_value(yr),
                        dx < dy,
                        0 <= dx,
                ;
            } else {
                assert(digits_value(y) < digits_value(x)) by (nonlinear_arith)
                    requires
                        digits_value(x) == dx * p + digits_value(xr),
                        digits_value(y) == dy * p + digits_value(yr),
                        0 <= digits_value(yr) < p,
                        0 <= digits_value(xr),
                        dy < dx,
                        0 <= dy,
                ;
            }
        }
    }
}

} // verus!
