//! Decimal text of integers, as `to_string` writes it and as `str::parse`
//! reads it back.

use vstd::prelude::*;

verus! {

/// The character of the decimal digit `d` (`0 <= d < 10`).
pub open spec fn digit_char(d: int) -> char {
    (d + ('0' as int)) as char
}

/// Whether `c` is an ASCII decimal digit.
pub open spec fn is_digit(c: char) -> bool {
    '0' <= c && c <= '9'
}

/// The value of the digit character `c`.
pub open spec fn digit_value(c: char) -> int {
    (c as int) - ('0' as int)
}

/// The digits of `n` in base ten, most significant first, without leading zeros.
pub open spec fn nat_digits(n: nat) -> Seq<char>
    decreases n,
{
    if n < 10 {
        seq![digit_char(n as int)]
    } else {
        nat_digits(n / 10).push(digit_char((n % 10) as int))
    }
}

/// The decimal text of `x`: its digits, with a `-` in front when it is negative.
pub open spec fn int_decimal(x: int) -> Seq<char> {
    if x < 0 {
        seq!['-'] + nat_digits((-x) as nat)
    } else {
        nat_digits(x as nat)
    }
}

/// Appends `c` to `s` (std's `String::push`).
#[verifier::external_body]
pub(crate) fn push_char(s: &mut String, c: char)
    ensures
        final(s)@ == old(s)@.push(c),
{
    s.push(c);
}

fn digit_to_char(d: u64) -> (c: char)
    requires
        d < 10,
    ensures
        c == digit_char(d as int),
        is_digit(c),
{
    let b: u8 = d as u8 + 48u8;
    b as char
}

/// Appends the decimal digits of `n` to `s`.
pub fn push_digits(s: &mut String, n: u64)
    ensures
        final(s)@ == old(s)@ + nat_digits(n as nat),
    decreases n,
{
    if n >= 10 {
        push_digits(s, n / 10);
    }
    push_char(s, digit_to_char(n % 10));
}


/// The decimal text of `x`, as `i32::to_string` writes it.
pub fn i32_to_decimal(x: i32) -> (r: String)
    ensures
        r@ == int_decimal(x as int),
{
    let mut r = String::new();
    if x < 0 {
        push_char(&mut r, '-');
        let m: i64 = x as i64;
        let a: u64 = (-m) as u64;
        push_digits(&mut r, a);
    } else {
        push_digits(&mut r, x as u64);
    }
    r
}

/// The decimal text of `x`, as `u64::to_string` writes it.
pub fn u64_to_decimal(x: u64) -> (r: String)
    ensures
        r@ == nat_digits(x as nat),
{
    let mut r = String::new();
    push_digits(&mut r, x);
    r
}

/// The value of a run of decimal digits, read most significant first.
pub open spec fn digits_value(d: Seq<char>) -> int
    decreases d.len(),
{
    if d.len() == 0 {
        0
    } else {
        10 * digits_value(d.drop_last()) + digit_value(d.last())
    }
}

/// Whether every character of `d` is a decimal digit.
pub open spec fn all_digits(d: Seq<char>) -> bool {
    forall|i: int| 0 <= i < d.len() ==> is_digit(#[trigger] d[i])
}

/// Whether `s` starts with a sign character.
pub open spec fn has_sign(s: Seq<char>) -> bool {
    s.len() > 0 && (s[0] == '-' || s[0] == '+')
}

/// The digits of `s` after its optional sign.
pub open spec fn unsigned_part(s: Seq<char>) -> Seq<char> {
    if has_sign(s) {
        s.drop_first()
    } else {
        s
    }
}

/// The value that `s` denotes, if it is an optional sign followed by digits.
pub open spec fn signed_value(s: Seq<char>) -> int {
    if s.len() > 0 && s[0] == '-' {
        -digits_value(unsigned_part(s))
    } else {
        digits_value(unsigned_part(s))
    }
}

/// What `str::parse::<i32>` gives for `s`: an optional `+` or `-`, then
/// at least one decimal digit and nothing else, whose value fits in an `i32`.
pub open spec fn spec_parse_i32(s: Seq<char>) -> Option<i32> {
    let d = unsigned_part(s);
    let v = signed_value(s);
    if d.len() > 0 && all_digits(d) && i32::MIN <= v <= i32::MAX {
        Some(v as i32)
    } else {
        None
    }
}

proof fn lemma_digits_value_nonneg(d: Seq<char>)
    requires
        all_digits(d),
    ensures
        digits_value(d) >= 0,
    decreases d.len(),
{
    if d.len() > 0 {
        assert(is_digit(d[d.len() - 1]));
        lemma_digits_value_nonneg(d.drop_last());
    }
}

proof fn lemma_digits_value_grows(d: Seq<char>, i: int)
    requires
        all_digits(d),
        0 <= i <= d.len(),
    ensures
        digits_value(d.take(i)) <= digits_value(d),
    decreases d.len() - i,
{
    if i < d.len() {
        lemma_digits_value_grows(d, i + 1);
        assert(d.take(i + 1).drop_last() =~= d.take(i));
        assert(is_digit(d[i]));
        lemma_digits_value_nonneg(d.take(i));
    } else {
        assert(d.take(i) =~= d);
    }
}

/// Reads `s` as `str::parse::<i32>` does.
pub fn parse_i32(s: &str) -> (r: Option<i32>)
    ensures
        r == spec_parse_i32(s@),
{
    let n = s.unicode_len();
    let ghost cs = s@;
    if n == 0 {
        return None;
    }
    let first = s.get_char(0);
    let negative = first == '-';
    let start: usize = if first == '-' || first == '+' { 1 } else { 0 };
    let ghost d = unsigned_part(cs);
    assert(d =~= cs.subrange(start as int, cs.len() as int));
    if start == n {
        return None;
    }
    // The magnitude may reach 2^31 for a negative number.
    let mut acc: i64 = 0;
    let mut i: usize = start;
    while i < n
        invariant
            cs == s@,
            n == cs.len(),
            start <= i <= n,
            d =~= cs.subrange(start as int, n as int),
            d == unsigned_part(cs),
            all_digits(d.take(i - start)),
            acc == digits_value(d.take(i - start)),
            0 <= acc <= 2147483648,
        decreases n - i,
    {
        let c = s.get_char(i);
        if !('0' <= c && c <= '9') {
            assert(!all_digits(d)) by {
                assert(d[i - start] == c);
            }
            return None;
        }
        let dv: i64 = (c as u32 - 48u32) as i64;
        assert(d.take(i + 1 - start).drop_last() =~= d.take(i - start));
        assert(d.take(i + 1 - start).last() == c);
        let next: i64 = acc * 10 + dv;
        assert(all_digits(d.take(i + 1 - start))) by {
            assert forall|k: int| 0 <= k < d.take(i + 1 - start).len() implies is_digit(
                #[trigger] d.take(i + 1 - start)[k],
            ) by {
                if k < i - start {
                    assert(d.take(i + 1 - start)[k] == d.take(i - start)[k]);
                }
            }
        }
        if next > 2147483648 {
            proof {
                // Every longer prefix is at least as large, so the value does not fit.
                let dd = d;
                if all_digits(dd) {
                    lemma_digits_value_grows(dd, i + 1 - start);
                }
            }
            return None;
        }
        acc = next;
        i = i + 1;
    }
    assert(d.take(n - start) =~= d);
    if negative {
        Some((-acc) as i32)
    } else if acc <= 2147483647 {
        Some(acc as i32)
    } else {
        None
    }
}


proof fn lemma_nat_digits(n: nat)
    ensures
        nat_digits(n).len() > 0,
        all_digits(nat_digits(n)),
        digits_value(nat_digits(n)) == n,
    decreases n,
{
    if n < 10 {
        assert(digit_value(nat_digits(n).last()) == n);
        assert(nat_digits(n).drop_last().len() == 0);
        assert(digits_value(nat_digits(n).drop_last()) == 0);
    } else {
        lemma_nat_digits(n / 10);
        let ds = nat_digits(n);
        assert(ds.drop_last() =~= nat_digits(n / 10));
        assert(digit_value(ds.last()) == n % 10);
        assert(10 * (n / 10) + n % 10 == n);
        assert forall|i: int| 0 <= i < ds.len() implies is_digit(#[trigger] ds[i]) by {
            if i < ds.len() - 1 {
                assert(ds[i] == nat_digits(n / 10)[i]);
            }
        }
    }
}

/// Reading back the decimal text of an `i32` gives that `i32`:
/// `str::parse::<i32>` undoes `i32::to_string`.
pub proof fn lemma_parse_i32_of_decimal(x: i32)
    ensures
        spec_parse_i32(int_decimal(x as int)) == Some(x),
{
    if x < 0 {
        let m: nat = (-(x as int)) as nat;
        lemma_nat_digits(m);
        let t = int_decimal(x as int);
        assert(t[0] == '-');
        assert(t.drop_first() =~= nat_digits(m));
    } else {
        lemma_nat_digits(x as nat);
        let t = int_decimal(x as int);
        assert(is_digit(t[0]));
    }
}

} // verus!
