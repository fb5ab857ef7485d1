//! Text primitives: comparing a string with a literal, decimal rendering and
//! decimal parsing of 32-bit integers.
use vstd::prelude::*;

verus! {

/// Whether `s` holds exactly the characters of `lit`.
pub fn text_eq(s: &String, lit: &str) -> (b: bool)
    ensures
        b == (s@ == lit@),
{
    let l: String = lit.to_string();
    *s == l
}

/// The character of a decimal digit.
pub open spec fn digit_char(d: int) -> char {
    if d == 0 {
        '0'
    } else if d == 1 {
        '1'
    } else if d == 2 {
        '2'
    } else if d == 3 {
        '3'
    } else if d == 4 {
        '4'
    } else if d == 5 {
        '5'
    } else if d == 6 {
        '6'
    } else if d == 7 {
        '7'
    } else if d == 8 {
        '8'
    } else {
        '9'
    }
}

/// The value of a decimal digit character, or `None` for any other character.
pub open spec fn digit_value(c: char) -> Option<int> {
    if c == '0' {
        Some(0)
    } else if c == '1' {
        Some(1)
    } else if c == '2' {
        Some(2)
    } else if c == '3' {
        Some(3)
    } else if c == '4' {
        Some(4)
    } else if c == '5' {
        Some(5)
    } else if c == '6' {
        Some(6)
    } else if c == '7' {
        Some(7)
    } else if c == '8' {
        Some(8)
    } else if c == '9' {
        Some(9)
    } else {
        None
    }
}

/// The decimal digits of a natural number, most significant first, without
/// leading zeros.
pub open spec fn nat_digits(n: nat) -> Seq<char>
    decreases n,
{
    if n < 10 {
        seq![digit_char(n as int)]
    } else {
        nat_digits(n / 10).push(digit_char((n % 10) as int))
    }
}

/// The decimal rendering of an integer: a `-` sign for negative values, then
/// the digits of its magnitude.
pub open spec fn decimal(i: int) -> Seq<char> {
    if i < 0 {
        seq!['-'] + nat_digits((-i) as nat)
    } else {
        nat_digits(i as nat)
    }
}

/// Whether every character of `s` is a decimal digit.
pub open spec fn all_digits(s: Seq<char>) -> bool {
    forall|k: int| 0 <= k < s.len() ==> (#[trigger] digit_value(s[k])) is Some
}

/// The value of a sequence of decimal digits, most significant first.
pub open spec fn digits_value(s: Seq<char>) -> int
    decreases s.len(),
{
    if s.len() == 0 {
        0
    } else {
        digits_value(s.drop_last()) * 10 + digit_value(s.last()).unwrap()
    }
}

/// The value of the digits `d` under a sign, when it fits in an `i32`.
pub open spec fn signed_digits(d: Seq<char>, negative: bool) -> Option<int> {
    if d.len() > 0 && all_digits(d) {
        if negative && -digits_value(d) >= i32::MIN {
            Some(-digits_value(d))
        } else if !negative && digits_value(d) <= i32::MAX {
            Some(digits_value(d))
        } else {
            None
        }
    } else {
        None
    }
}

/// What reading `s` as a 32-bit signed decimal integer gives: an optional
/// sign (`+` or `-`) followed by one or more decimal digits, whose value lies
/// in the range of `i32`; `None` for any other text.
pub open spec fn parse_i32_spec(s: Seq<char>) -> Option<int> {
    if s.len() > 0 && s[0] == '-' {
        let d = s.drop_first();
        if d.len() > 0 && all_digits(d) && -digits_value(d) >= i32::MIN {
            Some(-digits_value(d))
        } else {
            None
        }
    } else {
        let d = if s.len() > 0 && s[0] == '+' {
            s.drop_first()
        } else {
            s
        };
        if d.len() > 0 && all_digits(d) && digits_value(d) <= i32::MAX {
            Some(digits_value(d))
        } else {
            None
        }
    }
}

fn digit_str(d: u64) -> (r: &'static str)
    requires
        d < 10,
    ensures
        r@ == seq![digit_char(d as int)],
{
    if d == 0 {
        proof { reveal_strlit("0"); }
        "0"
    } else if d == 1 {
        proof { reveal_strlit("1"); }
        "1"
    } else if d == 2 {
        proof { reveal_strlit("2"); }
        "2"
    } else if d == 3 {
        proof { reveal_strlit("3"); }
        "3"
    } else if d == 4 {
        proof { reveal_strlit("4"); }
        "4"
    } else if d == 5 {
        proof { reveal_strlit("5"); }
        "5"
    } else if d == 6 {
        proof { reveal_strlit("6"); }
        "6"
    } else if d == 7 {
        proof { reveal_strlit("7"); }
        "7"
    } else if d == 8 {
        proof { reveal_strlit("8"); }
        "8"
    } else {
        proof { reveal_strlit("9"); }
        "9"
    }
}

fn push_nat(out: &mut String, n: u64)
    ensures
        final(out)@ == old(out)@ + nat_digits(n as nat),
    decreases n,
{
    if n >= 10 {
        push_nat(out, n / 10);
    }
    out.append(digit_str(n % 10));
    proof {
        assert(old(out)@ + nat_digits(n as nat) =~= if n >= 10 {
            old(out)@ + nat_digits((n / 10) as nat) + seq![digit_char((n % 10) as int)]
        } else {
            old(out)@ + seq![digit_char((n % 10) as int)]
        });
    }
}

/// Appends the decimal rendering of `i` to `out`.
pub fn push_decimal(out: &mut String, i: i32)
    ensures
        final(out)@ == old(out)@ + decimal(i as int),
{
    if i < 0 {
        proof { reveal_strlit("-"); }
        out.append("-");
        let m: i64 = -(i as i64);
        push_nat(out, m as u64);
        proof {
            assert(old(out)@ + decimal(i as int) =~= old(out)@ + seq!['-'] + nat_digits(m as nat));
        }
    } else {
        push_nat(out, i as u64);
    }
}

fn char_digit(c: char) -> (r: Option<u64>)
    ensures
        r matches Some(d) ==> digit_value(c) == Some(d as int) && d < 10,
        r is None ==> digit_value(c) is None,
{
    if c == '0' {
        Some(0)
    } else if c == '1' {
        Some(1)
    } else if c == '2' {
        Some(2)
    } else if c == '3' {
        Some(3)
    } else if c == '4' {
        Some(4)
    } else if c == '5' {
        Some(5)
    } else if c == '6' {
        Some(6)
    } else if c == '7' {
        Some(7)
    } else if c == '8' {
        Some(8)
    } else if c == '9' {
        Some(9)
    } else {
        None
    }
}

proof fn lemma_digits_value_nonneg(s: Seq<char>)
    requires
        all_digits(s),
    ensures
        digits_value(s) >= 0,
    decreases s.len(),
{
    if s.len() > 0 {
        assert(digit_value(s[s.len() - 1]) is Some);
        assert(all_digits(s.drop_last())) by {
            assert forall|k: int| 0 <= k < s.drop_last().len() implies (#[trigger] digit_value(
                s.drop_last()[k],
            )) is Some by {
                assert(s.drop_last()[k] == s[k]);
            }
        }
        lemma_digits_value_nonneg(s.drop_last());
    }
}

/// Reads `s` as a 32-bit signed decimal integer, as `i32::from_str` does.
pub fn parse_i32(s: &str) -> (r: Option<i32>)
    ensures
        r matches Some(v) ==> parse_i32_spec(s@) == Some(v as int),
        r is None ==> parse_i32_spec(s@) is None,
{
    let n = s.unicode_len();
    let mut start: usize = 0;
    let mut negative = false;
    if n > 0 {
        let c = s.get_char(0);
        if c == '-' {
            negative = true;
            start = 1;
        } else if c == '+' {
            start = 1;
        }
    }
    let ghost d = s@.subrange(start as int, n as int);
    proof {
        assert(start == 1 ==> d =~= s@.drop_first());
        assert(start == 0 ==> d =~= s@);
        assert(parse_i32_spec(s@) == signed_digits(d, negative));
    }
    if start >= n {
        return None;
    }
    // The magnitude is accumulated up to 2^31, the largest one that may fit.
    let mut value: u64 = 0;
    let mut i: usize = start;
    while i < n
        invariant
            start <= i <= n,
            n == s@.len(),
            d == s@.subrange(start as int, n as int),
            all_digits(s@.subrange(start as int, i as int)),
            value == digits_value(s@.subrange(start as int, i as int)),
            value <= 2147483648,
            parse_i32_spec(s@) == signed_digits(d, negative),
        decreases n - i,
    {
        let c = s.get_char(i);
        let ghost pre = s@.subrange(start as int, i as int);
        let ghost next = s@.subrange(start as int, i + 1);
        proof {
            assert(next.drop_last() =~= pre);
            assert(next.last() == c);
        }
        match char_digit(c) {
            None => {
                proof {
                    assert(!all_digits(d)) by {
                        assert(d[i - start] == c);
                    }
                }
                return None;
            },
            Some(dv) => {
                let nv = value * 10 + dv;
                proof {
                    assert forall|k: int| 0 <= k < next.len() implies (#[trigger] digit_value(
                        next[k],
                    )) is Some by {
                        if k < pre.len() {
                            assert(next[k] == pre[k]);
                        }
                    }
                }
                if nv > 2147483648 {
                    proof {
                        lemma_prefix_value_bound(d, (i + 1 - start) as int);
                        assert(d.subrange(0, (i + 1 - start) as int) =~= next);
                    }
                    return None;
                }
                value = nv;
            },
        }
        i = i + 1;
    }
    proof {
        assert(s@.subrange(start as int, n as int) =~= d);
    }
    if negative {
        Some((-(value as i64)) as i32)
    } else if value <= 2147483647 {
        Some(value as i32)
    } else {
        None
    }
}

/// The value of a digit sequence is at least the value of any of its
/// non-empty prefixes.
proof fn lemma_prefix_value_bound(d: Seq<char>, k: int)
    requires
        0 < k <= d.len(),
        all_digits(d.subrange(0, k)),
    ensures
        all_digits(d) ==> digits_value(d) >= digits_value(d.subrange(0, k)),
    decreases d.len() - k,
{
    if all_digits(d) && k < d.len() {
        let e = d.subrange(0, k + 1);
        assert(e.drop_last() =~= d.subrange(0, k));
        assert(digit_value(d[k]) is Some);
        assert(all_digits(e)) by {
            assert forall|j: int| 0 <= j < e.len() implies (#[trigger] digit_value(e[j])) is Some by {
                assert(e[j] == d[j]);
            }
        }
        lemma_digits_value_nonneg(d.subrange(0, k));
        lemma_prefix_value_bound(d, k + 1);
    } else if all_digits(d) {
        assert(d.subrange(0, k) =~= d);
    }
}

proof fn lemma_nat_digits(n: nat)
    ensures
        all_digits(nat_digits(n)),
        nat_digits(n).len() > 0,
        digits_value(nat_digits(n)) == n,
    decreases n,
{
    let s = nat_digits(n);
    if n < 10 {
        assert(s.drop_last() =~= Seq::<char>::empty());
        assert(digits_value(s.drop_last()) == 0);
        assert(s.last() == digit_char(n as int));
        assert(digit_value(digit_char(n as int)) == Some(n as int));
    } else {
        lemma_nat_digits(n / 10);
        let d = (n % 10) as int;
        assert(digit_value(digit_char(d)) == Some(d));
        assert(s.drop_last() =~= nat_digits(n / 10));
        assert forall|k: int| 0 <= k < s.len() implies (#[trigger] digit_value(s[k])) is Some by {
            if k < s.len() - 1 {
                assert(s[k] == nat_digits(n / 10)[k]);
            }
        }
        assert(n == (n / 10) * 10 + n % 10);
        assert(s.last() == digit_char(d));
        assert(digits_value(s) == digits_value(nat_digits(n / 10)) * 10 + d);
    }
}

/// Rendering a 32-bit integer in decimal and reading the text back gives the
/// integer again.
pub proof fn lemma_decimal_roundtrip(i: i32)
    ensures
        parse_i32_spec(decimal(i as int)) == Some(i as int),
{
    if i < 0 {
        let m = (-i) as nat;
        lemma_nat_digits(m);
        let s = decimal(i as int);
        assert(s.drop_first() =~= nat_digits(m));
    } else {
        lemma_nat_digits(i as nat);
        let s = nat_digits(i as nat);
        assert(digit_value(s[0]) is Some);
    }
}

} // verus!
