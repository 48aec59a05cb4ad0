use vstd::prelude::*;

verus! {

/// Calls `String::push`. Claimed, as std documents it: the string afterwards
/// is the one before with `c` appended.
#[verifier::external_body]
pub(crate) fn push_char(s: &mut String, c: char)
    ensures
        final(s)@ == old(s)@.push(c),
{
    s.push(c);
}

// ---------------------------------------------------------------------------
// Decimal text of integers
// ---------------------------------------------------------------------------

/// The character of the decimal digit `d` (`d < 10`).
pub open spec fn digit_char(d: nat) -> char {
    (48 + d) as char
}

/// Whether `c` is one of the ASCII digits `0`..`9`.
pub open spec fn is_digit(c: char) -> bool {
    48 <= (c as u32) <= 57
}

/// The value of the ASCII digit `c`.
pub open spec fn digit_value(c: char) -> nat {
    ((c as u32) - 48) as nat
}

/// Decimal digits of `n`, most significant first, without leading zeros.
pub open spec fn nat_text(n: nat) -> Seq<char>
    decreases n,
{
    if n < 10 {
        seq![digit_char(n)]
    } else {
        nat_text(n / 10).push(digit_char(n % 10))
    }
}

/// Decimal text of `n`: a `-` before the digits of a negative number.
pub open spec fn int_text(n: int) -> Seq<char> {
    if n < 0 {
        seq!['-'] + nat_text((-n) as nat)
    } else {
        nat_text(n as nat)
    }
}

/// Every character of `s` is a digit.
pub open spec fn all_digits(s: Seq<char>) -> bool {
    forall|i: int| 0 <= i < s.len() ==> is_digit(#[trigger] s[i])
}

/// The number that a string of digits writes in base ten.
pub open spec fn digits_value(s: Seq<char>) -> nat
    decreases s.len(),
{
    if s.len() == 0 {
        0
    } else {
        digits_value(s.drop_last()) * 10 + digit_value(s.last())
    }
}

/// The integer that `s` writes: an optional `+` or `-`, then at least one
/// digit, and nothing else.
pub open spec fn decimal_value(s: Seq<char>) -> Option<int> {
    if s.len() > 0 && (s[0] == '-' || s[0] == '+') {
        let rest = s.drop_first();
        if rest.len() > 0 && all_digits(rest) {
            if s[0] == '-' {
                Some(-(digits_value(rest) as int))
            } else {
                Some(digits_value(rest) as int)
            }
        } else {
            None
        }
    } else if s.len() > 0 && all_digits(s) {
        Some(digits_value(s) as int)
    } else {
        None
    }
}

/// What reading `s` as an `i64` gives: its decimal value, where that is in range.
pub open spec fn i64_of_text(s: Seq<char>) -> Option<int> {
    match decimal_value(s) {
        Some(v) => if i64::MIN <= v <= i64::MAX {
            Some(v)
        } else {
            None
        },
        None => None,
    }
}

fn digit_to_char(d: u64) -> (c: char)
    requires
        d < 10,
    ensures
        c == digit_char(d as nat),
        is_digit(c),
        digit_value(c) == d,
{
    let b: u8 = 48u8 + (d as u8);
    b as char
}

pub(crate) fn push_nat_text(s: &mut String, n: u64)
    ensures
        final(s)@ == old(s)@ + nat_text(n as nat),
    decreases n,
{
    if n >= 10 {
        push_nat_text(s, n / 10);
    }
    let ghost before = s@;
    push_char(s, digit_to_char(n % 10));
    proof {
        if n >= 10 {
            assert(before == old(s)@ + nat_text((n / 10) as nat));
            assert(nat_text(n as nat) == nat_text((n / 10) as nat).push(digit_char((n % 10) as nat)));
            assert(s@ =~= old(s)@ + nat_text(n as nat));
        } else {
            assert(nat_text(n as nat) == seq![digit_char(n as nat)]);
            assert(s@ =~= old(s)@ + nat_text(n as nat));
        }
    }
}

/// Decimal text of an unsigned number (what `to_string` gives).
pub fn u64_text(n: u64) -> (s: String)
    ensures
        s@ == nat_text(n as nat),
{
    let mut s = String::new();
    push_nat_text(&mut s, n);
    assert(s@ =~= nat_text(n as nat));
    s
}

/// Decimal text of a signed number (what `to_string` gives).
pub fn i64_text(n: i64) -> (s: String)
    ensures
        s@ == int_text(n as int),
{
    let mut s = String::new();
    if n < 0 {
        push_char(&mut s, '-');
        let magnitude: u64 = (0i128 - (n as i128)) as u64;
        push_nat_text(&mut s, magnitude);
        assert(s@ =~= int_text(n as int));
    } else {
        push_nat_text(&mut s, n as u64);
        assert(s@ =~= int_text(n as int));
    }
    s
}

proof fn lemma_digits_value_push(s: Seq<char>, c: char)
    ensures
        digits_value(s.push(c)) == digits_value(s) * 10 + digit_value(c),
{
    assert(s.push(c).drop_last() =~= s);
}

proof fn lemma_all_digits_push(s: Seq<char>, c: char)
    requires
        all_digits(s),
        is_digit(c),
    ensures
        all_digits(s.push(c)),
{
    assert forall|i: int| 0 <= i < s.push(c).len() implies is_digit(#[trigger] s.push(c)[i]) by {
        if i < s.len() {
            assert(s.push(c)[i] == s[i]);
        }
    }
}

/// The digits of `n` are digits, there is at least one, and they read back as `n`.
pub proof fn lemma_nat_text_reads_back(n: nat)
    ensures
        nat_text(n).len() > 0,
        all_digits(nat_text(n)),
        digits_value(nat_text(n)) == n,
    decreases n,
{
    if n < 10 {
        let t = seq![digit_char(n)];
        assert(digit_value(digit_char(n)) == n);
        assert(t.drop_last() =~= Seq::<char>::empty());
        assert(digits_value(Seq::<char>::empty()) == 0);
        assert(digits_value(t) == n);
        assert(all_digits(t));
    } else {
        lemma_nat_text_reads_back(n / 10);
        lemma_digits_value_push(nat_text(n / 10), digit_char(n % 10));
        assert(digit_value(digit_char(n % 10)) == n % 10);
        assert(n == (n / 10) * 10 + n % 10);
        assert(nat_text(n) == nat_text(n / 10).push(digit_char(n % 10)));
        assert(digits_value(nat_text(n)) == n);
        lemma_all_digits_push(nat_text(n / 10), digit_char(n % 10));
    }
}

/// Reading the decimal text of any `i64` as an `i64` gives the number back.
pub proof fn lemma_i64_text_round_trip(n: int)
    requires
        i64::MIN <= n <= i64::MAX,
    ensures
        i64_of_text(int_text(n)) == Some(n),
{
    if n < 0 {
        let m = (-n) as nat;
        lemma_nat_text_reads_back(m);
        let t = seq!['-'] + nat_text(m);
        assert(t.drop_first() =~= nat_text(m));
        assert(t[0] == '-');
    } else {
        lemma_nat_text_reads_back(n as nat);
        let t = nat_text(n as nat);
        assert(is_digit(t[0]));
    }
}

proof fn lemma_digits_value_grows(s: Seq<char>, k: int)
    requires
        0 <= k <= s.len(),
    ensures
        digits_value(s.subrange(0, k)) <= digits_value(s),
    decreases s.len() - k,
{
    if k < s.len() {
        lemma_digits_value_grows(s, k + 1);
        lemma_digits_value_push(s.subrange(0, k), s[k]);
        assert(s.subrange(0, k).push(s[k]) =~= s.subrange(0, k + 1));
    } else {
        assert(s.subrange(0, k) =~= s);
    }
}

/// Once the digits read so far exceed every `u64`, no `i64` can be read.
proof fn lemma_too_many_digits(s: Seq<char>, start: int, end: int)
    requires
        0 <= start <= end <= s.len(),
        start == 0 || start == 1,
        start == 1 <==> (s.len() > 0 && (s[0] == '-' || s[0] == '+')),
        digits_value(s.subrange(start, end)) > u64::MAX,
    ensures
        i64_of_text(s) is None,
{
    let rest = s.subrange(start, s.len() as int);
    if decimal_value(s) is Some {
        assert(all_digits(rest)) by {
            if start == 1 {
                assert(rest =~= s.drop_first());
            } else {
                assert(rest =~= s);
            }
        }
        lemma_digits_value_grows(rest, end - start);
        assert(rest.subrange(0, end - start) =~= s.subrange(start, end));
        if start == 1 {
            assert(rest =~= s.drop_first());
        } else {
            assert(rest =~= s);
        }
    }
}

/// Reads a string as an `i64`, as `str::parse::<i64>` does: an optional sign,
/// then one or more decimal digits, within the range of `i64`.
pub fn parse_i64(s: &str) -> (r: Option<i64>)
    ensures
        r is Some <==> i64_of_text(s@) is Some,
        r matches Some(v) ==> i64_of_text(s@) == Some(v as int),
{
    let mut first = true;
    let mut negative = false;
    let mut signed = false;
    let mut has_digit = false;
    let mut magnitude: u64 = 0;
    let ghost mut start: int = 0;
    for c in it: s.chars()
        invariant
            it.seq() == s@,
            it.index() <= s@.len(),
            first <==> it.index() == 0,
            !first ==> (signed <==> (s@[0] == '-' || s@[0] == '+')),
            !first ==> (negative <==> s@[0] == '-'),
            first ==> !negative && !signed,
            start == (if signed { 1int } else { 0int }),
            start <= it.index(),
            has_digit <==> start < it.index(),
            all_digits(s@.subrange(start, it.index() as int)),
            magnitude == digits_value(s@.subrange(start, it.index() as int)),
    {
        let ghost i = it.index() as int;
        let ghost prev = s@.subrange(start, i);
        assert(s@[i] == c);
        if first && (c == '-' || c == '+') {
            signed = true;
            negative = c == '-';
            first = false;
            proof {
                assert(i == 0);
                assert(negative <==> s@[0] == '-');
                start = 1;
                assert(s@.subrange(1, 1) =~= Seq::<char>::empty());
            }
        } else {
            let code = c as u32;
            if code < 48 || code > 57 {
                proof {
                    if signed {
                        assert(s@.drop_first()[i - 1] == c);
                    } else {
                        assert(!all_digits(s@));
                    }
                }
                return None;
            }
            proof {
                if i == 0 {
                    assert(s@[0] != '-' && s@[0] != '+');
                }
            }
            first = false;
            has_digit = true;
            let d: u64 = (code - 48) as u64;
            proof {
                lemma_digits_value_push(prev, c);
                lemma_all_digits_push(prev, c);
                assert(prev.push(c) =~= s@.subrange(start, i + 1));
            }
            let m = magnitude.checked_mul(10);
            if m.is_none() {
                proof {
                    lemma_too_many_digits(s@, start, i + 1);
                }
                return None;
            }
            let next = m.unwrap().checked_add(d);
            if next.is_none() {
                proof {
                    lemma_too_many_digits(s@, start, i + 1);
                }
                return None;
            }
            magnitude = next.unwrap();
        }
    }
    proof {
        if signed {
            assert(s@.subrange(1, s@.len() as int) =~= s@.drop_first());
        } else {
            assert(s@.subrange(0, s@.len() as int) =~= s@);
        }
    }
    if !has_digit {
        return None;
    }
    if negative {
        if magnitude <= 9223372036854775808u64 {
            let v: i64 = (0i128 - (magnitude as i128)) as i64;
            Some(v)
        } else {
            None
        }
    } else if magnitude <= 9223372036854775807u64 {
        Some(magnitude as i64)
    } else {
        None
    }
}

} // verus!
