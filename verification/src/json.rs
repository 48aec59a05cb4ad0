use vstd::prelude::*;
use crate::text::{all_digits, digits_value, is_digit, lemma_nat_text_reads_back, nat_text, push_char};

verus! {

/// The lower-case hexadecimal digit of `d` (`d < 16`).
pub open spec fn hex_digit(d: nat) -> char {
    if d < 10 {
        (48 + d) as char
    } else {
        (87 + d) as char
    }
}

/// How one character is written inside a JSON string: `"` and `\` and the
/// control characters below U+0020 are escaped (the short forms `\b`, `\t`,
/// `\n`, `\f`, `\r` where they exist, `\u00XX` otherwise); every other
/// character stands for itself.
pub open spec fn escape_char(c: char) -> Seq<char> {
    let u = c as u32;
    if c == '"' {
        seq!['\\', '"']
    } else if c == '\\' {
        seq!['\\', '\\']
    } else if u == 8 {
        seq!['\\', 'b']
    } else if u == 9 {
        seq!['\\', 't']
    } else if u == 10 {
        seq!['\\', 'n']
    } else if u == 12 {
        seq!['\\', 'f']
    } else if u == 13 {
        seq!['\\', 'r']
    } else if u < 32 {
        seq!['\\', 'u', '0', '0', hex_digit((u / 16) as nat), hex_digit((u % 16) as nat)]
    } else {
        seq![c]
    }
}

/// The escaped form of a whole string, character by character.
pub open spec fn escape_text(s: Seq<char>) -> Seq<char>
    decreases s.len(),
{
    if s.len() == 0 {
        Seq::empty()
    } else {
        escape_text(s.drop_last()) + escape_char(s.last())
    }
}

/// A JSON string literal holding `s`, as `serde_json` writes it.
pub open spec fn json_string(s: Seq<char>) -> Seq<char> {
    seq!['"'] + escape_text(s) + seq!['"']
}

fn hex_char(d: u32) -> (c: char)
    requires
        d < 16,
    ensures
        c == hex_digit(d as nat),
{
    if d < 10 {
        let b: u8 = 48u8 + (d as u8);
        b as char
    } else {
        let b: u8 = 87u8 + (d as u8);
        b as char
    }
}

fn push_escaped_char(out: &mut String, c: char)
    ensures
        final(out)@ == old(out)@ + escape_char(c),
{
    let u = c as u32;
    if c == '"' {
        push_char(out, '\\');
        push_char(out, '"');
    } else if c == '\\' {
        push_char(out, '\\');
        push_char(out, '\\');
    } else if u == 8 {
        push_char(out, '\\');
        push_char(out, 'b');
    } else if u == 9 {
        push_char(out, '\\');
        push_char(out, 't');
    } else if u == 10 {
        push_char(out, '\\');
        push_char(out, 'n');
    } else if u == 12 {
        push_char(out, '\\');
        push_char(out, 'f');
    } else if u == 13 {
        push_char(out, '\\');
        push_char(out, 'r');
    } else if u < 32 {
        push_char(out, '\\');
        push_char(out, 'u');
        push_char(out, '0');
        push_char(out, '0');
        push_char(out, hex_char(u / 16));
        push_char(out, hex_char(u % 16));
    } else {
        push_char(out, c);
    }
    assert(out@ =~= old(out)@ + escape_char(c));
}

/// Appends `s` to `out` as a JSON string literal.
pub fn push_json_string(out: &mut String, s: &str)
    ensures
        final(out)@ == old(out)@ + json_string(s@),
{
    push_char(out, '"');
    let ghost base = out@;
    for c in it: s.chars()
        invariant
            it.seq() == s@,
            it.index() <= s@.len(),
            out@ == base + escape_text(s@.subrange(0, it.index() as int)),
    {
        let ghost i = it.index() as int;
        assert(s@[i] == c);
        push_escaped_char(out, c);
        proof {
            let next = s@.subrange(0, i + 1);
            assert(next.drop_last() =~= s@.subrange(0, i));
            assert(out@ =~= base + escape_text(next));
        }
    }
    assert(s@.subrange(0, s@.len() as int) =~= s@);
    push_char(out, '"');
    assert(out@ =~= old(out)@ + json_string(s@));
}

// ---------------------------------------------------------------------------
// Reading an escaped string back
// ---------------------------------------------------------------------------

/// The value of a hexadecimal digit (either case of letter, as JSON allows).
pub open spec fn hex_value(c: char) -> int {
    let u = c as u32;
    if u <= 57 {
        u - 48
    } else if u <= 70 {
        u - 55
    } else {
        u - 87
    }
}

/// The character that a two-character escape `\e` stands for.
pub open spec fn short_escape(e: char) -> Option<char> {
    if e == '"' {
        Some('"')
    } else if e == '\\' {
        Some('\\')
    } else if e == 'b' {
        Some(8u32 as char)
    } else if e == 't' {
        Some(9u32 as char)
    } else if e == 'n' {
        Some(10u32 as char)
    } else if e == 'f' {
        Some(12u32 as char)
    } else if e == 'r' {
        Some(13u32 as char)
    } else {
        None
    }
}

pub open spec fn prepend(c: char, r: Option<(Seq<char>, Seq<char>)>) -> Option<
    (Seq<char>, Seq<char>),
> {
    match r {
        Some((s, rest)) => Some((seq![c] + s, rest)),
        None => None,
    }
}

/// Reads the inside of a JSON string literal up to its closing quote: the
/// characters it stands for and what follows the quote. Of the `\u` escapes
/// only those of the form `\u00XX` are read.
pub open spec fn read_string_body(t: Seq<char>) -> Option<(Seq<char>, Seq<char>)>
    decreases t.len(),
{
    if t.len() == 0 {
        None
    } else if t[0] == '"' {
        Some((Seq::empty(), t.drop_first()))
    } else if t[0] == '\\' {
        if t.len() >= 6 && t[1] == 'u' && t[2] == '0' && t[3] == '0' {
            prepend(
                (hex_value(t[4]) * 16 + hex_value(t[5])) as char,
                read_string_body(t.skip(6)),
            )
        } else if t.len() >= 2 && short_escape(t[1]) is Some {
            prepend(short_escape(t[1])->0, read_string_body(t.skip(2)))
        } else {
            None
        }
    } else {
        prepend(t[0], read_string_body(t.drop_first()))
    }
}

proof fn lemma_hex_digit_value(d: nat)
    requires
        d < 16,
    ensures
        hex_value(hex_digit(d)) == d,
{
}

proof fn lemma_read_escaped_char(c: char, t: Seq<char>)
    ensures
        read_string_body(escape_char(c) + t) == prepend(c, read_string_body(t)),
{
    let e = escape_char(c);
    let w = e + t;
    let u = c as u32;
    assert(w.len() > 0);
    if e.len() == 2 {
        assert(w.skip(2) =~= t);
        assert(w[0] == '\\');
        assert(short_escape(w[1]) == Some(c)) by {
            if u == 8 {
                assert(c == 8u32 as char);
            } else if u == 9 {
                assert(c == 9u32 as char);
            } else if u == 10 {
                assert(c == 10u32 as char);
            } else if u == 12 {
                assert(c == 12u32 as char);
            } else if u == 13 {
                assert(c == 13u32 as char);
            }
        }
    } else if e.len() == 6 {
        assert(w.skip(6) =~= t);
        lemma_hex_digit_value((u / 16) as nat);
        lemma_hex_digit_value((u % 16) as nat);
        assert(hex_value(w[4]) * 16 + hex_value(w[5]) == u);
        assert((u as char) == c);
    } else {
        assert(w.drop_first() =~= t);
    }
}

/// Escaping a concatenation escapes each part.
proof fn lemma_escape_text_concat(a: Seq<char>, b: Seq<char>)
    ensures
        escape_text(a + b) == escape_text(a) + escape_text(b),
    decreases b.len(),
{
    if b.len() == 0 {
        assert(a + b =~= a);
        assert(escape_text(a) + escape_text(b) =~= escape_text(a));
    } else {
        lemma_escape_text_concat(a, b.drop_last());
        assert((a + b).drop_last() =~= a + b.drop_last());
        assert((a + b).last() == b.last());
        assert(escape_text(a + b) =~= escape_text(a) + escape_text(b));
    }
}

/// Reading an escaped string followed by a closing quote gives the string
/// back, and what follows the quote.
pub proof fn lemma_read_escaped(s: Seq<char>, rest: Seq<char>)
    ensures
        read_string_body(escape_text(s) + seq!['"'] + rest) == Some((s, rest)),
    decreases s.len(),
{
    if s.len() == 0 {
        let w = escape_text(s) + seq!['"'] + rest;
        assert(w =~= seq!['"'] + rest);
        assert(w.drop_first() =~= rest);
    } else {
        let c = s[0];
        let tail = s.drop_first();
        assert(s =~= seq![c] + tail);
        lemma_escape_text_concat(seq![c], tail);
        assert(seq![c].drop_last() =~= Seq::<char>::empty());
        assert(escape_text(Seq::<char>::empty()) == Seq::<char>::empty());
        assert(seq![c].last() == c);
        assert(escape_text(seq![c]) =~= escape_char(c));
        lemma_read_escaped(tail, rest);
        let inner = escape_text(tail) + seq!['"'] + rest;
        assert(escape_text(s) + seq!['"'] + rest =~= escape_char(c) + inner);
        lemma_read_escaped_char(c, inner);
        assert(seq![c] + tail =~= s);
    }
}

/// A JSON string literal after a known prefix determines both the string and
/// what follows it.
pub proof fn lemma_json_string_after(
    lead: Seq<char>,
    s1: Seq<char>,
    rest1: Seq<char>,
    s2: Seq<char>,
    rest2: Seq<char>,
)
    requires
        lead + json_string(s1) + rest1 == lead + json_string(s2) + rest2,
    ensures
        s1 == s2,
        rest1 == rest2,
{
    let k: int = lead.len() as int + 1;
    let w1 = lead + json_string(s1) + rest1;
    let w2 = lead + json_string(s2) + rest2;
    assert(w1.skip(k) =~= escape_text(s1) + seq!['"'] + rest1);
    assert(w2.skip(k) =~= escape_text(s2) + seq!['"'] + rest2);
    lemma_read_escaped(s1, rest1);
    lemma_read_escaped(s2, rest2);
}

// ---------------------------------------------------------------------------
// Reading a flat JSON object of string and number members
// ---------------------------------------------------------------------------

/// The length of the run of digits that `t` starts with.
pub open spec fn digit_run(t: Seq<char>) -> nat
    decreases t.len(),
{
    if t.len() > 0 && is_digit(t[0]) {
        1 + digit_run(t.drop_first())
    } else {
        0
    }
}

/// A member value as read: `(true, s, 0)` for the string `s`, `(false, [], n)`
/// for the number `n`.
pub type JsonValue = (bool, Seq<char>, nat);

/// Reads one member value (a string literal or a run of digits) at the start
/// of `t`, and what follows it.
pub open spec fn read_value(t: Seq<char>) -> Option<(JsonValue, Seq<char>)> {
    if t.len() > 0 && t[0] == '"' {
        match read_string_body(t.drop_first()) {
            Some((s, rest)) => Some(((true, s, 0nat), rest)),
            None => None,
        }
    } else {
        let n = digit_run(t);
        if n == 0 {
            None
        } else {
            Some(((false, Seq::empty(), digits_value(t.take(n as int))), t.skip(n as int)))
        }
    }
}

/// What follows a string literal is shorter than the text it was read from.
pub proof fn lemma_read_string_body_shorter(t: Seq<char>)
    ensures
        read_string_body(t) matches Some((s, r)) ==> r.len() < t.len(),
    decreases t.len(),
{
    if t.len() > 0 && t[0] != '"' {
        if t[0] == '\\' {
            if t.len() >= 6 && t[1] == 'u' && t[2] == '0' && t[3] == '0' {
                lemma_read_string_body_shorter(t.skip(6));
            } else if t.len() >= 2 && short_escape(t[1]) is Some {
                lemma_read_string_body_shorter(t.skip(2));
            }
        } else {
            lemma_read_string_body_shorter(t.drop_first());
        }
    }
}

/// A run of digits is no longer than the text.
pub proof fn lemma_digit_run_bounded(t: Seq<char>)
    ensures
        digit_run(t) <= t.len(),
    decreases t.len(),
{
    if t.len() > 0 && is_digit(t[0]) {
        lemma_digit_run_bounded(t.drop_first());
    }
}

/// What follows a member value is shorter than the text it was read from.
pub proof fn lemma_read_value_shorter(t: Seq<char>)
    ensures
        read_value(t) matches Some((v, r)) ==> r.len() < t.len(),
{
    if t.len() > 0 && t[0] == '"' {
        lemma_read_string_body_shorter(t.drop_first());
    } else {
        lemma_digit_run_bounded(t);
    }
}

/// Reads the members of a JSON object after its opening brace: one or more
/// `"key":value` separated by commas, then the closing brace and nothing
/// more; without white space.
pub open spec fn read_members(t: Seq<char>) -> Option<Seq<(Seq<char>, JsonValue)>>
    decreases t.len(),
{
    if t.len() > 0 && t[0] == '"' {
        match read_string_body(t.drop_first()) {
            Some((k, r1)) => if r1.len() > 0 && r1[0] == ':' {
                match read_value(r1.drop_first()) {
                    Some((v, r3)) => if r3 == seq!['}'] {
                        Some(seq![(k, v)])
                    } else if r3.len() > 0 && r3[0] == ',' {
                        proof {
                            lemma_read_string_body_shorter(t.drop_first());
                            lemma_read_value_shorter(r1.drop_first());
                        }
                        match read_members(r3.drop_first()) {
                            Some(ms) => Some(seq![(k, v)] + ms),
                            None => None,
                        }
                    } else {
                        None
                    },
                    None => None,
                }
            } else {
                None
            },
            None => None,
        }
    } else {
        None
    }
}

/// Reads a JSON object whose members are strings and numbers.
pub open spec fn read_object(t: Seq<char>) -> Option<Seq<(Seq<char>, JsonValue)>> {
    if t.len() > 0 && t[0] == '{' {
        read_members(t.drop_first())
    } else {
        None
    }
}

/// The value of the first member named `key`.
pub open spec fn member_lookup(ms: Seq<(Seq<char>, JsonValue)>, key: Seq<char>) -> Option<JsonValue>
    decreases ms.len(),
{
    if ms.len() == 0 {
        None
    } else if ms[0].0 == key {
        Some(ms[0].1)
    } else {
        member_lookup(ms.drop_first(), key)
    }
}

/// The string that the member `key` of the JSON object `t` holds.
pub open spec fn json_string_member(t: Seq<char>, key: Seq<char>) -> Option<Seq<char>> {
    match read_object(t) {
        Some(ms) => match member_lookup(ms, key) {
            Some(v) => if v.0 {
                Some(v.1)
            } else {
                None
            },
            None => None,
        },
        None => None,
    }
}

/// The number that the member `key` of the JSON object `t` holds.
pub open spec fn json_number_member(t: Seq<char>, key: Seq<char>) -> Option<nat> {
    match read_object(t) {
        Some(ms) => match member_lookup(ms, key) {
            Some(v) => if v.0 {
                None
            } else {
                Some(v.2)
            },
            None => None,
        },
        None => None,
    }
}

/// A string literal reads back as its string.
pub proof fn lemma_read_string_value(s: Seq<char>, after: Seq<char>)
    ensures
        read_value(json_string(s) + after) == Some(((true, s, 0nat), after)),
{
    let t = json_string(s) + after;
    assert(t.drop_first() =~= escape_text(s) + seq!['"'] + after);
    lemma_read_escaped(s, after);
}

proof fn lemma_digit_run_of_digits(d: Seq<char>, after: Seq<char>)
    requires
        all_digits(d),
        after.len() == 0 || !is_digit(after[0]),
    ensures
        digit_run(d + after) == d.len(),
    decreases d.len(),
{
    if d.len() == 0 {
        assert(d + after =~= after);
    } else {
        assert((d + after).drop_first() =~= d.drop_first() + after);
        assert(is_digit(d[0]));
        lemma_digit_run_of_digits(d.drop_first(), after);
    }
}

/// The decimal digits of a number, before a character that is no digit, read
/// back as the number.
pub proof fn lemma_read_number_value(n: nat, after: Seq<char>)
    requires
        after.len() > 0,
        !is_digit(after[0]),
    ensures
        read_value(nat_text(n) + after) == Some(((false, Seq::<char>::empty(), n), after)),
{
    let d = nat_text(n);
    let t = d + after;
    lemma_nat_text_reads_back(n);
    lemma_digit_run_of_digits(d, after);
    assert(is_digit(t[0]));
    assert(t.take(d.len() as int) =~= d);
    assert(t.skip(d.len() as int) =~= after);
}

/// Reading a member `"key":value` followed by the closing brace.
pub proof fn lemma_read_last_member(k: Seq<char>, value: Seq<char>, v: JsonValue)
    requires
        read_value(value + seq!['}']) == Some((v, seq!['}'])),
    ensures
        read_members(json_string(k) + seq![':'] + value + seq!['}']) == Some(seq![(k, v)]),
{
    let t = json_string(k) + seq![':'] + value + seq!['}'];
    let r1 = seq![':'] + value + seq!['}'];
    assert(t.drop_first() =~= escape_text(k) + seq!['"'] + r1);
    lemma_read_escaped(k, r1);
    assert(r1.drop_first() =~= value + seq!['}']);
}

/// Reading a member `"key":value` followed by a comma and more members.
pub proof fn lemma_read_member_then(k: Seq<char>, value: Seq<char>, v: JsonValue, more: Seq<char>)
    requires
        read_value(value + (seq![','] + more)) == Some((v, seq![','] + more)),
    ensures
        read_members(json_string(k) + seq![':'] + value + seq![','] + more) == match read_members(
            more,
        ) {
            Some(ms) => Some(seq![(k, v)] + ms),
            None => None,
        },
{
    let t = json_string(k) + seq![':'] + value + seq![','] + more;
    let r1 = seq![':'] + value + (seq![','] + more);
    assert(t.drop_first() =~= escape_text(k) + seq!['"'] + r1);
    lemma_read_escaped(k, r1);
    assert(r1.drop_first() =~= value + (seq![','] + more));
    let r3 = seq![','] + more;
    assert(r3 != seq!['}']) by {
        if r3 == seq!['}'] {
            assert(r3[0] == '}');
        }
    }
    assert(r3.drop_first() =~= more);
}

} // verus!
