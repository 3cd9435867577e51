//! Plain-text helpers: decimal rendering of integers, prefix tests, and
//! escaping of string content for the JSON wire format.

use vstd::prelude::*;

verus! {

/// The character for one decimal digit value.
pub open spec fn dec_char(d: int) -> char {
    if d == 0 {
        '0'
    } else if d == 1 {
        '1'
    } else if d == 2 {
        '2'
    } else if d == 3 {
        '3'
    } else if d == 4 {
        '4'
    } else if d == 5 {
        '5'
    } else if d == 6 {
        '6'
    } else if d == 7 {
        '7'
    } else if d == 8 {
        '8'
    } else {
        '9'
    }
}

/// The decimal representation of a natural number, most significant digit
/// first, with no leading zeros (a single `'0'` for zero).
pub open spec fn dec_rep(n: nat) -> Seq<char>
    decreases n,
{
    if n < 10 {
        seq![dec_char(n as int)]
    } else {
        dec_rep(n / 10).push(dec_char((n % 10) as int))
    }
}

pub proof fn lemma_dec_rep_len(n: nat)
    ensures
        dec_rep(n).len() >= 1,
    decreases n,
{
    if n >= 10 {
        lemma_dec_rep_len(n / 10);
    }
}

/// Every character of a decimal representation is one of the ten digits.
pub proof fn lemma_dec_rep_digits(n: nat)
    ensures
        forall|i: int|
            0 <= i < dec_rep(n).len() ==> '0' <= #[trigger] dec_rep(n)[i] && dec_rep(n)[i] <= '9',
    decreases n,
{
    if n < 10 {
        assert(dec_rep(n) == seq![dec_char(n as int)]);
        assert(dec_rep(n)[0] == dec_char(n as int));
    } else {
        lemma_dec_rep_digits(n / 10);
        assert(dec_rep(n) == dec_rep(n / 10).push(dec_char((n % 10) as int)));
        assert forall|i: int|
            0 <= i < dec_rep(n).len() implies '0' <= #[trigger] dec_rep(n)[i] && dec_rep(n)[i]
            <= '9' by {
            if i < dec_rep(n).len() - 1 {
                assert(dec_rep(n)[i] == dec_rep(n / 10)[i]);
            } else {
                assert(dec_rep(n)[i] == dec_char((n % 10) as int));
            }
        }
    }
}

/// Distinct numbers have distinct decimal representations.
pub proof fn lemma_dec_rep_injective(a: nat, b: nat)
    requires
        dec_rep(a) == dec_rep(b),
    ensures
        a == b,
    decreases a + b,
{
    lemma_dec_rep_len(a);
    lemma_dec_rep_len(b);
    if a < 10 && b < 10 {
        assert(dec_rep(a) == seq![dec_char(a as int)]);
        assert(dec_rep(b) == seq![dec_char(b as int)]);
        assert(dec_rep(a)[0] == dec_char(a as int));
        assert(dec_rep(b)[0] == dec_char(b as int));
        assert(dec_char(a as int) == dec_char(b as int));
    } else if a < 10 && b >= 10 {
        lemma_dec_rep_len(b / 10);
        assert(dec_rep(a).len() == 1);
        assert(dec_rep(b) == dec_rep(b / 10).push(dec_char((b % 10) as int)));
        assert(dec_rep(b).len() >= 2);
        assert(false);
    } else if a >= 10 && b < 10 {
        lemma_dec_rep_len(a / 10);
        assert(dec_rep(b).len() == 1);
        assert(dec_rep(a) == dec_rep(a / 10).push(dec_char((a % 10) as int)));
        assert(dec_rep(a).len() >= 2);
        assert(false);
    } else {
        assert(dec_rep(a) == dec_rep(a / 10).push(dec_char((a % 10) as int)));
        assert(dec_rep(b) == dec_rep(b / 10).push(dec_char((b % 10) as int)));
        assert(dec_rep(a).last() == dec_char((a % 10) as int));
        assert(dec_rep(b).last() == dec_char((b % 10) as int));
        assert(dec_char((a % 10) as int) == dec_char((b % 10) as int));
        assert(a % 10 == b % 10);
        assert(dec_rep(a).drop_last() =~= dec_rep(a / 10));
        assert(dec_rep(b).drop_last() =~= dec_rep(b / 10));
        lemma_dec_rep_injective(a / 10, b / 10);
        vstd::arithmetic::div_mod::lemma_fundamental_div_mod(a as int, 10);
        vstd::arithmetic::div_mod::lemma_fundamental_div_mod(b as int, 10);
    }
}

/// One decimal digit as a string slice.
fn digit_str(d: u64) -> (r: &'static str)
    requires
        d < 10,
    ensures
        r@ =~= seq![dec_char(d as int)],
{
    proof {
        reveal_strlit("0");
        reveal_strlit("1");
        reveal_strlit("2");
        reveal_strlit("3");
        reveal_strlit("4");
        reveal_strlit("5");
        reveal_strlit("6");
        reveal_strlit("7");
        reveal_strlit("8");
        reveal_strlit("9");
    }
    match d {
        0 => "0",
        1 => "1",
        2 => "2",
        3 => "3",
        4 => "4",
        5 => "5",
        6 => "6",
        7 => "7",
        8 => "8",
        _ => "9",
    }
}

/// Renders a number in decimal, matching `dec_rep`.
pub fn u64_to_string(n: u64) -> (r: String)
    ensures
        r@ == dec_rep(n as nat),
    decreases n,
{
    if n < 10 {
        let mut r = String::new();
        r.append(digit_str(n));
        assert(r@ =~= dec_rep(n as nat));
        r
    } else {
        let mut r = u64_to_string(n / 10);
        r.append(digit_str(n % 10));
        assert(r@ =~= dec_rep(n as nat));
        r
    }
}

/// The lowercase hex character for a value below 16.
pub open spec fn hex_char(d: int) -> char {
    if d == 0 {
        '0'
    } else if d == 1 {
        '1'
    } else if d == 2 {
        '2'
    } else if d == 3 {
        '3'
    } else if d == 4 {
        '4'
    } else if d == 5 {
        '5'
    } else if d == 6 {
        '6'
    } else if d == 7 {
        '7'
    } else if d == 8 {
        '8'
    } else if d == 9 {
        '9'
    } else if d == 10 {
        'a'
    } else if d == 11 {
        'b'
    } else if d == 12 {
        'c'
    } else if d == 13 {
        'd'
    } else if d == 14 {
        'e'
    } else {
        'f'
    }
}

/// How one character is written inside a JSON string literal: quote and
/// backslash escaped, the five short control escapes, other control
/// characters as `\u00XX`, everything else verbatim.
pub open spec fn escape_char(c: char) -> Seq<char> {
    if c == '"' {
        seq!['\\', '"']
    } else if c == '\\' {
        seq!['\\', '\\']
    } else if c == '\u{8}' {
        seq!['\\', 'b']
    } else if c == '\t' {
        seq!['\\', 't']
    } else if c == '\n' {
        seq!['\\', 'n']
    } else if c == '\u{c}' {
        seq!['\\', 'f']
    } else if c == '\r' {
        seq!['\\', 'r']
    } else if (c as u32) < 0x20 {
        seq!['\\', 'u', '0', '0', hex_char((c as u32 / 16) as int), hex_char((c as u32 % 16) as int)]
    } else {
        seq![c]
    }
}

/// The body of a JSON string literal holding exactly the characters of `s`.
pub open spec fn json_escape(s: Seq<char>) -> Seq<char>
    decreases s.len(),
{
    if s.len() == 0 {
        Seq::empty()
    } else {
        json_escape(s.drop_last()) + escape_char(s.last())
    }
}

/// Relies on `String::push`: appends exactly the given character.
#[verifier::external_body]
fn push_char(s: &mut String, c: char)
    ensures
        final(s)@ == old(s)@.push(c),
{
    s.push(c);
}

fn hex_char_of(d: u32) -> (r: char)
    requires
        d < 16,
    ensures
        r == hex_char(d as int),
{
    match d {
        0 => '0',
        1 => '1',
        2 => '2',
        3 => '3',
        4 => '4',
        5 => '5',
        6 => '6',
        7 => '7',
        8 => '8',
        9 => '9',
        10 => 'a',
        11 => 'b',
        12 => 'c',
        13 => 'd',
        14 => 'e',
        _ => 'f',
    }
}

/// Appends `escape_char(c)` to `acc`.
fn append_escaped(acc: &mut String, c: char)
    ensures
        final(acc)@ == old(acc)@ + escape_char(c),
{
    proof {
        reveal_strlit("\\\"");
        reveal_strlit("\\\\");
        reveal_strlit("\\b");
        reveal_strlit("\\t");
        reveal_strlit("\\n");
        reveal_strlit("\\f");
        reveal_strlit("\\r");
        reveal_strlit("\\u00");
    }
    if c == '"' {
        acc.append("\\\"");
        assert(acc@ =~= old(acc)@ + escape_char(c));
    } else if c == '\\' {
        acc.append("\\\\");
        assert(acc@ =~= old(acc)@ + escape_char(c));
    } else if c == '\u{8}' {
        acc.append("\\b");
        assert(acc@ =~= old(acc)@ + escape_char(c));
    } else if c == '\t' {
        acc.append("\\t");
        assert(acc@ =~= old(acc)@ + escape_char(c));
    } else if c == '\n' {
        acc.append("\\n");
        assert(acc@ =~= old(acc)@ + escape_char(c));
    } else if c == '\u{c}' {
        acc.append("\\f");
        assert(acc@ =~= old(acc)@ + escape_char(c));
    } else if c == '\r' {
        acc.append("\\r");
        assert(acc@ =~= old(acc)@ + escape_char(c));
    } else if (c as u32) < 0x20 {
        acc.append("\\u00");
        push_char(acc, hex_char_of(c as u32 / 16));
        push_char(acc, hex_char_of(c as u32 % 16));
        assert(acc@ =~= old(acc)@ + escape_char(c));
    } else {
        push_char(acc, c);
        assert(acc@ =~= old(acc)@ + escape_char(c));
    }
}

/// Escapes every character of `s` for use inside a JSON string literal.
pub fn json_escape_str(s: &str) -> (r: String)
    ensures
        r@ == json_escape(s@),
{
    let n = s.unicode_len();
    let mut acc = String::new();
    let mut i: usize = 0;
    while i < n
        invariant
            n == s@.len(),
            i <= n,
            acc@ == json_escape(s@.take(i as int)),
        decreases n - i,
    {
        let c = s.get_char(i);
        append_escaped(&mut acc, c);
        proof {
            assert(s@.take(i + 1).drop_last() =~= s@.take(i as int));
            assert(s@.take(i + 1).last() == s@[i as int]);
        }
        i += 1;
    }
    proof {
        assert(s@.take(n as int) =~= s@);
    }
    acc
}

/// Whether `p`'s characters open `s`.
pub fn str_starts_with(s: &str, p: &str) -> (r: bool)
    ensures
        r == p@.is_prefix_of(s@),
{
    let np = p.unicode_len();
    let ns = s.unicode_len();
    if np > ns {
        return false;
    }
    let mut i: usize = 0;
    while i < np
        invariant
            np == p@.len(),
            np <= ns == s@.len(),
            i <= np,
            forall|j: int| 0 <= j < i ==> p@[j] == s@[j],
        decreases np - i,
    {
        if s.get_char(i) != p.get_char(i) {
            assert(!p@.is_prefix_of(s@)) by {
                assert(s@.subrange(0, p@.len() as int)[i as int] != p@[i as int]);
            }
            return false;
        }
        i += 1;
    }
    assert(p@ =~= s@.subrange(0, p@.len() as int));
    true
}

} // verus!
