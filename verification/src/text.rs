//! Text helpers: character access, equality, and unsigned decimal numbers.

use vstd::prelude::*;
use vstd::std_specs::iter::IteratorSpec;

verus! {

/// `String::push` appends exactly one character to the end of the string.
pub assume_specification[ String::push ](s: &mut String, c: char)
    ensures
        final(s)@ == old(s)@.push(c),
;

/// The characters of `s`, in order.
pub fn chars_of(s: &str) -> (out: Vec<char>)
    ensures
        out@ == s@,
{
    let mut out: Vec<char> = Vec::new();
    let mut it = s.chars();
    let ghost total = s@;
    loop
        invariant
            it.obeys_prophetic_iter_laws(),
            out@ + it.remaining() == total,
            it.decrease() is Some,
        ensures
            out@ == total,
        decreases it.decrease()->0,
    {
        match it.next() {
            Some(c) => {
                out.push(c);
            },
            None => {
                assert(out@ + it.remaining() =~= out@);
                break;
            },
        }
    }
    out
}

/// Whether two strings hold the same characters.
pub fn same_text(a: &str, b: &str) -> (r: bool)
    ensures
        r == (a@ == b@),
{
    let x = a.as_bytes();
    let y = b.as_bytes();
    proof {
        vstd::utf8::encode_utf8_decode_utf8(a@);
        vstd::utf8::encode_utf8_decode_utf8(b@);
    }
    if x.len() != y.len() {
        return false;
    }
    let mut i: usize = 0;
    while i < x.len()
        invariant
            i <= x.len(),
            x.len() == y.len(),
            x@ == vstd::utf8::encode_utf8(a@),
            y@ == vstd::utf8::encode_utf8(b@),
            forall|k: int| 0 <= k < i ==> x@[k] == y@[k],
        decreases x.len() - i,
    {
        if x[i] != y[i] {
            return false;
        }
        i += 1;
    }
    assert(x@ =~= y@);
    true
}

/// Whether `c` is one of the digits `0` to `9`.
pub open spec fn is_digit(c: char) -> bool {
    '0' <= c && c <= '9'
}

/// The number that a digit denotes.
pub open spec fn digit_of(c: char) -> nat {
    (c as int - '0' as int) as nat
}

/// Whether `s` holds digits only.
pub open spec fn all_digits(s: Seq<char>) -> bool {
    forall|i: int| 0 <= i < s.len() ==> is_digit(#[trigger] s[i])
}

/// The number that a run of decimal digits denotes, most significant digit first.
pub open spec fn digits_value(s: Seq<char>) -> nat
    decreases s.len(),
{
    if s.len() == 0 {
        0
    } else {
        digits_value(s.drop_last()) * 10 + digit_of(s.last())
    }
}

/// The digits of an unsigned number: the text without one leading plus sign.
pub open spec fn unsigned_digits(s: Seq<char>) -> Seq<char> {
    if s.len() > 0 && s[0] == '+' {
        s.subrange(1, s.len() as int)
    } else {
        s
    }
}

/// What `s` denotes as an unsigned decimal number no larger than `max`:
/// an optional plus sign, then at least one digit and nothing else.
pub open spec fn parse_unsigned(s: Seq<char>, max: u64) -> Option<u64> {
    let d = unsigned_digits(s);
    if d.len() > 0 && all_digits(d) && digits_value(d) <= max {
        Some(digits_value(d) as u64)
    } else {
        None
    }
}

proof fn lemma_digits_value_prefix(s: Seq<char>, k: int)
    requires
        0 <= k <= s.len(),
    ensures
        digits_value(s.take(k)) <= digits_value(s),
    decreases s.len() - k,
{
    if k < s.len() {
        lemma_digits_value_prefix(s, k + 1);
        assert(s.take(k + 1).drop_last() =~= s.take(k));
    } else {
        assert(s.take(k) =~= s);
    }
}

/// Reads `s` as an unsigned decimal number no larger than `max`.
pub fn parse_bounded(s: &str, max: u64) -> (r: Option<u64>)
    ensures
        r == parse_unsigned(s@, max),
{
    let cs = chars_of(s);
    let n = cs.len();
    let start: usize = if n > 0 && cs[0] == '+' { 1 } else { 0 };
    let ghost d = unsigned_digits(s@);
    assert(d == cs@.subrange(start as int, n as int)) by {
        assert(cs@.subrange(0, n as int) =~= cs@);
    }
    if start == n {
        return None;
    }
    let mut acc: u64 = 0;
    let mut i: usize = start;
    assert(d.take(0) =~= Seq::<char>::empty());
    while i < n
        invariant
            start <= i <= n,
            n == cs.len(),
            d == cs@.subrange(start as int, n as int),
            d == unsigned_digits(s@),
            all_digits(d.take(i - start)),
            acc == digits_value(d.take(i - start)),
            acc <= max,
        decreases n - i,
    {
        let c = cs[i];
        assert(c == d[i - start]);
        if !('0' <= c && c <= '9') {
            assert(!is_digit(d[i - start]));
            return None;
        }
        let v: u64 = (c as u32 - '0' as u32) as u64;
        let ghost next = d.take(i - start + 1);
        assert(next.drop_last() =~= d.take(i - start));
        assert(next.last() == c);
        assert(digits_value(next) == acc * 10 + v);
        let grown = match acc.checked_mul(10) {
            Some(m) => m.checked_add(v),
            None => None,
        };
        match grown {
            Some(t) if t <= max => {
                acc = t;
            },
            _ => {
                proof {
                    lemma_digits_value_prefix(d, i - start + 1);
                }
                return None;
            },
        }
        assert forall|k: int| 0 <= k < next.len() implies is_digit(#[trigger] next[k]) by {
            if k < next.len() - 1 {
                assert(next[k] == d.take(i - start)[k]);
            }
        }
        i += 1;
    }
    assert(d.take(n - start) =~= d);
    Some(acc)
}

/// The digit that denotes a number below ten.
pub open spec fn digit_char(d: nat) -> char {
    ('0' as int + d) as char
}

/// The decimal digits of `n`, without leading zeros.
pub open spec fn decimal(n: nat) -> Seq<char>
    decreases n,
{
    if n < 10 {
        seq![digit_char(n)]
    } else {
        decimal(n / 10).push(digit_char(n % 10))
    }
}

fn digit_to_char(d: u64) -> (c: char)
    requires
        d < 10,
    ensures
        c == digit_char(d as nat),
{
    match d {
        0 => '0',
        1 => '1',
        2 => '2',
        3 => '3',
        4 => '4',
        5 => '5',
        6 => '6',
        7 => '7',
        8 => '8',
        _ => '9',
    }
}

/// Appends the decimal digits of `n` to `out`.
pub fn push_decimal(out: &mut String, n: u64)
    ensures
        final(out)@ == old(out)@ + decimal(n as nat),
    decreases n,
{
    if n >= 10 {
        push_decimal(out, n / 10);
    }
    out.push(digit_to_char(n % 10));
    assert(out@ =~= old(out)@ + decimal(n as nat));
}

/// The decimal digits of `n` as a string.
pub fn format_decimal(n: u64) -> (r: String)
    ensures
        r@ == decimal(n as nat),
{
    let mut out = String::new();
    push_decimal(&mut out, n);
    assert(out@ =~= decimal(n as nat));
    out
}

/// Reading back the digits of a number gives the number.
pub proof fn lemma_decimal_round_trip(n: nat, max: u64)
    requires
        n <= max,
    ensures
        parse_unsigned(decimal(n), max) == Some(n as u64),
{
    lemma_decimal_digits(n);
}

proof fn lemma_decimal_digits(n: nat)
    ensures
        decimal(n).len() > 0,
        all_digits(decimal(n)),
        digits_value(decimal(n)) == n,
    decreases n,
{
    if n < 10 {
        let s = decimal(n);
        assert(s.drop_last() =~= Seq::<char>::empty());
        assert(digits_value(s.drop_last()) == 0);
    } else {
        lemma_decimal_digits(n / 10);
        let s = decimal(n);
        assert(s.drop_last() =~= decimal(n / 10));
    }
}

/// The lower-case form of an ASCII letter; any other character unchanged.
pub open spec fn lower(c: char) -> char {
    if 'A' <= c && c <= 'Z' {
        (c as int + 32) as char
    } else {
        c
    }
}

/// Equality of two texts when ASCII letters differ in case only.
pub open spec fn same_ignoring_case(a: Seq<char>, b: Seq<char>) -> bool {
    a.len() == b.len() && forall|i: int| 0 <= i < a.len() ==> lower(#[trigger] a[i]) == lower(b[i])
}

fn char_eq_ignore_case(x: char, y: char) -> (r: bool)
    ensures
        r == (lower(x) == lower(y)),
{
    let a: u32 = if 'A' <= x && x <= 'Z' { x as u32 + 32 } else { x as u32 };
    let b: u32 = if 'A' <= y && y <= 'Z' { y as u32 + 32 } else { y as u32 };
    a == b
}

/// Whether two strings are equal when ASCII letters differ in case only.
pub fn eq_ignore_case(a: &str, b: &str) -> (r: bool)
    ensures
        r == same_ignoring_case(a@, b@),
{
    let x = chars_of(a);
    let y = chars_of(b);
    if x.len() != y.len() {
        return false;
    }
    let mut i: usize = 0;
    while i < x.len()
        invariant
            i <= x.len(),
            x.len() == y.len(),
            x@ == a@,
            y@ == b@,
            forall|k: int| 0 <= k < i ==> lower(#[trigger] x@[k]) == lower(y@[k]),
        decreases x.len() - i,
    {
        if !char_eq_ignore_case(x[i], y[i]) {
            return false;
        }
        i += 1;
    }
    true
}

} // verus!
