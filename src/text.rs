//! Character-level helpers: strings are handled as sequences of `char`.
use vstd::prelude::*;

verus! {

/// Whether `p` is a prefix of `s`.
pub open spec fn has_prefix(s: Seq<char>, p: Seq<char>) -> bool {
    p.len() <= s.len() && s.subrange(0, p.len() as int) == p
}

/// Whether `p` is a suffix of `s`.
pub open spec fn has_suffix(s: Seq<char>, p: Seq<char>) -> bool {
    p.len() <= s.len() && s.subrange(s.len() - p.len(), s.len() as int) == p
}

/// Whether `p` occurs in `s` starting at position `i`.
pub open spec fn occurs_at(s: Seq<char>, p: Seq<char>, i: int) -> bool {
    0 <= i && i + p.len() <= s.len() && s.subrange(i, i + p.len()) == p
}

/// Whether `p` occurs anywhere in `s`.
pub open spec fn has_infix(s: Seq<char>, p: Seq<char>) -> bool {
    exists|i: int| occurs_at(s, p, i)
}

/// The decimal digit for `d < 10`.
pub open spec fn digit_char(d: nat) -> char {
    if d == 0 { '0' }
    else if d == 1 { '1' }
    else if d == 2 { '2' }
    else if d == 3 { '3' }
    else if d == 4 { '4' }
    else if d == 5 { '5' }
    else if d == 6 { '6' }
    else if d == 7 { '7' }
    else if d == 8 { '8' }
    else { '9' }
}

/// The decimal notation of `n`, without leading zeros.
pub open spec fn decimal(n: nat) -> Seq<char>
    decreases n,
{
    if n < 10 {
        seq![digit_char(n)]
    } else {
        decimal(n / 10).push(digit_char(n % 10))
    }
}

/// Relies on `String::push`: it appends one character at the end.
#[verifier::external_body]
fn push_char(s: &mut String, c: char)
    ensures
        final(s)@ == old(s)@.push(c),
{
    s.push(c)
}

/// The characters of `s`, in order.
pub fn chars_of(s: &str) -> (r: Vec<char>)
    ensures
        r@ == s@,
{
    let mut r: Vec<char> = Vec::new();
    for c in it: s.chars()
        invariant
            r@ == it.seq().subrange(0, it.index() as int),
    {
        r.push(c);
    }
    r
}

/// A `String` holding exactly the characters `cs`.
pub fn string_of(cs: &Vec<char>) -> (r: String)
    ensures
        r@ == cs@,
{
    let mut r = String::new();
    let mut i: usize = 0;
    while i < cs.len()
        invariant
            i <= cs.len(),
            r@ == cs@.subrange(0, i as int),
        decreases cs.len() - i,
    {
        push_char(&mut r, cs[i]);
        i = i + 1;
        assert(r@ == cs@.subrange(0, i as int));
    }
    r
}

/// Appends the characters of `s` to `out`.
pub fn append_str(out: &mut Vec<char>, s: &str)
    ensures
        final(out)@ == old(out)@ + s@,
{
    let cs = chars_of(s);
    let ghost start = out@;
    let mut i: usize = 0;
    while i < cs.len()
        invariant
            i <= cs.len(),
            cs@ == s@,
            out@ == start + cs@.subrange(0, i as int),
        decreases cs.len() - i,
    {
        out.push(cs[i]);
        i = i + 1;
        assert(out@ == start + cs@.subrange(0, i as int));
    }
    assert(cs@.subrange(0, cs@.len() as int) == cs@);
}

/// Appends the characters of `t` to `out`.
pub fn append_chars(out: &mut Vec<char>, t: &Vec<char>)
    ensures
        final(out)@ == old(out)@ + t@,
{
    let ghost start = out@;
    let mut i: usize = 0;
    while i < t.len()
        invariant
            i <= t.len(),
            out@ == start + t@.subrange(0, i as int),
        decreases t.len() - i,
    {
        out.push(t[i]);
        i = i + 1;
        assert(out@ == start + t@.subrange(0, i as int));
    }
    assert(t@.subrange(0, t@.len() as int) == t@);
}

fn digit(d: u64) -> (c: char)
    requires
        d < 10,
    ensures
        c == digit_char(d as nat),
{
    if d == 0 { '0' }
    else if d == 1 { '1' }
    else if d == 2 { '2' }
    else if d == 3 { '3' }
    else if d == 4 { '4' }
    else if d == 5 { '5' }
    else if d == 6 { '6' }
    else if d == 7 { '7' }
    else if d == 8 { '8' }
    else { '9' }
}

/// The decimal notation of `n`.
pub fn decimal_chars(n: u64) -> (r: Vec<char>)
    ensures
        r@ == decimal(n as nat),
    decreases n,
{
    if n < 10 {
        let mut r: Vec<char> = Vec::new();
        r.push(digit(n));
        r
    } else {
        let mut r = decimal_chars(n / 10);
        r.push(digit(n % 10));
        r
    }
}

/// Whether `p` is a prefix of `s`.
pub fn starts_with(s: &Vec<char>, p: &Vec<char>) -> (r: bool)
    ensures
        r == has_prefix(s@, p@),
{
    if p.len() > s.len() {
        return false;
    }
    let mut i: usize = 0;
    while i < p.len()
        invariant
            i <= p.len() <= s.len(),
            forall|j: int| 0 <= j < i ==> s@[j] == p@[j],
        decreases p.len() - i,
    {
        if s[i] != p[i] {
            assert(s@.subrange(0, p@.len() as int)[i as int] != p@[i as int]);
            return false;
        }
        i = i + 1;
    }
    assert(s@.subrange(0, p@.len() as int) =~= p@);
    true
}

/// Whether `p` occurs in `s` at position `at`.
fn matches_at(s: &Vec<char>, p: &Vec<char>, at: usize) -> (r: bool)
    requires
        at + p.len() <= s.len(),
    ensures
        r == occurs_at(s@, p@, at as int),
{
    let mut i: usize = 0;
    while i < p.len()
        invariant
            i <= p.len(),
            at + p.len() <= s.len(),
            forall|j: int| 0 <= j < i ==> s@[at + j] == p@[j],
        decreases p.len() - i,
    {
        if s[at + i] != p[i] {
            assert(s@.subrange(at as int, at + p@.len())[i as int] != p@[i as int]);
            return false;
        }
        i = i + 1;
    }
    assert(s@.subrange(at as int, at + p@.len()) =~= p@);
    true
}

/// Whether `p` is a suffix of `s`.
pub fn ends_with(s: &Vec<char>, p: &Vec<char>) -> (r: bool)
    ensures
        r == has_suffix(s@, p@),
{
    if p.len() > s.len() {
        return false;
    }
    matches_at(s, p, s.len() - p.len())
}

/// Whether `p` occurs anywhere in `s`.
pub fn contains(s: &Vec<char>, p: &Vec<char>) -> (r: bool)
    ensures
        r == has_infix(s@, p@),
{
    if p.len() > s.len() {
        assert forall|i: int| !occurs_at(s@, p@, i) by {}
        return false;
    }
    let last = s.len() - p.len();
    let mut i: usize = 0;
    loop
        invariant
            i <= last,
            last + p.len() == s.len(),
            forall|j: int| 0 <= j < i ==> !occurs_at(s@, p@, j),
        ensures
            forall|j: int| 0 <= j <= last ==> !occurs_at(s@, p@, j),
        decreases last - i,
    {
        if matches_at(s, p, i) {
            return true;
        }
        if i == last {
            break;
        }
        i = i + 1;
    }
    assert forall|j: int| !occurs_at(s@, p@, j) by {
        if 0 <= j <= last {
        }
    }
    false
}

/// Whether `c` is an ASCII decimal digit.
pub open spec fn is_digit(c: char) -> bool {
    '0' <= c && c <= '9'
}

/// The value of the decimal digit `c`.
pub open spec fn digit_value(c: char) -> nat {
    (c as u32 - '0' as u32) as nat
}

/// The value of the decimal digits `s`.
pub open spec fn digits_value(s: Seq<char>) -> nat
    decreases s.len(),
{
    if s.len() == 0 {
        0
    } else {
        digits_value(s.drop_last()) * 10 + digit_value(s.last())
    }
}

/// The digits of an unsigned number: what follows an optional leading `+`.
pub open spec fn unsigned_digits(s: Seq<char>) -> Seq<char> {
    if s.len() > 0 && s[0] == '+' {
        s.drop_first()
    } else {
        s
    }
}

/// The 32-bit unsigned number written in `s`: an optional `+` and then at least one
/// decimal digit, nothing else, of value at most `u32::MAX`.
pub open spec fn parsed_u32(s: Seq<char>) -> Option<u32> {
    let d = unsigned_digits(s);
    if d.len() > 0 && (forall|i: int| 0 <= i < d.len() ==> is_digit(#[trigger] d[i])) && digits_value(d)
        <= u32::MAX {
        Some(digits_value(d) as u32)
    } else {
        None
    }
}

proof fn lemma_digits_value_grows(d: Seq<char>, i: int)
    requires
        0 <= i <= d.len(),
    ensures
        digits_value(d.subrange(0, i)) <= digits_value(d),
    decreases d.len() - i,
{
    if i < d.len() {
        lemma_digits_value_grows(d, i + 1);
        assert(d.subrange(0, i + 1).drop_last() =~= d.subrange(0, i));
    } else {
        assert(d.subrange(0, i) =~= d);
    }
}

/// Reads a 32-bit unsigned decimal number.
pub fn parse_u32(s: &str) -> (r: Option<u32>)
    ensures
        r == parsed_u32(s@),
{
    let cs = chars_of(s);
    let start: usize = if cs.len() > 0 && cs[0] == '+' { 1 } else { 0 };
    let ghost d = unsigned_digits(s@);
    proof {
        assert(d =~= cs@.subrange(start as int, cs@.len() as int));
    }
    if start == cs.len() {
        return None;
    }
    let mut value: u64 = 0;
    let mut i: usize = start;
    while i < cs.len()
        invariant
            start <= i <= cs@.len(),
            cs@ == s@,
            d == unsigned_digits(s@),
            d == cs@.subrange(start as int, cs@.len() as int),
            value == digits_value(d.subrange(0, i - start)),
            value <= u32::MAX,
            forall|j: int| 0 <= j < i - start ==> is_digit(#[trigger] d[j]),
        decreases cs.len() - i,
    {
        let c = cs[i];
        if !('0' <= c && c <= '9') {
            assert(!is_digit(d[i - start]));
            return None;
        }
        let v = (c as u32 - '0' as u32) as u64;
        proof {
            assert(d.subrange(0, i + 1 - start).drop_last() =~= d.subrange(0, i - start));
            assert(d[i - start] == c);
        }
        value = value * 10 + v;
        i = i + 1;
        if value > 0xffff_ffff {
            proof {
                lemma_digits_value_grows(d, i - start);
            }
            return None;
        }
    }
    proof {
        assert(d.subrange(0, i - start) =~= d);
    }
    Some(value as u32)
}

} // verus!
