//! Characters, character classes and the small text utilities the engine is
//! built from. Text is modelled as `Seq<char>` throughout.

use vstd::prelude::*;

verus! {

/// `String::push` appends one character and changes nothing else.
pub assume_specification[ String::push ](s: &mut String, c: char)
    ensures
        final(s)@ == old(s)@.push(c),
;

/// The classes of characters that the scanner can skip over.
#[derive(Clone, Copy, PartialEq, Eq, Debug)]
pub enum CharClass {
    /// Space, tab and carriage return: whitespace inside one line.
    Blank,
    /// Blanks and the line feed.
    Space,
    /// ASCII letters and digits, `_` and `-`: keys, variable names and guards.
    Name,
    /// Everything but the line feed: what is left of a line.
    Line,
}

pub open spec fn is_blank(c: char) -> bool {
    c == ' ' || c == '\t' || c == '\r'
}

pub open spec fn is_name_char(c: char) -> bool {
    ('a' <= c && c <= 'z') || ('A' <= c && c <= 'Z') || ('0' <= c && c <= '9') || c == '_' || c
        == '-'
}

pub open spec fn in_class(class: CharClass, c: char) -> bool {
    match class {
        CharClass::Blank => is_blank(c),
        CharClass::Space => is_blank(c) || c == '\n',
        CharClass::Name => is_name_char(c),
        CharClass::Line => c != '\n',
    }
}

/// The first position at or after `i` whose character is outside `class`
/// (the length of `s` if there is none).
pub open spec fn scan(s: Seq<char>, i: int, class: CharClass) -> int
    decreases s.len() - i,
{
    if 0 <= i < s.len() && in_class(class, s[i]) {
        scan(s, i + 1, class)
    } else {
        i
    }
}

/// What [`scan`] skips is inside the class, and it stops at the first
/// character outside it.
pub proof fn lemma_scan(s: Seq<char>, i: int, class: CharClass)
    requires
        0 <= i <= s.len(),
    ensures
        i <= scan(s, i, class) <= s.len(),
        forall|k: int| i <= k < scan(s, i, class) ==> in_class(class, #[trigger] s[k]),
        scan(s, i, class) < s.len() ==> !in_class(class, s[scan(s, i, class)]),
    decreases s.len() - i,
{
    if i < s.len() && in_class(class, s[i]) {
        lemma_scan(s, i + 1, class);
    }
}

/// A scan never moves backwards, wherever it starts.
pub proof fn lemma_scan_forward(s: Seq<char>, i: int, class: CharClass)
    ensures
        scan(s, i, class) >= i,
    decreases s.len() - i,
{
    if 0 <= i < s.len() && in_class(class, s[i]) {
        lemma_scan_forward(s, i + 1, class);
    }
}

pub fn char_in_class(class: CharClass, c: char) -> (r: bool)
    ensures
        r == in_class(class, c),
{
    match class {
        CharClass::Blank => c == ' ' || c == '\t' || c == '\r',
        CharClass::Space => c == ' ' || c == '\t' || c == '\r' || c == '\n',
        CharClass::Name => ('a' <= c && c <= 'z') || ('A' <= c && c <= 'Z') || ('0' <= c && c
            <= '9') || c == '_' || c == '-',
        CharClass::Line => c != '\n',
    }
}

/// Skips the characters of `class` from `i` on.
pub fn skip_class(s: &Vec<char>, i: usize, class: CharClass) -> (r: usize)
    requires
        i <= s.len(),
    ensures
        r == scan(s@, i as int, class),
        i <= r <= s.len(),
{
    let mut j: usize = i;
    while j < s.len() && char_in_class(class, s[j])
        invariant
            i <= j <= s.len(),
            scan(s@, i as int, class) == scan(s@, j as int, class),
        decreases s.len() - j,
    {
        j += 1;
    }
    proof {
        lemma_scan(s@, j as int, class);
    }
    j
}

/// `t` without the blanks at its end.
pub open spec fn trim_end(t: Seq<char>) -> Seq<char>
    decreases t.len(),
{
    if t.len() > 0 && is_blank(t.last()) {
        trim_end(t.drop_last())
    } else {
        t
    }
}

/// Removes the blanks at the end of `t`.
pub fn trim_blanks(t: &mut Vec<char>)
    ensures
        final(t)@ == trim_end(old(t)@),
{
    while t.len() > 0 && char_in_class(CharClass::Blank, t[t.len() - 1])
        invariant
            trim_end(t@) == trim_end(old(t)@),
        decreases t.len(),
    {
        t.pop();
    }
}

/// The characters of `s`, one element each.
pub fn chars_of(s: &str) -> (r: Vec<char>)
    ensures
        r@ == s@,
{
    let mut out: Vec<char> = Vec::new();
    for c in it: s.chars()
        invariant
            it.seq() == s@,
            out@ =~= s@.take(it.index()),
    {
        out.push(c);
    }
    assert(s@.take(s@.len() as int) =~= s@);
    out
}

/// The string made of the characters `t[from..to]`.
pub fn text_between(t: &Vec<char>, from: usize, to: usize) -> (r: String)
    requires
        from <= to <= t.len(),
    ensures
        r@ == t@.subrange(from as int, to as int),
{
    let mut out = String::new();
    let mut i: usize = from;
    while i < to
        invariant
            from <= i <= to <= t.len(),
            out@ =~= t@.subrange(from as int, i as int),
        decreases to - i,
    {
        out.push(t[i]);
        i += 1;
    }
    out
}

/// The character that stands for the digit `d` in base ten.
pub open spec fn digit_char(d: int) -> char {
    if d == 0 {
        '0'
    } else if d == 1 {
        '1'
    } else if d == 2 {
        '2'
    } else if d == 3 {
        '3'
    } else if d == 4 {
        '4'
    } else if d == 5 {
        '5'
    } else if d == 6 {
        '6'
    } else if d == 7 {
        '7'
    } else if d == 8 {
        '8'
    } else {
        '9'
    }
}

/// The digits of `n` in base ten, the most significant first, without
/// leading zeros.
pub open spec fn decimal_digits(n: nat) -> Seq<char>
    decreases n,
{
    if n < 10 {
        seq![digit_char(n as int)]
    } else {
        decimal_digits(n / 10).push(digit_char((n % 10) as int))
    }
}

/// How an integer is written: a minus sign for a negative one, then the
/// digits of its magnitude.
pub open spec fn decimal(n: int) -> Seq<char> {
    if n < 0 {
        seq!['-'] + decimal_digits((-n) as nat)
    } else {
        decimal_digits(n as nat)
    }
}

fn digit_of(d: u64) -> (c: char)
    requires
        d < 10,
    ensures
        c == digit_char(d as int),
{
    if d == 0 {
        '0'
    } else if d == 1 {
        '1'
    } else if d == 2 {
        '2'
    } else if d == 3 {
        '3'
    } else if d == 4 {
        '4'
    } else if d == 5 {
        '5'
    } else if d == 6 {
        '6'
    } else if d == 7 {
        '7'
    } else if d == 8 {
        '8'
    } else {
        '9'
    }
}

/// Appends the digits of `n` to `out`.
pub fn push_digits(n: u64, out: &mut String)
    ensures
        final(out)@ == old(out)@ + decimal_digits(n as nat),
    decreases n,
{
    if n >= 10 {
        push_digits(n / 10, out);
    }
    out.push(digit_of(n % 10));
    assert(out@ =~= old(out)@ + decimal_digits(n as nat));
}

/// Appends `n`, written in base ten, to `out`.
pub fn push_integer(n: i64, out: &mut String)
    ensures
        final(out)@ == old(out)@ + decimal(n as int),
{
    if n < 0 {
        out.push('-');
        let magnitude: u64 = ((-(n + 1)) as u64) + 1;
        push_digits(magnitude, out);
        assert(out@ =~= old(out)@ + decimal(n as int));
    } else {
        push_digits(n as u64, out);
    }
}

/// Whether `c` is one of the ten digits.
pub open spec fn is_digit(c: char) -> bool {
    '0' <= c && c <= '9'
}

/// The number that the digit `c` stands for.
pub open spec fn digit_value(c: char) -> nat {
    (c as nat - '0' as nat) as nat
}

/// The number that a run of digits stands for in base ten.
pub open spec fn digits_value(s: Seq<char>) -> nat
    decreases s.len(),
{
    if s.len() == 0 {
        0
    } else {
        digits_value(s.drop_last()) * 10 + digit_value(s.last())
    }
}

pub open spec fn all_digits(s: Seq<char>) -> bool {
    forall|i: int| 0 <= i < s.len() ==> is_digit(#[trigger] s[i])
}

/// The integer that `s` denotes, if it is an optional minus sign followed by
/// one or more digits.
pub open spec fn integer_value(s: Seq<char>) -> Option<int> {
    if s.len() > 1 && s[0] == '-' && all_digits(s.subrange(1, s.len() as int)) {
        Some(-(digits_value(s.subrange(1, s.len() as int)) as int))
    } else if s.len() > 0 && all_digits(s) {
        Some(digits_value(s) as int)
    } else {
        None
    }
}

/// A run of digits is worth at least as much as any of its prefixes.
pub proof fn lemma_digits_prefix(s: Seq<char>, k: int)
    requires
        0 <= k <= s.len(),
    ensures
        digits_value(s.take(k)) <= digits_value(s),
    decreases s.len(),
{
    if k == s.len() {
        assert(s.take(k) =~= s);
    } else {
        lemma_digits_prefix(s.drop_last(), k);
        assert(s.drop_last().take(k) =~= s.take(k));
    }
}

/// Whether `s` denotes the integer `n`.
pub fn denotes(s: &Vec<char>, n: i64) -> (r: bool)
    ensures
        r == (integer_value(s@) == Some(n as int)),
{
    if s.len() == 0 {
        return false;
    }
    let negative = s.len() > 1 && s[0] == '-';
    let start: usize = if negative {
        1
    } else {
        0
    };
    let ghost digits = s@.subrange(start as int, s.len() as int);
    proof {
        if !negative {
            assert(digits =~= s@);
        }
    }
    let mut value: u128 = 0;
    let mut i: usize = start;
    while i < s.len()
        invariant
            start <= i <= s.len(),
            s.len() > 0,
            negative == (s.len() > 1 && s[0] == '-'),
            start == if negative { 1usize } else { 0usize },
            digits == s@.subrange(start as int, s.len() as int),
            !negative ==> digits == s@,
            all_digits(digits.take(i - start)),
            value == digits_value(digits.take(i - start)),
            value <= 0x8000_0000_0000_0000,
        decreases s.len() - i,
    {
        let c = s[i];
        if !('0' <= c && c <= '9') {
            assert(!is_digit(digits[i - start]));
            assert(negative ==> !is_digit(s@[0]));
            return false;
        }
        let d: u128 = (c as u32 - '0' as u32) as u128;
        value = value * 10 + d;
        proof {
            let next = digits.take(i - start + 1);
            assert(next.drop_last() =~= digits.take(i - start));
            assert(next.last() == c);
            lemma_digits_prefix(digits, i - start + 1);
        }
        if value > 0x8000_0000_0000_0000 {
            return false;
        }
        i += 1;
    }
    assert(digits.take(i - start) =~= digits);
    if negative {
        n <= 0 && value == (-(n as i128)) as u128
    } else {
        n >= 0 && value == n as u128
    }
}

} // verus!
