//! Identifiers for tracing: a version, the time and the host, in one string.

use crate::text::{decimal, decimal_digits, push_integer};
use vstd::prelude::*;

verus! {

/// The character that stands for the digit `d` in base sixteen.
pub open spec fn hex_char(d: int) -> char {
    if d == 0 {
        '0'
    } else if d == 1 {
        '1'
    } else if d == 2 {
        '2'
    } else if d == 3 {
        '3'
    } else if d == 4 {
        '4'
    } else if d == 5 {
        '5'
    } else if d == 6 {
        '6'
    } else if d == 7 {
        '7'
    } else if d == 8 {
        '8'
    } else if d == 9 {
        '9'
    } else if d == 10 {
        'a'
    } else if d == 11 {
        'b'
    } else if d == 12 {
        'c'
    } else if d == 13 {
        'd'
    } else if d == 14 {
        'e'
    } else {
        'f'
    }
}

/// The last `width` digits of `n` in base sixteen, the most significant
/// first, with zeros in front where `n` has fewer.
pub open spec fn hex_digits(n: nat, width: nat) -> Seq<char>
    decreases width,
{
    if width == 0 {
        Seq::empty()
    } else {
        hex_digits(n / 16, (width - 1) as nat).push(hex_char((n % 16) as int))
    }
}

/// There are as many digits as were asked for.
pub proof fn lemma_hex_width(n: nat, width: nat)
    ensures
        hex_digits(n, width).len() == width,
    decreases width,
{
    if width > 0 {
        lemma_hex_width(n / 16, (width - 1) as nat);
    }
}

/// The identifier made at the time `millis`, in milliseconds since the start
/// of 1970, on the host with the address `host`, with the random number
/// `random`: the version `01`, then the time in base ten, then the address
/// in 32 digits of base sixteen, then the last 6 digits of the random number
/// in base sixteen.
pub open spec fn log_id_text(millis: int, host: nat, random: nat) -> Seq<char> {
    seq!['0', '1'] + decimal(millis) + hex_digits(host, 32) + hex_digits(random, 6)
}

/// Whether `c` is a digit of base sixteen, in lower case.
pub open spec fn is_hex_char(c: char) -> bool {
    ('0' <= c && c <= '9') || ('a' <= c && c <= 'f')
}

/// Digits of base sixteen are nothing else.
pub proof fn lemma_hex_chars(n: nat, width: nat)
    ensures
        forall|i: int| 0 <= i < hex_digits(n, width).len() ==> is_hex_char(
            #[trigger] hex_digits(n, width)[i],
        ),
    decreases width,
{
    if width > 0 {
        let rest = hex_digits(n / 16, (width - 1) as nat);
        lemma_hex_chars(n / 16, (width - 1) as nat);
        assert forall|i: int| 0 <= i < hex_digits(n, width).len() implies is_hex_char(
            #[trigger] hex_digits(n, width)[i],
        ) by {
            if i < rest.len() {
                assert(hex_digits(n, width)[i] == rest[i]);
            }
        }
    }
}

/// A number that is not negative is written in digits only.
pub proof fn lemma_decimal_chars(n: nat)
    ensures
        forall|i: int| 0 <= i < decimal_digits(n).len() ==> is_hex_char(
            #[trigger] decimal_digits(n)[i],
        ),
    decreases n,
{
    if n >= 10 {
        let rest = decimal_digits(n / 10);
        lemma_decimal_chars(n / 10);
        assert forall|i: int| 0 <= i < decimal_digits(n).len() implies is_hex_char(
            #[trigger] decimal_digits(n)[i],
        ) by {
            if i < rest.len() {
                assert(decimal_digits(n)[i] == rest[i]);
            }
        }
    }
}

/// Ten to the power of `k`.
pub open spec fn pow10(k: nat) -> nat
    decreases k,
{
    if k == 0 {
        1
    } else {
        10 * pow10((k - 1) as nat)
    }
}

/// A number with `k` digits is written with `k` characters.
pub proof fn lemma_decimal_width(n: nat, k: nat)
    requires
        k >= 1,
        k == 1 || pow10((k - 1) as nat) <= n,
        n < pow10(k),
    ensures
        decimal_digits(n).len() == k,
    decreases k,
{
    reveal_with_fuel(pow10, 2);
    if k > 1 {
        assert(n >= 10);
        lemma_decimal_width(n / 10, (k - 1) as nat);
    }
}

/// With a time of thirteen digits, as the clock has shown them since 2001,
/// the identifier has 53 characters, each a digit of base sixteen; the last
/// six are the random part.
pub proof fn lemma_log_id_shape(millis: int, host: nat, random: nat)
    requires
        1_000_000_000_000 <= millis < 10_000_000_000_000,
    ensures
        log_id_text(millis, host, random).len() == 53,
        forall|i: int| 0 <= i < 53 ==> is_hex_char(#[trigger] log_id_text(millis, host, random)[i]),
        log_id_text(millis, host, random).subrange(47, 53) == hex_digits(random, 6),
{
    reveal_with_fuel(pow10, 14);
    assert(pow10(12) == 1_000_000_000_000);
    assert(pow10(13) == 10_000_000_000_000);
    lemma_decimal_width(millis as nat, 13);
    lemma_decimal_chars(millis as nat);
    lemma_hex_width(host, 32);
    lemma_hex_chars(host, 32);
    lemma_hex_width(random, 6);
    lemma_hex_chars(random, 6);
    let id = log_id_text(millis, host, random);
    assert(id.subrange(47, 53) =~= hex_digits(random, 6));
    assert forall|i: int| 0 <= i < 53 implies is_hex_char(#[trigger] id[i]) by {
        if i < 2 {
        } else if i < 15 {
            assert(id[i] == decimal_digits(millis as nat)[i - 2]);
        } else if i < 47 {
            assert(id[i] == hex_digits(host, 32)[i - 15]);
        } else {
            assert(id[i] == hex_digits(random, 6)[i - 47]);
        }
    }
}

fn hex_of(d: u128) -> (c: char)
    requires
        d < 16,
    ensures
        c == hex_char(d as int),
{
    if d == 0 {
        '0'
    } else if d == 1 {
        '1'
    } else if d == 2 {
        '2'
    } else if d == 3 {
        '3'
    } else if d == 4 {
        '4'
    } else if d == 5 {
        '5'
    } else if d == 6 {
        '6'
    } else if d == 7 {
        '7'
    } else if d == 8 {
        '8'
    } else if d == 9 {
        '9'
    } else if d == 10 {
        'a'
    } else if d == 11 {
        'b'
    } else if d == 12 {
        'c'
    } else if d == 13 {
        'd'
    } else if d == 14 {
        'e'
    } else {
        'f'
    }
}

/// Appends the last `width` digits of `n` in base sixteen.
pub fn push_hex(n: u128, width: u32, out: &mut String)
    ensures
        final(out)@ == old(out)@ + hex_digits(n as nat, width as nat),
    decreases width,
{
    if width > 0 {
        push_hex(n / 16, width - 1, out);
        out.push(hex_of(n % 16));
    }
    assert(out@ =~= old(out)@ + hex_digits(n as nat, width as nat));
}

/// The identifier for the time `millis`, the host address `host` and the
/// random number `random`.
pub fn compose_log_id(millis: i64, host: u128, random: u32) -> (id: String)
    ensures
        id@ == log_id_text(millis as int, host as nat, random as nat),
        id@.len() == 2 + decimal(millis as int).len() + 32 + 6,
{
    proof {
        lemma_hex_width(host as nat, 32);
        lemma_hex_width(random as nat, 6);
    }
    let mut id = String::new();
    id.push('0');
    id.push('1');
    push_integer(millis, &mut id);
    push_hex(host, 32, &mut id);
    push_hex(random as u128, 6, &mut id);
    assert(id@ =~= log_id_text(millis as int, host as nat, random as nat));
    id
}

/// The clock: `chrono::DateTime::<Utc>::from` on the system time, then
/// `timestamp_millis`, the milliseconds since the start of 1970, negative
/// for a clock that stands before it. Nothing is claimed of the number. The
/// conversion stops the program only for a clock outside the years that
/// chrono can hold, some 262,000 on either side of 1970.
#[verifier::external_body]
fn now_millis() -> (millis: i64) {
    chrono::DateTime::<chrono::Utc>::from(std::time::SystemTime::now()).timestamp_millis()
}

/// A fresh identifier for the host with the address `host`, made at the
/// time that the system clock shows, with the random number `random`.
pub fn gen_log_id(host: u128, random: u32) -> (id: String)
    ensures
        exists|millis: i64| id@ == log_id_text(millis as int, host as nat, random as nat),
{
    compose_log_id(now_millis(), host, random)
}

} // verus!
