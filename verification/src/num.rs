//! Decimal numbers in protocol text.
//!
//! The goal-state document carries the configuration incarnation as decimal
//! text, and the health report must echo it back verbatim. Both directions
//! are defined here: `dec_val`/`parse_u64` read decimal text, and
//! `dec_str`/`u64_to_string` render it.

use vstd::prelude::*;

verus! {

pub open spec fn is_digit(c: char) -> bool {
    '0' <= c && c <= '9'
}

pub open spec fn digit_val(c: char) -> nat {
    (c as int - '0' as int) as nat
}

pub open spec fn all_digits(s: Seq<char>) -> bool {
    forall|i: int| 0 <= i < s.len() ==> is_digit(s[i])
}

/// Value of a digit string, most significant digit first.
pub open spec fn dec_val(s: Seq<char>) -> nat
    decreases s.len(),
{
    if s.len() == 0 {
        0
    } else {
        dec_val(s.drop_last()) * 10 + digit_val(s.last())
    }
}

/// What reading decimal text yields: the value of a non-empty all-digit
/// string whose value fits in a `u64`, and nothing otherwise.
pub open spec fn parse_u64_spec(s: Seq<char>) -> Option<u64> {
    if s.len() > 0 && all_digits(s) && dec_val(s) <= u64::MAX {
        Some(dec_val(s) as u64)
    } else {
        None
    }
}

/// The value of a digit string never shrinks as the string grows to the
/// right.
proof fn lemma_dec_val_monotone(s: Seq<char>, k1: int, k2: int)
    requires
        0 <= k1 <= k2 <= s.len(),
    ensures
        dec_val(s.take(k2)) >= dec_val(s.take(k1)),
    decreases k2 - k1,
{
    if k1 < k2 {
        lemma_dec_val_monotone(s, k1, k2 - 1);
        assert(s.take(k2).drop_last() =~= s.take(k2 - 1));
        assert(dec_val(s.take(k2)) == dec_val(s.take(k2 - 1)) * 10 + digit_val(s.take(k2).last()));
    }
}

/// Reads `s` as a decimal `u64`: returns the value exactly when `s` is
/// non-empty, consists only of digits, and denotes a value that fits.
pub fn parse_u64(s: &str) -> (r: Option<u64>)
    ensures
        r == parse_u64_spec(s@),
{
    let n = s.unicode_len();
    if n == 0 {
        return None;
    }
    let mut acc: u64 = 0;
    let mut i: usize = 0;
    while i < n
        invariant
            0 <= i <= n,
            n == s@.len(),
            all_digits(s@.take(i as int)),
            acc == dec_val(s@.take(i as int)),
        decreases n - i,
    {
        let c = s.get_char(i);
        if c < '0' || c > '9' {
            assert(!is_digit(s@[i as int]));
            return None;
        }
        let d: u64 = (c as u32 - 48) as u64;
        assert(d == digit_val(s@[i as int]));
        proof {
            assert(s@.take(i + 1).drop_last() =~= s@.take(i as int));
            assert(s@.take(i + 1).last() == s@[i as int]);
        }
        if acc > (u64::MAX - d) / 10 {
            proof {
                assert(dec_val(s@.take(i + 1)) == acc * 10 + d);
                assert(acc * 10 + d > u64::MAX) by {
                    assert(acc >= (u64::MAX - d) / 10 + 1);
                };
                lemma_dec_val_monotone(s@, i + 1, s@.len() as int);
                assert(s@.take(s@.len() as int) =~= s@);
            }
            return None;
        }
        acc = acc * 10 + d;
        i += 1;
    }
    proof {
        assert(s@.take(n as int) =~= s@);
    }
    Some(acc)
}

pub open spec fn digit_char(d: nat) -> char {
    if d == 0 {
        '0'
    } else if d == 1 {
        '1'
    } else if d == 2 {
        '2'
    } else if d == 3 {
        '3'
    } else if d == 4 {
        '4'
    } else if d == 5 {
        '5'
    } else if d == 6 {
        '6'
    } else if d == 7 {
        '7'
    } else if d == 8 {
        '8'
    } else {
        '9'
    }
}

/// Decimal rendering of a number, without leading zeros.
pub open spec fn dec_str(n: nat) -> Seq<char>
    decreases n,
{
    if n < 10 {
        seq![digit_char(n)]
    } else {
        dec_str(n / 10) + seq![digit_char(n % 10)]
    }
}

/// Rendering a number and reading the text back yields the number: the
/// rendered digits are digits, at least one stands, and their value is the
/// number itself.
pub proof fn lemma_dec_str_value(n: nat)
    ensures
        dec_str(n).len() >= 1,
        all_digits(dec_str(n)),
        dec_val(dec_str(n)) == n,
    decreases n,
{
    if n < 10 {
        assert(dec_str(n) =~= seq![digit_char(n)]);
        assert(dec_str(n).drop_last() =~= Seq::<char>::empty());
        assert(dec_val(Seq::<char>::empty()) == 0);
        assert(digit_val(digit_char(n)) == n);
        assert(dec_val(dec_str(n)) == dec_val(Seq::<char>::empty()) * 10 + digit_val(
            digit_char(n),
        ));
    } else {
        lemma_dec_str_value(n / 10);
        let whole = dec_str(n / 10) + seq![digit_char(n % 10)];
        assert(dec_str(n) == whole);
        assert(whole.drop_last() =~= dec_str(n / 10));
        assert(whole.last() == digit_char(n % 10));
        assert(digit_val(digit_char(n % 10)) == n % 10);
        assert(dec_val(whole) == dec_val(dec_str(n / 10)) * 10 + n % 10);
        assert(forall|i: int| 0 <= i < whole.len() ==> is_digit(whole[i]));
    }
}

/// An echoed counter is read back verbatim: parsing the decimal rendering
/// of any `u64` yields exactly that value.
pub proof fn lemma_render_parse_round_trip(n: u64)
    ensures
        parse_u64_spec(dec_str(n as nat)) == Some(n),
{
    lemma_dec_str_value(n as nat);
}

fn digit_to_str(d: u64) -> (r: &'static str)
    requires
        d < 10,
    ensures
        r@ =~= seq![digit_char(d as nat)],
{
    proof {
        reveal_strlit("0");
        reveal_strlit("1");
        reveal_strlit("2");
        reveal_strlit("3");
        reveal_strlit("4");
        reveal_strlit("5");
        reveal_strlit("6");
        reveal_strlit("7");
        reveal_strlit("8");
        reveal_strlit("9");
    }
    match d {
        0 => "0",
        1 => "1",
        2 => "2",
        3 => "3",
        4 => "4",
        5 => "5",
        6 => "6",
        7 => "7",
        8 => "8",
        _ => "9",
    }
}

/// Renders `n` in decimal.
pub fn u64_to_string(n: u64) -> (r: String)
    ensures
        r@ == dec_str(n as nat),
    decreases n,
{
    if n < 10 {
        let r = String::from_str(digit_to_str(n));
        assert(r@ =~= dec_str(n as nat));
        r
    } else {
        let mut s = u64_to_string(n / 10);
        s.append(digit_to_str(n % 10));
        assert(s@ =~= dec_str(n as nat));
        s
    }
}

} // verus!
