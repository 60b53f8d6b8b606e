//! Random material for probe salts and generated account names.

use crate::text::{all_digits, digits_val, is_digit_char};
use vstd::prelude::*;
use vstd::string::StringExecFns;

verus! {

/// Relies on rand's thread-local generator sampling the standard
/// distribution; nothing is promised of the value.
#[verifier::external_body]
pub fn random_u64() -> u64 {
    rand::Rng::sample(&mut rand::thread_rng(), rand::distributions::Standard)
}

/// The decimal digit `d` as a character.
pub open spec fn digit_char(d: int) -> char {
    if d == 0 {
        '0'
    } else if d == 1 {
        '1'
    } else if d == 2 {
        '2'
    } else if d == 3 {
        '3'
    } else if d == 4 {
        '4'
    } else if d == 5 {
        '5'
    } else if d == 6 {
        '6'
    } else if d == 7 {
        '7'
    } else if d == 8 {
        '8'
    } else {
        '9'
    }
}

/// Appends the digit `d` to `s`.
fn push_digit(s: &mut String, d: u64)
    requires
        d <= 9,
    ensures
        final(s)@ == old(s)@.push(digit_char(d as int)),
{
    proof {
        reveal_strlit("0");
        reveal_strlit("1");
        reveal_strlit("2");
        reveal_strlit("3");
        reveal_strlit("4");
        reveal_strlit("5");
        reveal_strlit("6");
        reveal_strlit("7");
        reveal_strlit("8");
        reveal_strlit("9");
    }
    match d {
        0 => s.append("0"),
        1 => s.append("1"),
        2 => s.append("2"),
        3 => s.append("3"),
        4 => s.append("4"),
        5 => s.append("5"),
        6 => s.append("6"),
        7 => s.append("7"),
        8 => s.append("8"),
        _ => s.append("9"),
    }
    proof {
        assert(final(s)@ =~= old(s)@.push(digit_char(d as int)));
    }
}

/// Writes `n` in decimal, most significant digit first, without a
/// leading zero.
pub fn u64_to_dec(n: u64) -> (r: String)
    ensures
        all_digits(r@),
        r@.len() >= 1,
        digits_val(r@) == n as int,
        n >= 10 ==> r@[0] != '0',
        n < 10 ==> r@.len() == 1,
    decreases n,
{
    if n <= 9 {
        let mut s = String::new();
        push_digit(&mut s, n);
        proof {
            assert(digit_char(n as int) as u32 == 48 + n);
            assert(s@.drop_last() =~= Seq::<char>::empty());
            assert(digits_val(Seq::<char>::empty()) == 0);
        }
        s
    } else {
        let mut s = u64_to_dec(n / 10);
        let ghost pre = s@;
        push_digit(&mut s, n % 10);
        proof {
            assert(s@.drop_last() =~= pre);
            assert(digit_char((n % 10) as int) as u32 == 48 + n % 10);
            assert(digits_val(s@) == digits_val(pre) * 10 + (n % 10));
            assert(s@[0] == pre[0]);
            if n / 10 < 10 {
                assert(pre.len() == 1);
                assert(digits_val(pre) == (pre[0] as u32 - 48));
                assert(pre[0] as u32 >= 49);
                assert('0' as u32 == 48) by {
                    reveal_strlit("0");
                }
                assert(pre[0] != '0');
            }
        }
        s
    }
}

/// A string of `length` random decimal digits, used as account handles
/// and passwords.  (The name is historical: the digits are decimal.)
pub fn random_hex(length: usize) -> (r: String)
    ensures
        r@.len() == length as nat,
        all_digits(r@),
{
    let mut s = String::new();
    let mut have: usize = 0;
    while have < length
        invariant
            have == s@.len(),
            all_digits(s@),
            have <= length,
        decreases length - have,
    {
        let d = random_u64() % 10;
        push_digit(&mut s, d);
        proof {
            assert(digit_char(d as int) as u32 == 48 + d);
            assert(is_digit_char(digit_char(d as int)));
        }
        have = have + 1;
    }
    s
}

} // verus!
