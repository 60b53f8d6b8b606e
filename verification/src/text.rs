//! Verified text utilities: whitespace tokenization, decimal numbers,
//! trimming and substring search, as the judge's verdict records need
//! them.

use vstd::prelude::*;
use vstd::string::StrSliceExecFns;

verus! {

/// ASCII whitespace, as the metadata records use it.
pub open spec fn is_space_char(c: char) -> bool {
    c == ' ' || c == '\t' || c == '\n' || c == '\r'
}

/// Whether `c` is ASCII whitespace.
pub fn is_space(c: char) -> (r: bool)
    ensures
        r == is_space_char(c),
{
    c == ' ' || c == '\t' || c == '\n' || c == '\r'
}

/// A decimal digit.
pub open spec fn is_digit_char(c: char) -> bool {
    48 <= c as u32 <= 57
}

/// Every character of `s` is a decimal digit.
pub open spec fn all_digits(s: Seq<char>) -> bool {
    forall|i: int| 0 <= i < s.len() ==> is_digit_char(#[trigger] s[i])
}

/// The number a digit string denotes, most significant digit first.
pub open spec fn digits_val(s: Seq<char>) -> int
    decreases s.len(),
{
    if s.len() == 0 {
        0
    } else {
        digits_val(s.drop_last()) * 10 + (s.last() as u32 - 48)
    }
}

/// The value of a digit string is never negative.
pub proof fn lemma_digits_val_nonneg(s: Seq<char>)
    requires
        all_digits(s),
    ensures
        digits_val(s) >= 0,
    decreases s.len(),
{
    if s.len() > 0 {
        assert(all_digits(s.drop_last()));
        lemma_digits_val_nonneg(s.drop_last());
    }
}

/// On an all-digit string, the value of a prefix never exceeds the
/// value of the whole.
pub proof fn lemma_digits_val_prefix(s: Seq<char>, i: int)
    requires
        0 <= i <= s.len(),
        all_digits(s),
    ensures
        digits_val(s.subrange(0, i)) <= digits_val(s),
    decreases s.len() - i,
{
    if i < s.len() {
        lemma_digits_val_prefix(s, i + 1);
        assert(s.subrange(0, i + 1).drop_last() =~= s.subrange(0, i));
        assert(all_digits(s.subrange(0, i)));
        lemma_digits_val_nonneg(s.subrange(0, i));
    } else {
        assert(s.subrange(0, s.len() as int) =~= s);
    }
}

/// Position of the first non-space character at or after `i`.
pub open spec fn skip_spaces(s: Seq<char>, i: int) -> int
    decreases s.len() - i,
        when 0 <= i <= s.len()
{
    if i < s.len() && is_space_char(s[i]) {
        skip_spaces(s, i + 1)
    } else {
        i
    }
}

/// Position of the first space character at or after `i`.
pub open spec fn token_end(s: Seq<char>, i: int) -> int
    decreases s.len() - i,
        when 0 <= i <= s.len()
{
    if i < s.len() && !is_space_char(s[i]) {
        token_end(s, i + 1)
    } else {
        i
    }
}

pub proof fn lemma_skip_spaces(s: Seq<char>, i: int)
    requires
        0 <= i <= s.len(),
    ensures
        i <= skip_spaces(s, i) <= s.len(),
        skip_spaces(s, i) < s.len() ==> !is_space_char(s[skip_spaces(s, i)]),
        forall|k: int| i <= k < skip_spaces(s, i) ==> is_space_char(#[trigger] s[k]),
    decreases s.len() - i,
{
    if i < s.len() && is_space_char(s[i]) {
        lemma_skip_spaces(s, i + 1);
    }
}

pub proof fn lemma_token_end(s: Seq<char>, i: int)
    requires
        0 <= i <= s.len(),
    ensures
        i <= token_end(s, i) <= s.len(),
        token_end(s, i) < s.len() ==> is_space_char(s[token_end(s, i)]),
        forall|k: int| i <= k < token_end(s, i) ==> !is_space_char(#[trigger] s[k]),
    decreases s.len() - i,
{
    if i < s.len() && !is_space_char(s[i]) {
        lemma_token_end(s, i + 1);
    }
}

/// The whitespace-separated tokens of `s` from position `i` on.
pub open spec fn tokens_from(s: Seq<char>, i: int) -> Seq<Seq<char>>
    decreases s.len() - i,
        when 0 <= i <= s.len()
        via tokens_from_decreases
{
    let j = skip_spaces(s, i);
    if j >= s.len() {
        Seq::empty()
    } else {
        seq![s.subrange(j, token_end(s, j))] + tokens_from(s, token_end(s, j))
    }
}

#[via_fn]
proof fn tokens_from_decreases(s: Seq<char>, i: int) {
    lemma_skip_spaces(s, i);
    let j = skip_spaces(s, i);
    if j < s.len() {
        lemma_token_end(s, j);
        assert(token_end(s, j) > j);
    }
}

/// The whitespace-separated tokens of `s`, in order, each non-empty
/// and free of whitespace.
pub open spec fn spec_tokens(s: Seq<char>) -> Seq<Seq<char>> {
    tokens_from(s, 0)
}

/// Splits a string at ASCII whitespace, like the metadata records are
/// read.
pub fn split_ws(s: &str) -> (tokens: Vec<String>)
    ensures
        tokens@.map_values(|t: String| t@) == spec_tokens(s@),
{
    let n = s.unicode_len();
    let mut tokens: Vec<String> = Vec::new();
    let mut i: usize = 0;
    proof {
        lemma_skip_spaces(s@, 0);
    }
    while i < n
        invariant
            0 <= i <= n,
            n == s@.len(),
            tokens@.map_values(|t: String| t@) + tokens_from(s@, i as int) =~= spec_tokens(s@),
        decreases n - i,
    {
        let c = s.get_char(i);
        if is_space(c) {
            proof {
                assert(skip_spaces(s@, i as int) == skip_spaces(s@, i as int + 1));
                assert(tokens_from(s@, i as int) == tokens_from(s@, i as int + 1));
            }
            i = i + 1;
        } else {
            // `i` starts a token; find its end.
            let ghost start = i as int;
            proof {
                assert(skip_spaces(s@, start) == start);
                lemma_token_end(s@, start);
            }
            let mut j: usize = i + 1;
            while j < n
                invariant
                    0 <= start < j <= n,
                    n == s@.len(),
                    token_end(s@, start) == token_end(s@, j as int),
                    forall|k: int| start <= k < j ==> !is_space_char(#[trigger] s@[k]),
                ensures
                    start < j <= n,
                    j as int == token_end(s@, start),
                decreases n - j,
            {
                let cj = s.get_char(j);
                if is_space(cj) {
                    proof {
                        assert(token_end(s@, j as int) == j as int);
                    }
                    break ;
                }
                proof {
                    assert(token_end(s@, j as int) == token_end(s@, j as int + 1));
                }
                j = j + 1;
            }
            let tok = s.substring_char(i, j).to_owned();
            proof {
                let prev = tokens@.map_values(|t: String| t@);
                assert(tokens_from(s@, start) == seq![s@.subrange(start, j as int)] + tokens_from(
                    s@,
                    j as int,
                ));
                assert((tokens@ + seq![tok]).map_values(|t: String| t@) =~= prev + seq![tok@]);
                lemma_skip_spaces(s@, j as int);
            }
            tokens.push(tok);
            i = j;
            proof {
                assert(tokens@.map_values(|t: String| t@) + tokens_from(s@, i as int) =~= spec_tokens(
                    s@,
                ));
            }
        }
    }
    proof {
        assert(tokens_from(s@, n as int) =~= Seq::<Seq<char>>::empty());
    }
    tokens
}

/// Parses a non-empty all-digit string as a `usize`; anything else,
/// and a value that does not fit, is refused.
pub fn parse_usize(s: &str) -> (r: Option<usize>)
    ensures
        match r {
            Some(v) => s@.len() > 0 && all_digits(s@) && v == digits_val(s@),
            None => s@.len() == 0 || !all_digits(s@) || digits_val(s@) > usize::MAX,
        },
{
    let n = s.unicode_len();
    if n == 0 {
        return None;
    }
    let mut acc: usize = 0;
    let mut i: usize = 0;
    while i < n
        invariant
            0 < n == s@.len(),
            0 <= i <= n,
            all_digits(s@.subrange(0, i as int)),
            acc == digits_val(s@.subrange(0, i as int)),
        decreases n - i,
    {
        let c = s.get_char(i);
        let d = c as u32;
        if d < 48 || d > 57 {
            assert(!is_digit_char(s@[i as int]));
            return None;
        }
        let dv = (d - 48) as usize;
        if acc > (usize::MAX - dv) / 10 {
            proof {
                assert(s@.subrange(0, i as int + 1).drop_last() =~= s@.subrange(0, i as int));
                assert(digits_val(s@.subrange(0, i as int + 1)) == acc * 10 + dv);
                assert(acc * 10 + dv > usize::MAX) by (nonlinear_arith)
                    requires
                        acc > (usize::MAX - dv) / 10,
                        dv <= 9,
                ;
                if all_digits(s@) {
                    lemma_digits_val_prefix(s@, i as int + 1);
                }
            }
            return None;
        }
        proof {
            assert(acc * 10 + dv <= usize::MAX) by (nonlinear_arith)
                requires
                    acc <= (usize::MAX - dv) / 10,
                    dv <= 9,
            ;
            assert(s@.subrange(0, i as int + 1).drop_last() =~= s@.subrange(0, i as int));
        }
        acc = acc * 10 + dv;
        i = i + 1;
    }
    proof {
        assert(s@.subrange(0, n as int) =~= s@);
    }
    Some(acc)
}

/// `s` without leading and trailing ASCII whitespace.
pub open spec fn spec_trim(s: Seq<char>) -> Seq<char> {
    let a = skip_spaces(s, 0);
    let b = rskip_spaces(s, s.len() as int);
    if a <= b {
        s.subrange(a, b)
    } else {
        Seq::empty()
    }
}

/// Position after the last non-space character strictly before `i`.
pub open spec fn rskip_spaces(s: Seq<char>, i: int) -> int
    decreases i,
        when 0 <= i <= s.len()
{
    if i > 0 && is_space_char(s[i - 1]) {
        rskip_spaces(s, i - 1)
    } else {
        i
    }
}

pub proof fn lemma_rskip_spaces(s: Seq<char>, i: int)
    requires
        0 <= i <= s.len(),
    ensures
        0 <= rskip_spaces(s, i) <= i,
        rskip_spaces(s, i) > 0 ==> !is_space_char(s[rskip_spaces(s, i) - 1]),
        forall|k: int| rskip_spaces(s, i) <= k < i ==> is_space_char(#[trigger] s[k]),
    decreases i,
{
    if i > 0 && is_space_char(s[i - 1]) {
        lemma_rskip_spaces(s, i - 1);
    }
}

/// Removes leading and trailing ASCII whitespace, as chunk payloads
/// are cleaned before reassembly.
pub fn trim(s: &str) -> (r: &str)
    ensures
        r@ == spec_trim(s@),
{
    let n = s.unicode_len();
    let mut a: usize = 0;
    proof {
        lemma_skip_spaces(s@, 0);
    }
    while a < n && is_space(s.get_char(a))
        invariant
            0 <= a <= n,
            n == s@.len(),
            skip_spaces(s@, 0) == skip_spaces(s@, a as int),
        decreases n - a,
    {
        a = a + 1;
    }
    assert(a as int == skip_spaces(s@, 0));
    let mut b: usize = n;
    proof {
        lemma_rskip_spaces(s@, n as int);
    }
    while b > 0 && is_space(s.get_char(b - 1))
        invariant
            0 <= b <= n,
            n == s@.len(),
            rskip_spaces(s@, n as int) == rskip_spaces(s@, b as int),
        decreases b,
    {
        b = b - 1;
    }
    assert(b as int == rskip_spaces(s@, n as int));
    if a <= b {
        s.substring_char(a, b)
    } else {
        proof {
            reveal_strlit("");
        }
        ""
    }
}

/// `needle` occurs in `hay` as a contiguous run.
pub open spec fn contains_seq(hay: Seq<char>, needle: Seq<char>) -> bool {
    exists|i: int|
        0 <= i && i + needle.len() <= hay.len() && #[trigger] hay.subrange(i, i + needle.len())
            == needle
}

/// Substring search, as the judge's verdict field is probed for its
/// waiting marker.
pub fn str_contains(hay: &str, needle: &str) -> (r: bool)
    ensures
        r == contains_seq(hay@, needle@),
{
    let hn = hay.unicode_len();
    let nn = needle.unicode_len();
    if nn > hn {
        return false;
    }
    if nn == 0 {
        proof {
            assert(hay@.subrange(0, 0 + needle@.len() as int) =~= needle@);
        }
        return true;
    }
    let mut i: usize = 0;
    while i <= hn - nn
        invariant
            0 <= i <= hn - nn + 1,
            0 < nn <= hn,
            hn == hay@.len(),
            nn == needle@.len(),
            forall|p: int| 0 <= p < i ==> #[trigger] hay@.subrange(p, p + needle@.len()) != needle@,
        decreases hn - nn + 1 - i,
    {
        let mut j: usize = 0;
        let mut matched = true;
        while j < nn
            invariant
                0 <= j <= nn,
                0 <= i <= hn - nn,
                hn == hay@.len(),
                nn == needle@.len(),
                matched ==> forall|q: int| 0 <= q < j ==> hay@[i + q] == needle@[q],
                !matched ==> hay@.subrange(i as int, i + needle@.len()) != needle@,
            decreases nn - j,
        {
            if hay.get_char(i + j) != needle.get_char(j) {
                proof {
                    assert(hay@.subrange(i as int, i + needle@.len())[j as int] != needle@[j as int]);
                }
                matched = false;
                j = nn;
            } else {
                j = j + 1;
            }
        }
        if matched {
            proof {
                assert(hay@.subrange(i as int, i + needle@.len()) =~= needle@);
            }
            return true;
        }
        i = i + 1;
    }
    proof {
        assert forall|p: int| 0 <= p && p + needle@.len() <= hay@.len() implies #[trigger] hay@.subrange(
            p,
            p + needle@.len(),
        ) != needle@ by {
            assert(p < i);
        }
    }
    false
}

} // verus!
