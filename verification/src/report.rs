//! Shortfall report extraction.
//!
//! A relay-level failure message with the recognizable "insufficient
//! funds" shape is pattern-matched into an actionable report: the wallet
//! address and the additional ETH it needs, computed in wei and printed
//! with eighteen decimal places.  All searching, parsing and formatting is
//! done here, character by character, with exact contracts.

use vstd::prelude::*;
use vstd::string::*;

verus! {

/// One wei-per-ETH: ten to the eighteenth.
pub const WEI_PER_ETH: u128 = 1_000_000_000_000_000_000;

/// `pat` occurs in `s` starting at position `i`.
pub open spec fn spec_match_at(s: Seq<char>, pat: Seq<char>, i: int) -> bool {
    0 <= i && i + pat.len() <= s.len() && (forall|j: int| 0 <= j < pat.len() ==> s[i + j] == pat[j])
}

/// The first position at or after `from` where `pat` occurs in `s`.
pub open spec fn spec_find_from(s: Seq<char>, pat: Seq<char>, from: int) -> Option<int>
    decreases s.len() - from,
{
    if from < 0 || from + pat.len() > s.len() {
        None
    } else if spec_match_at(s, pat, from) {
        Some(from)
    } else {
        spec_find_from(s, pat, from + 1)
    }
}

/// Naive first-occurrence substring search over characters.
fn find_sub(s: &str, pat: &str, from: usize) -> (r: Option<usize>)
    ensures
        r matches Some(i) ==> from <= i && spec_match_at(s@, pat@, i as int) && spec_find_from(
            s@,
            pat@,
            from as int,
        ) == Some(i as int),
        r is None ==> spec_find_from(s@, pat@, from as int) is None,
{
    let n = s.unicode_len();
    let m = pat.unicode_len();
    if m > n || from > n - m {
        proof {
            lemma_find_from_none_past_end(s@, pat@, from as int);
        }
        return None;
    }
    let mut i: usize = from;
    while i <= n - m
        invariant
            n == s@.len(),
            m == pat@.len(),
            m <= n,
            from <= i <= n - m + 1,
            spec_find_from(s@, pat@, from as int) == spec_find_from(s@, pat@, i as int),
        decreases n + 1 - i,
    {
        let mut j: usize = 0;
        let mut matched = true;
        while j < m
            invariant
                n == s@.len(),
                m == pat@.len(),
                i + m <= n,
                0 <= j <= m,
                matched ==> forall|k: int| 0 <= k < j ==> s@[i + k] == pat@[k],
                !matched ==> !spec_match_at(s@, pat@, i as int),
            decreases m - j,
        {
            if s.get_char(i + j) != pat.get_char(j) {
                matched = false;
                proof {
                    assert(s@[i + j] != pat@[j as int]);
                }
                j = m;
            } else {
                j = j + 1;
            }
        }
        if matched {
            proof {
                assert(spec_match_at(s@, pat@, i as int));
            }
            return Some(i);
        }
        i = i + 1;
    }
    proof {
        lemma_find_from_none_past_end(s@, pat@, i as int);
    }
    None
}

proof fn lemma_find_from_none_past_end(s: Seq<char>, pat: Seq<char>, from: int)
    requires
        from + pat.len() > s.len() || from < 0,
    ensures
        from >= 0 ==> spec_find_from(s, pat, from) is None,
{
}

/// Whether `c` is a decimal digit.
pub open spec fn spec_is_digit(c: char) -> bool {
    48 <= c as u32 <= 57
}

/// Every character of the non-empty token is a decimal digit.
pub open spec fn spec_all_digits(s: Seq<char>) -> bool {
    s.len() > 0 && (forall|i: int| 0 <= i < s.len() ==> spec_is_digit(s[i]))
}

/// The decimal value of a digit string, most significant first.
pub open spec fn spec_dec_value(s: Seq<char>) -> int
    decreases s.len(),
{
    if s.len() == 0 {
        0
    } else {
        spec_dec_value(s.drop_last()) * 10 + (s.last() as u32 - 48)
    }
}

proof fn lemma_dec_value_nonneg(s: Seq<char>)
    requires
        forall|i: int| 0 <= i < s.len() ==> spec_is_digit(s[i]),
    ensures
        spec_dec_value(s) >= 0,
    decreases s.len(),
{
    if s.len() > 0 {
        lemma_dec_value_nonneg(s.drop_last());
    }
}

proof fn lemma_dec_value_prefix(s: Seq<char>, i: int)
    requires
        0 <= i <= s.len(),
        forall|k: int| 0 <= k < s.len() ==> spec_is_digit(s[k]),
    ensures
        spec_dec_value(s.take(i)) <= spec_dec_value(s),
    decreases s.len() - i,
{
    if i < s.len() {
        assert(s.take(i + 1).drop_last() =~= s.take(i));
        assert forall|k: int| 0 <= k < s.take(i).len() implies spec_is_digit(s.take(i)[k]) by {}
        lemma_dec_value_nonneg(s.take(i));
        assert(spec_dec_value(s.take(i + 1)) == spec_dec_value(s.take(i)) * 10 + (s[i] as u32
            - 48));
        lemma_dec_value_prefix(s, i + 1);
    } else {
        assert(s.take(i) =~= s);
    }
}

/// The wei amount a message token stands for: its decimal value when the
/// token is a plain number that fits the arithmetic, and zero for
/// anything else, mirroring a forgiving parse of a malformed message.
pub open spec fn spec_wei_value(tok: Seq<char>) -> int {
    if spec_all_digits(tok) && spec_dec_value(tok) <= u128::MAX {
        spec_dec_value(tok)
    } else {
        0
    }
}

/// Forgiving decimal parse: the token's value, or zero when the token is
/// empty, contains a non-digit, or overflows.
fn parse_wei(s: &str) -> (r: u128)
    ensures
        r as int == spec_wei_value(s@),
{
    let n = s.unicode_len();
    if n == 0 {
        return 0;
    }
    let mut acc: u128 = 0;
    let mut i: usize = 0;
    while i < n
        invariant
            n == s@.len(),
            0 <= i <= n,
            forall|k: int| 0 <= k < i ==> spec_is_digit(s@[k]),
            acc as int == spec_dec_value(s@.take(i as int)),
        decreases n - i,
    {
        let c = s.get_char(i);
        let cv = c as u32;
        if cv < 48 || cv > 57 {
            proof {
                assert(!spec_is_digit(s@[i as int]));
                assert(!spec_all_digits(s@));
            }
            return 0;
        }
        let d = (cv - 48) as u128;
        proof {
            assert(s@.take(i + 1).drop_last() =~= s@.take(i as int));
        }
        let scaled = match acc.checked_mul(10) {
            Some(x) => x,
            None => {
                proof {
                    lemma_overflow_means_big(s@, i as int, acc as int, d as int);
                }
                return 0;
            },
        };
        let next = match scaled.checked_add(d) {
            Some(x) => x,
            None => {
                proof {
                    lemma_overflow_means_big(s@, i as int, acc as int, d as int);
                }
                return 0;
            },
        };
        acc = next;
        i = i + 1;
    }
    proof {
        assert(s@.take(n as int) =~= s@);
    }
    acc
}

proof fn lemma_overflow_means_big(s: Seq<char>, i: int, acc: int, d: int)
    requires
        0 <= i < s.len(),
        forall|k: int| 0 <= k < i ==> spec_is_digit(s[k]),
        acc == spec_dec_value(s.take(i)),
        d == s[i] as u32 - 48,
        spec_is_digit(s[i]),
        acc * 10 + d > u128::MAX,
    ensures
        spec_wei_value(s) == 0,
{
    if spec_all_digits(s) {
        assert(s.take(i + 1).drop_last() =~= s.take(i));
        assert(spec_dec_value(s.take(i + 1)) == acc * 10 + d);
        lemma_dec_value_prefix(s, i + 1);
    }
}

/// The text between the first occurrence of `marker` and the next
/// occurrence of the one-character terminator `term`; empty when either
/// is missing.
pub open spec fn spec_token(s: Seq<char>, marker: Seq<char>, term: Seq<char>) -> Seq<char> {
    match spec_find_from(s, marker, 0) {
        Option::None => Seq::empty(),
        Option::Some(i) => {
            let start = i + marker.len();
            match spec_find_from(s, term, start) {
                Option::None => Seq::empty(),
                Option::Some(end) => s.subrange(start, end),
            }
        },
    }
}

/// Extract the token after `marker`, up to the terminator `term`.
fn extract_token(s: &str, marker: &str, term: &str) -> (r: String)
    requires
        term@.len() == 1,
    ensures
        r@ == spec_token(s@, marker@, term@),
{
    let n = s.unicode_len();
    match find_sub(s, marker, 0) {
        Option::None => String::new(),
        Option::Some(i) => {
            proof {
                assert(i + marker@.len() <= n);
            }
            let start = i + marker.unicode_len();
            match find_sub(s, term, start) {
                Option::None => String::new(),
                Option::Some(end) => {
                    let tok = s.substring_char(start, end);
                    tok.to_owned()
                },
            }
        },
    }
}

/// The digit character for a value below ten.
pub open spec fn spec_digit_char(d: int) -> char {
    if d == 0 {
        '0'
    } else if d == 1 {
        '1'
    } else if d == 2 {
        '2'
    } else if d == 3 {
        '3'
    } else if d == 4 {
        '4'
    } else if d == 5 {
        '5'
    } else if d == 6 {
        '6'
    } else if d == 7 {
        '7'
    } else if d == 8 {
        '8'
    } else {
        '9'
    }
}

fn digit_str(d: u128) -> (r: &'static str)
    requires
        d < 10,
    ensures
        r@ =~= seq![spec_digit_char(d as int)],
{
    proof {
        reveal_strlit("0");
        reveal_strlit("1");
        reveal_strlit("2");
        reveal_strlit("3");
        reveal_strlit("4");
        reveal_strlit("5");
        reveal_strlit("6");
        reveal_strlit("7");
        reveal_strlit("8");
        reveal_strlit("9");
    }
    match d {
        0 => "0",
        1 => "1",
        2 => "2",
        3 => "3",
        4 => "4",
        5 => "5",
        6 => "6",
        7 => "7",
        8 => "8",
        _ => "9",
    }
}

/// The decimal digits of `n`, most significant first, no leading zeros.
pub open spec fn spec_dec_digits(n: int) -> Seq<char>
    decreases n,
    when n >= 0
{
    if n < 10 {
        seq![spec_digit_char(n)]
    } else {
        spec_dec_digits(n / 10) + seq![spec_digit_char(n % 10)]
    }
}

/// Exactly `k` decimal digits of `n mod 10^k`, zero padded.
pub open spec fn spec_fixed_digits(n: int, k: int) -> Seq<char>
    decreases k,
{
    if k <= 0 {
        Seq::empty()
    } else {
        spec_fixed_digits(n / 10, k - 1) + seq![spec_digit_char(n % 10)]
    }
}

fn dec_digits(n: u128) -> (r: String)
    ensures
        r@ == spec_dec_digits(n as int),
    decreases n,
{
    if n < 10 {
        digit_str(n).to_owned()
    } else {
        let mut s = dec_digits(n / 10);
        s.append(digit_str(n % 10));
        s
    }
}

fn fixed_digits(n: u128, k: usize) -> (r: String)
    ensures
        r@ == spec_fixed_digits(n as int, k as int),
    decreases k,
{
    if k == 0 {
        String::new()
    } else {
        let mut s = fixed_digits(n / 10, k - 1);
        s.append(digit_str(n % 10));
        s
    }
}

/// The additional wei the reported wallet needs: the difference between
/// the message's "want" and "have" amounts, and zero when the message
/// claims no gap.
pub open spec fn spec_needed_wei(s: Seq<char>) -> int {
    let have = spec_wei_value(spec_token(s, "have "@, " "@));
    let want = spec_wei_value(spec_token(s, "want "@, ";"@));
    if want >= have {
        want - have
    } else {
        0
    }
}

/// A wei amount printed as ETH: the whole part, a point, and exactly
/// eighteen fractional digits.
pub open spec fn spec_eth_decimal(wei: int) -> Seq<char> {
    spec_dec_digits(wei / 1_000_000_000_000_000_000) + seq!['.'] + spec_fixed_digits(
        wei % 1_000_000_000_000_000_000,
        18,
    )
}

/// The full report line for a recognized message.
pub open spec fn spec_report(s: Seq<char>) -> Seq<char> {
    "Insufficient Funds Error: Wallet "@ + spec_token(s, "address "@, " "@)
        + " needs an additional "@ + spec_eth_decimal(spec_needed_wei(s))
        + " ETH to cover the transaction costs."@
}

/// Recognize a relay failure message describing an under-funded wallet
/// and turn it into an actionable report naming the wallet address and
/// the precise additional ETH it must be topped up with.
pub fn parse_insufficient_funds_message(msg: &str) -> (r: Option<String>)
    ensures
        r is Some <==> spec_find_from(msg@, "insufficient funds for gas"@, 0) is Some,
        r matches Some(m) ==> m@ == spec_report(msg@),
{
    proof {
        reveal_strlit(" ");
        reveal_strlit(";");
    }
    if find_sub(msg, "insufficient funds for gas", 0).is_none() {
        return None;
    }
    let address = extract_token(msg, "address ", " ");
    let have = parse_wei(extract_token(msg, "have ", " ").as_str());
    let want = parse_wei(extract_token(msg, "want ", ";").as_str());
    let needed: u128 = if want >= have {
        want - have
    } else {
        0
    };
    let mut out = "Insufficient Funds Error: Wallet ".to_owned();
    out.append(address.as_str());
    out.append(" needs an additional ");
    let whole = dec_digits(needed / WEI_PER_ETH);
    out.append(whole.as_str());
    out.append(".");
    let frac = fixed_digits(needed % WEI_PER_ETH, 18);
    out.append(frac.as_str());
    out.append(" ETH to cover the transaction costs.");
    proof {
        reveal_strlit(".");
        assert("."@ =~= seq!['.']);
        assert(out@ =~= spec_report(msg@));
    }
    Some(out)
}

} // verus!
