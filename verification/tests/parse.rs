use cf_downloader::account::generate_account;
use cf_downloader::encoding::probe::{next_usize, Error as ProbeError, Meta};
use cf_downloader::judge::{make_verdict, poll_status, Error as JudgeError, Kind};
use cf_downloader::problem::{get_problem_url, Problem, Type};
use cf_downloader::random::{random_hex, u64_to_dec};
use cf_downloader::retry::retry_decision;
use cf_downloader::text::{parse_usize, split_ws, str_contains, trim};
use cf_downloader::verdict::{full_data_or, Verdict};

fn meta_verdict(output: &str) -> Verdict {
    Verdict { input: None, output: String::from(output), answer: Some(String::from("42")) }
}

#[test]
fn decode_reads_the_record() {
    let m = Meta::decode(meta_verdict(" 12\t1200  800\nabcdef tail ")).unwrap();
    assert_eq!(m.size, 12);
    assert_eq!(m.output_size, 1200);
    assert_eq!(m.compress_size, 800);
    assert_eq!(m.data_id.hash, "abcdef");
    assert_eq!(m.data_id.answer.as_deref(), Some("42"));
    assert_eq!(m.input, None);
}

#[test]
fn decode_keeps_inline_input() {
    let v = Verdict {
        input: Some(String::from("1 2")),
        output: String::from("3 4 5 h"),
        answer: None,
    };
    let m = Meta::decode(v).unwrap();
    assert_eq!(m.input.as_deref(), Some("1 2"));
    assert_eq!(m.data_id.answer, None);
}

#[test]
fn decode_names_missing_fields() {
    assert!(matches!(Meta::decode(meta_verdict("")), Err(ProbeError::Split("size"))));
    assert!(matches!(Meta::decode(meta_verdict("12")), Err(ProbeError::Split("output_size"))));
    assert!(matches!(Meta::decode(meta_verdict("12 13")), Err(ProbeError::Split("compress_size"))));
    assert!(matches!(Meta::decode(meta_verdict("12 13 14")), Err(ProbeError::Split("hash"))));
}

#[test]
fn decode_names_malformed_fields() {
    assert!(matches!(Meta::decode(meta_verdict("x 13 14 h")), Err(ProbeError::ParseInt("size"))));
    assert!(matches!(
        Meta::decode(meta_verdict("12 1a3 14 h")),
        Err(ProbeError::ParseInt("output_size"))
    ));
    assert!(matches!(
        Meta::decode(meta_verdict("12 13 99999999999999999999999 h")),
        Err(ProbeError::ParseInt("compress_size"))
    ));
}

#[test]
fn next_usize_walks_tokens() {
    let tokens = vec![String::from("7"), String::from("bad")];
    let mut pos = 0usize;
    assert_eq!(next_usize(&tokens, &mut pos, "first").unwrap(), 7);
    assert_eq!(pos, 1);
    assert!(matches!(next_usize(&tokens, &mut pos, "second"), Err(ProbeError::ParseInt("second"))));
    pos = 2;
    assert!(matches!(next_usize(&tokens, &mut pos, "third"), Err(ProbeError::Split("third"))));
}

#[test]
fn parse_usize_exactly() {
    assert_eq!(parse_usize("0"), Some(0));
    assert_eq!(parse_usize("123456"), Some(123456));
    assert_eq!(parse_usize(""), None);
    assert_eq!(parse_usize("12a"), None);
    assert_eq!(parse_usize("-3"), None);
    assert_eq!(parse_usize("99999999999999999999999"), None);
}

#[test]
fn split_ws_tokenizes() {
    let tokens = split_ws("  a\tbb \n ccc ");
    let views: Vec<&str> = tokens.iter().map(|t| t.as_str()).collect();
    assert_eq!(views, ["a", "bb", "ccc"]);
    assert!(split_ws("   ").is_empty());
    assert!(split_ws("").is_empty());
}

#[test]
fn trim_strips_ascii_whitespace() {
    assert_eq!(trim("  x y\t\n"), "x y");
    assert_eq!(trim("xy"), "xy");
    assert_eq!(trim(" \t\r\n"), "");
}

#[test]
fn str_contains_finds_runs() {
    assert!(str_contains("<span class='verdict-waiting'>", "verdict-waiting"));
    assert!(!str_contains("verdict-ok", "verdict-waiting"));
    assert!(str_contains("abc", ""));
    assert!(!str_contains("ab", "abc"));
}

#[test]
fn full_data_or_keeps_short_literals() {
    let short = "x".repeat(500);
    assert_eq!(full_data_or(short.clone()).as_deref(), Some(short.as_str()));
    let long = "x".repeat(501);
    assert_eq!(full_data_or(long), None);
}

#[test]
fn poll_status_waiting() {
    assert_eq!(poll_status("verdict-waiting", "whatever", 3).unwrap(), None);
}

#[test]
fn poll_status_matching_count() {
    assert_eq!(poll_status("verdict-accepted", "3", 3).unwrap(), Some(3));
}

#[test]
fn poll_status_count_mismatch() {
    let err = poll_status("verdict-accepted", "4", 3).unwrap_err();
    assert!(matches!(err.kind, Kind::TestCount(4, 3)));
}

#[test]
fn poll_status_malformed_count() {
    let err = poll_status("verdict-accepted", "4x", 3).unwrap_err();
    assert!(matches!(err.kind, Kind::Api));
    assert_eq!(err.description.as_deref(), Some("malformed test count"));
}

#[test]
fn make_verdict_applies_size_limit() {
    let long = "y".repeat(501);
    let v = make_verdict(String::from("in"), String::from("out"), long);
    assert_eq!(v.input.as_deref(), Some("in"));
    assert_eq!(v.output, "out");
    assert_eq!(v.answer, None);
}

#[test]
fn u64_to_dec_writes_decimal() {
    assert_eq!(u64_to_dec(0), "0");
    assert_eq!(u64_to_dec(7), "7");
    assert_eq!(u64_to_dec(12345), "12345");
    assert_eq!(u64_to_dec(u64::MAX), "18446744073709551615");
}

#[test]
fn random_hex_length_and_digits() {
    let s = random_hex(10);
    assert_eq!(s.len(), 10);
    assert!(s.chars().all(|c| c.is_ascii_digit()));
    assert_eq!(random_hex(0), "");
}

#[test]
fn retry_decision_backoff() {
    assert_eq!(retry_decision(0, false), Some(200));
    assert_eq!(retry_decision(0, true), Some(120_000));
    assert_eq!(retry_decision(8, false), Some(200));
    assert_eq!(retry_decision(9, false), None);
    assert_eq!(retry_decision(9, true), None);
}

#[test]
fn problem_urls_are_derived() {
    let p = Problem::new(Type::Contest, String::from("1337"), String::from("C"));
    assert_eq!(p.submit_url, "https://codeforces.com/contest/1337/submit");
    assert_eq!(p.status_url, "https://codeforces.com/contest/1337/status");
    assert_eq!(
        get_problem_url(Type::Contest, "1337", "C"),
        "https://codeforces.com/contest/1337/problem/C"
    );
}

#[test]
fn problem_equality_is_structural() {
    let a = Problem::new(Type::Contest, String::from("100"), String::from("A"));
    let b = a.clone();
    assert!(a == b);
    let c = Problem::new(Type::Contest, String::from("100"), String::from("B"));
    assert!(a != c);
    let d = Problem::new(Type::Gym, String::from("100"), String::from("A"));
    assert!(a != d);
}

#[test]
fn generated_accounts_have_configured_lengths() {
    let acc = generate_account();
    assert_eq!(acc.handle.len(), 10);
    assert_eq!(acc.password.len(), 10);
    assert!(acc.proxy.is_none());
    assert!(acc.handle.chars().all(|c| c.is_ascii_digit()));
}

#[test]
fn judge_error_constructors() {
    let e = JudgeError::with_kind(Kind::Network(String::from("reset")));
    assert!(matches!(e.kind, Kind::Network(_)));
    assert!(e.description.is_none());
    let e = JudgeError::with_description(Kind::Regex, String::from("no match"));
    assert!(matches!(e.kind, Kind::Regex));
    assert_eq!(e.description.as_deref(), Some("no match"));
    assert!(matches!(JudgeError::with_kind(Kind::Builder(String::new())).kind, Kind::Builder(_)));
    assert!(matches!(JudgeError::with_kind(Kind::Csrf(String::new())).kind, Kind::Csrf(_)));
    assert!(matches!(JudgeError::with_kind(Kind::Email(String::new())).kind, Kind::Email(_)));
    assert!(matches!(JudgeError::with_kind(Kind::Api).kind, Kind::Api));
}
