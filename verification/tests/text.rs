use local_agent::mint::now_timestamp;
use local_agent::mint::timestamp_from;
use local_agent::mint::timestamp_of;
use local_agent::text::join;
use local_agent::text::push_decimal;
use local_agent::text::push_signed_decimal;
use local_agent::text::same;
use local_agent::text::truncate_for_log;

#[test]
fn clipping_keeps_what_fits() {
    assert_eq!(truncate_for_log("abc", 3), "abc");
    assert_eq!(truncate_for_log("abcd", 3), "abc");
    assert_eq!(truncate_for_log("abc", 0), "");
    assert_eq!(truncate_for_log("", 5), "");
}

#[test]
fn clipping_never_cuts_a_character() {
    assert_eq!(truncate_for_log("a\u{e9}b", 2), "a");
    assert_eq!(truncate_for_log("a\u{e9}b", 3), "a\u{e9}");
    assert_eq!(truncate_for_log("\u{1f600}", 3), "");
    assert_eq!(truncate_for_log("\u{20ac}\u{20ac}", 5), "\u{20ac}");
}

#[test]
fn joining() {
    let parts = vec!["a".to_string(), "".to_string(), "b".to_string()];
    assert_eq!(join(&parts, ", "), "a, , b");
    assert_eq!(join(&vec![], ", "), "");
}

#[test]
fn decimals() {
    let mut out = String::from("n=");
    push_decimal(&mut out, 0);
    push_decimal(&mut out, u64::MAX);
    assert_eq!(out, "n=018446744073709551615");
    let mut out = String::new();
    push_signed_decimal(&mut out, i32::MIN);
    push_signed_decimal(&mut out, 10);
    push_signed_decimal(&mut out, -3);
    assert_eq!(out, "-214748364810-3");
}

#[test]
fn comparing() {
    assert!(same("a", "a"));
    assert!(!same("a", "A"));
    assert!(!same("a", ""));
}

#[test]
fn timestamps() {
    let t = timestamp_of(3, 4);
    assert_eq!((t.seconds, t.nanos), (3, 4));
    let t = timestamp_of(u64::MAX, 999_999_999);
    assert_eq!((t.seconds, t.nanos), (-1, 999_999_999));
    assert!(now_timestamp().seconds > 1_600_000_000);
}

#[test]
fn clock_readings() {
    let t = timestamp_from(Some((1_700_000_000, 5)));
    assert_eq!((t.seconds, t.nanos), (1_700_000_000, 5));
    let t = timestamp_from(None);
    assert_eq!((t.seconds, t.nanos), (0, 0));
}
