use inference_bridge::stats::{push_decimal, push_fixed2, push_rate, push_seconds};

fn seconds(nanos: u64) -> String {
    let mut s = String::new();
    push_seconds(&mut s, nanos);
    s
}

fn rate(tokens: usize, nanos: u64) -> String {
    let mut s = String::new();
    push_rate(&mut s, tokens, nanos);
    s
}

fn decimal(n: u128) -> String {
    let mut s = String::new();
    push_decimal(&mut s, n);
    s
}

#[test]
fn decimal_has_no_leading_zeros() {
    assert_eq!(decimal(0), "0");
    assert_eq!(decimal(7), "7");
    assert_eq!(decimal(10), "10");
    assert_eq!(decimal(1234567890), "1234567890");
    assert_eq!(decimal(u128::MAX), u128::MAX.to_string());
}

#[test]
fn decimal_appends_to_what_is_there() {
    let mut s = String::from("n=");
    push_decimal(&mut s, 42);
    assert_eq!(s, "n=42");
}

#[test]
fn fixed2_keeps_two_places() {
    let mut s = String::new();
    push_fixed2(&mut s, 0);
    assert_eq!(s, "0.00");
    let mut s = String::new();
    push_fixed2(&mut s, 7);
    assert_eq!(s, "0.07");
    let mut s = String::new();
    push_fixed2(&mut s, 120);
    assert_eq!(s, "1.20");
    let mut s = String::new();
    push_fixed2(&mut s, 123456);
    assert_eq!(s, "1234.56");
}

#[test]
fn seconds_round_to_nearest_hundredth() {
    assert_eq!(seconds(0), "0.00");
    assert_eq!(seconds(4_999_999), "0.00");
    assert_eq!(seconds(5_000_000), "0.01");
    assert_eq!(seconds(10_000_000), "0.01");
    assert_eq!(seconds(14_999_999), "0.01");
    assert_eq!(seconds(15_000_000), "0.02");
    assert_eq!(seconds(1_234_567_890), "1.23");
    assert_eq!(seconds(1_995_000_000), "2.00");
    assert_eq!(seconds(60_000_000_000), "60.00");
    assert_eq!(seconds(u64::MAX), "18446744073.71");
}

#[test]
fn seconds_agree_with_float_formatting() {
    for nanos in [0u64, 10_000_000, 250_000_000, 1_500_000_000, 12_340_000_000] {
        let secs = nanos as f64 / 1e9;
        assert_eq!(seconds(nanos), format!("{:.2}", secs));
    }
}

#[test]
fn rate_is_tokens_per_second() {
    assert_eq!(rate(2, 500_000_000), "4.00");
    assert_eq!(rate(7, 3_000_000_000), "2.33");
    assert_eq!(rate(2, 3_000_000_000), "0.67");
    assert_eq!(rate(1, 8_000_000_000), "0.13");
    assert_eq!(rate(0, 1_000_000_000), "0.00");
    assert_eq!(rate(100, 1), "100000000000.00");
    assert_eq!(rate(1, 1_000_000_000), "1.00");
    assert_eq!(rate(usize::MAX, 1_000_000_000), format!("{}.00", usize::MAX));
}

#[test]
fn rate_without_elapsed_time_is_inf() {
    assert_eq!(rate(3, 0), "inf");
    assert_eq!(rate(0, 0), "inf");
}
