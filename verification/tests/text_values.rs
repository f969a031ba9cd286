use celeste_stats::duration::Duration;
use celeste_stats::textparse::{decimal_string, parse_bool, parse_u32, parse_u64};

#[test]
fn parse_u64_reads_plain_digit_strings() {
    assert_eq!(parse_u64("0"), Some(0));
    assert_eq!(parse_u64("007"), Some(7));
    assert_eq!(parse_u64("12345678"), Some(12345678));
    assert_eq!(parse_u64("18446744073709551615"), Some(u64::MAX));
}

#[test]
fn parse_u64_rejects_everything_else() {
    assert_eq!(parse_u64(""), None);
    assert_eq!(parse_u64("18446744073709551616"), None);
    assert_eq!(parse_u64("99999999999999999999999"), None);
    assert_eq!(parse_u64("-1"), None);
    assert_eq!(parse_u64("+1"), None);
    assert_eq!(parse_u64("1 "), None);
    assert_eq!(parse_u64("1a"), None);
}

#[test]
fn parse_u32_enforces_its_width() {
    assert_eq!(parse_u32("4294967295"), Some(u32::MAX));
    assert_eq!(parse_u32("4294967296"), None);
    assert_eq!(parse_u32("57"), Some(57));
}

#[test]
fn parse_bool_accepts_only_the_two_literals() {
    assert_eq!(parse_bool("true"), Some(true));
    assert_eq!(parse_bool("false"), Some(false));
    assert_eq!(parse_bool("True"), None);
    assert_eq!(parse_bool("1"), None);
    assert_eq!(parse_bool(""), None);
}

#[test]
fn decimal_rendering_round_trips() {
    assert_eq!(decimal_string(0), "0");
    assert_eq!(decimal_string(7), "7");
    assert_eq!(decimal_string(175), "175");
    assert_eq!(decimal_string(4294967295), "4294967295");
}

#[test]
fn ticks_convert_by_a_factor_of_one_hundred() {
    assert_eq!(Duration::from_ticks(0).nanos, 0);
    assert_eq!(Duration::from_ticks(1).nanos, 100);
    assert_eq!(Duration::from_ticks(12345678).nanos, 1234567800);
    assert_eq!(Duration::from_ticks(u64::MAX).nanos, (u64::MAX as u128) * 100);
}

#[test]
fn timer_rendering_matches_the_game_layout() {
    let sec = 1_000_000_000u128;
    assert_eq!(Duration::from_nanos(0).formatted(), format!("{:>13}", "0 "));
    assert_eq!(Duration::from_nanos(500_000_000).formatted(), format!("{:>13}", ".500s"));
    assert_eq!(Duration::from_nanos(12 * sec + 345_000_000).formatted(), format!("{:>13}", "12.345s"));
    assert_eq!(Duration::from_nanos(2 * 60 * sec + 5 * sec).formatted(), format!("{:>13}", " 2m05.000s"));
    assert_eq!(
        Duration::from_nanos(3600 * sec + 2 * 60 * sec + 3 * sec + 4_000_000).formatted(),
        " 1h02m03.004s",
    );
    assert_eq!(Duration::from_nanos(90 * 60 * sec).formatted(), " 1h30m00.000s");
}

#[test]
fn duration_addition_is_checked() {
    let a = Duration::from_nanos(u128::MAX - 1);
    assert_eq!(a.checked_add(Duration::from_nanos(1)).unwrap().nanos, u128::MAX);
    assert_eq!(a.checked_add(Duration::from_nanos(2)), None);
}
