use graph_engine::fixed::{clamp_i128, isqrt_u128, sat_add, sat_mul};
use graph_engine::text::{
    append_md_suffix, milli_to_string, parse_u32, strip_md_suffix, u64_to_string,
};

#[test]
fn decimal_rendering_is_exact() {
    assert_eq!(u64_to_string(0), "0");
    assert_eq!(u64_to_string(7), "7");
    assert_eq!(u64_to_string(42), "42");
    assert_eq!(u64_to_string(1000), "1000");
    assert_eq!(u64_to_string(18_446_744_073_709_551_615), "18446744073709551615");
}

#[test]
fn parsing_accepts_digits_and_rejects_everything_else() {
    assert_eq!(parse_u32(&String::from("0")), Some(0));
    assert_eq!(parse_u32(&String::from("42")), Some(42));
    assert_eq!(parse_u32(&String::from("4294967295")), Some(u32::MAX));
    assert_eq!(parse_u32(&String::from("4294967296")), None);
    assert_eq!(parse_u32(&String::from("")), None);
    assert_eq!(parse_u32(&String::from("-3")), None);
    assert_eq!(parse_u32(&String::from("12a")), None);
    assert_eq!(parse_u32(&String::from("007")), Some(7));
}

#[test]
fn suffix_stripping_only_removes_the_known_suffix() {
    assert_eq!(strip_md_suffix(&String::from("notes.md")), "notes");
    assert_eq!(strip_md_suffix(&String::from("notes")), "notes");
    assert_eq!(strip_md_suffix(&String::from("a.md.md")), "a.md");
    assert_eq!(strip_md_suffix(&String::from(".md")), "");
    assert_eq!(strip_md_suffix(&String::from("md")), "md");
    assert_eq!(append_md_suffix(&String::from("notes")), "notes.md");
}

#[test]
fn integer_square_root_brackets_its_input() {
    assert_eq!(isqrt_u128(0), 0);
    assert_eq!(isqrt_u128(1), 1);
    assert_eq!(isqrt_u128(3), 1);
    assert_eq!(isqrt_u128(4), 2);
    assert_eq!(isqrt_u128(1_000_000), 1000);
    assert_eq!(isqrt_u128(999_999), 999);
    let big: u128 = (1u128 << 80) - 1;
    let r = isqrt_u128(big);
    assert!((r as u128) * (r as u128) <= big);
    assert!(((r as u128) + 1) * ((r as u128) + 1) > big);
}

#[test]
fn saturating_arithmetic_clamps_at_the_caps() {
    assert_eq!(sat_mul(1_000_000, 1_000_000, 1_000_000_000), 1_000_000_000);
    assert_eq!(sat_mul(-1_000_000, 1_000_000, 1_000_000_000), -1_000_000_000);
    assert_eq!(sat_mul(30, -7, 1_000_000_000), -210);
    assert_eq!(sat_add(i64::MAX, i64::MAX, 100), 100);
    assert_eq!(sat_add(5, 6, 100), 11);
    assert_eq!(clamp_i128(-5000, -10, 10), -10);
    assert_eq!(clamp_i128(3, -10, 10), 3);
}

#[test]
fn milli_rendering_drops_trailing_zeros() {
    assert_eq!(milli_to_string(0), "0");
    assert_eq!(milli_to_string(1000), "1");
    assert_eq!(milli_to_string(1500), "1.5");
    assert_eq!(milli_to_string(2500), "2.5");
    assert_eq!(milli_to_string(1050), "1.05");
    assert_eq!(milli_to_string(1005), "1.005");
    assert_eq!(milli_to_string(250), "0.25");
    assert_eq!(milli_to_string(12_345), "12.345");
}
