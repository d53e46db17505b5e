use jr::strutil::{
    i64_to_string, is_float_token, parse_i32, parse_u64, split_ws, str_eq, trim, u64_to_string,
};

#[test]
fn trim_and_equality() {
    assert_eq!(trim("  a b \t"), "a b");
    assert_eq!(trim(""), "");
    assert_eq!(trim(" \r\n "), "");
    assert!(str_eq("abc", "abc"));
    assert!(!str_eq("abc", "abd"));
    assert!(!str_eq("abc", "ab"));
}

#[test]
fn whitespace_tokens() {
    assert_eq!(split_ws("  a  bb c "), vec!["a".to_string(), "bb".to_string(), "c".to_string()]);
    assert_eq!(split_ws(""), Vec::<String>::new());
    assert_eq!(split_ws("   "), Vec::<String>::new());
}

#[test]
fn unsigned_parsing_matches_the_grammar() {
    assert_eq!(parse_u64("0"), Some(0));
    assert_eq!(parse_u64("+5"), Some(5));
    assert_eq!(parse_u64("18446744073709551615"), Some(u64::MAX));
    assert_eq!(parse_u64("18446744073709551616"), None);
    assert_eq!(parse_u64(""), None);
    assert_eq!(parse_u64("+"), None);
    assert_eq!(parse_u64("-1"), None);
    assert_eq!(parse_u64("12a"), None);
    assert_eq!(parse_u64(" 1"), None);
}

#[test]
fn signed_parsing_matches_the_grammar() {
    assert_eq!(parse_i32("42"), Some(42));
    assert_eq!(parse_i32("-8"), Some(-8));
    assert_eq!(parse_i32("+7"), Some(7));
    assert_eq!(parse_i32("2147483647"), Some(i32::MAX));
    assert_eq!(parse_i32("-2147483648"), Some(i32::MIN));
    assert_eq!(parse_i32("2147483648"), None);
    assert_eq!(parse_i32("-2147483649"), None);
    assert_eq!(parse_i32("1.5"), None);
    assert_eq!(parse_i32(""), None);
}

#[test]
fn float_tokens_follow_the_literal_grammar() {
    for good in [
        "1.0", "100.0", "5.0", "95.0", ".5", "5.", "0", "12", "-2.5", "+3", "1e5", "1E+5",
        "-2.5e-3", "inf", "Infinity", "NaN", "-inf", "+nan",
    ] {
        assert!(is_float_token(good), "{good} should parse");
        assert!(good.parse::<f64>().is_ok(), "{good} should parse in the harness too");
    }
    for bad in ["", ".", "+", "e5", "1e", "1e+", "--1", "1.2.3", "abc", "1 0", "0x10", "in"] {
        assert!(!is_float_token(bad), "{bad} should not parse");
        assert!(bad.parse::<f64>().is_err(), "{bad} should not parse in the harness either");
    }
}

#[test]
fn decimal_rendering() {
    assert_eq!(u64_to_string(0), "0");
    assert_eq!(u64_to_string(102), "102");
    assert_eq!(u64_to_string(u64::MAX), "18446744073709551615");
    assert_eq!(i64_to_string(-5), "-5");
    assert_eq!(i64_to_string(0), "0");
    assert_eq!(i64_to_string(i64::MIN), "-9223372036854775808");
    assert_eq!(i64_to_string(i64::MAX), "9223372036854775807");
}
