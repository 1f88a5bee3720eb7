use gear_microkit::number::{parse_i32, parse_i64, parse_u64};
use gear_microkit::text::{split_once_str, split_str};

#[test]
fn parse_u64_follows_std() {
    for s in ["0", "+0", "42", "007", "18446744073709551615", "18446744073709551616", "", "+", "-0", "-1", " 1", "1a", "١"] {
        assert_eq!(parse_u64(s), s.parse::<u64>().ok(), "{s:?}");
    }
}

#[test]
fn parse_i64_follows_std() {
    for s in ["0", "-0", "+5", "-5", "9223372036854775807", "9223372036854775808", "-9223372036854775808", "-9223372036854775809", "", "-", "+", "--1", "+-1", "1-"] {
        assert_eq!(parse_i64(s), s.parse::<i64>().ok(), "{s:?}");
    }
}

#[test]
fn parse_i32_follows_std() {
    for s in ["0", "-2147483648", "2147483647", "2147483648", "-2147483649", "12x", ""] {
        assert_eq!(parse_i32(s), s.parse::<i32>().ok(), "{s:?}");
    }
}

#[test]
fn split_str_follows_std() {
    for s in ["", ",", "a", "a,b", ",a,", "a,,b", "é,ü,ß"] {
        assert_eq!(split_str(s, ','), s.split(',').collect::<Vec<_>>(), "{s:?}");
        assert_eq!(split_str(s, ',').join(","), s);
    }
}

#[test]
fn split_once_str_follows_std() {
    for s in ["", ";", "a;b", "a;b;c", "abc", "é;ü"] {
        assert_eq!(split_once_str(s, ';'), s.split_once(';'), "{s:?}");
    }
}
