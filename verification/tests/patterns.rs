use zeroresume::patterns::{SalaryUnit, parse_salary_range, parse_years};
use zeroresume::json::strings_or_empty;
use zeroresume::text::{chars_of, push_decimal, push_signed_decimal, str_contains};

#[test]
fn years_requirement_is_read() {
    assert_eq!(parse_years("3年"), Some("3".to_string()));
    assert_eq!(parse_years("5年以上"), Some("5".to_string()));
    assert_eq!(parse_years("经验 10 年以上"), Some("10".to_string()));
    assert_eq!(parse_years("12 \t年"), Some("12".to_string()));
    assert_eq!(parse_years("007年"), Some("007".to_string()));
}

#[test]
fn years_requirement_takes_the_leftmost_match() {
    assert_eq!(parse_years("3-5年"), Some("5".to_string()));
    assert_eq!(parse_years("2年或3年"), Some("2".to_string()));
    assert_eq!(parse_years("2024届，1年"), Some("1".to_string()));
}

#[test]
fn years_requirement_absent() {
    assert_eq!(parse_years("不限"), None);
    assert_eq!(parse_years("3 years"), None);
    assert_eq!(parse_years(""), None);
    assert_eq!(parse_years("年"), None);
    assert_eq!(parse_years("３年"), None);
}

#[test]
fn salary_range_in_thousands() {
    let r = parse_salary_range("15k-25k").unwrap();
    assert_eq!(r.min_digits, "15");
    assert_eq!(r.max_digits, "25");
    assert_eq!(r.unit, SalaryUnit::Thousand);
    let r = parse_salary_range("15-25K").unwrap();
    assert_eq!((r.min_digits.as_str(), r.max_digits.as_str(), r.unit), ("15", "25", SalaryUnit::Thousand));
    let r = parse_salary_range("20 - 30 k").unwrap();
    assert_eq!((r.min_digits.as_str(), r.max_digits.as_str(), r.unit), ("20", "30", SalaryUnit::Thousand));
}

#[test]
fn salary_range_in_ten_thousands_and_plain() {
    let r = parse_salary_range("1万-2万").unwrap();
    assert_eq!((r.min_digits.as_str(), r.max_digits.as_str(), r.unit), ("1", "2", SalaryUnit::TenThousand));
    let r = parse_salary_range("8000—12000").unwrap();
    assert_eq!((r.min_digits.as_str(), r.max_digits.as_str(), r.unit), ("8000", "12000", SalaryUnit::One));
    let r = parse_salary_range("8000–12000元").unwrap();
    assert_eq!((r.min_digits.as_str(), r.max_digits.as_str(), r.unit), ("8000", "12000", SalaryUnit::One));
    let r = parse_salary_range("15-25k·13薪 约1万").unwrap();
    assert_eq!((r.min_digits.as_str(), r.max_digits.as_str(), r.unit), ("15", "25", SalaryUnit::TenThousand));
}

#[test]
fn salary_range_leftmost_match_and_absence() {
    let r = parse_salary_range("1.5万-2万").unwrap();
    assert_eq!((r.min_digits.as_str(), r.max_digits.as_str()), ("5", "2"));
    assert!(parse_salary_range("面议").is_none());
    assert!(parse_salary_range("15k").is_none());
    assert!(parse_salary_range("15k-").is_none());
    assert!(parse_salary_range("k-25").is_none());
    assert!(parse_salary_range("").is_none());
}

#[test]
fn text_helpers() {
    assert_eq!(chars_of("a北c"), vec!['a', '北', 'c']);
    assert!(str_contains("北京朝阳", "朝阳"));
    assert!(str_contains("abc", ""));
    assert!(!str_contains("ab", "abc"));
    assert!(!str_contains("abc", "ac"));
}

#[test]
fn decimal_numerals() {
    let mut s = String::from("n=");
    push_decimal(&mut s, 0);
    assert_eq!(s, "n=0");
    let mut s = String::new();
    push_decimal(&mut s, 1234567890);
    assert_eq!(s, "1234567890");
    let mut s = String::new();
    push_signed_decimal(&mut s, -7);
    assert_eq!(s, "-7");
    let mut s = String::new();
    push_signed_decimal(&mut s, i64::MIN);
    assert_eq!(s, i64::MIN.to_string());
    let mut s = String::new();
    push_decimal(&mut s, u64::MAX);
    assert_eq!(s, u64::MAX.to_string());
}

#[test]
fn json_list_columns() {
    assert_eq!(strings_or_empty("[\"a\",\"b\"]"), vec!["a", "b"]);
    assert_eq!(strings_or_empty("[]"), Vec::<String>::new());
    assert_eq!(strings_or_empty("not json"), Vec::<String>::new());
    assert_eq!(strings_or_empty("[1,2]"), Vec::<String>::new());
    assert_eq!(strings_or_empty(" [\"\\u5317\"] "), vec!["北"]);
}
