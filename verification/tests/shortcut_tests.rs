use iid::shortcut::parse_shortcut;
use iid::{IIDUtility, Shortcut};

#[test]
fn prefixed_integer() {
    assert_eq!(parse_shortcut("i:42"), Some(Shortcut::Integer(42)));
    assert_eq!(parse_shortcut("i:-7"), Some(Shortcut::Integer(-7)));
    assert_eq!(parse_shortcut("i:+7"), Some(Shortcut::Integer(7)));
    assert_eq!(parse_shortcut("  i:5  "), Some(Shortcut::Integer(5)));
    assert_eq!(parse_shortcut("i: 5"), None);
    assert_eq!(parse_shortcut("i:"), None);
    assert_eq!(parse_shortcut("i:-"), None);
    assert_eq!(parse_shortcut("i:5x"), None);
}

#[test]
fn integer_range_limits() {
    assert_eq!(parse_shortcut("i:2147483647"), Some(Shortcut::Integer(i32::MAX)));
    assert_eq!(parse_shortcut("i:-2147483648"), Some(Shortcut::Integer(i32::MIN)));
    assert_eq!(parse_shortcut("i:2147483648"), None);
    assert_eq!(parse_shortcut("i:-2147483649"), None);
    assert_eq!(parse_shortcut("i:00000000000000000000000012"), Some(Shortcut::Integer(12)));
    assert_eq!(parse_shortcut("i:99999999999999999999999999"), None);
}

#[test]
fn prefixed_index_integer() {
    assert_eq!(parse_shortcut("ii:1,2"), Some(Shortcut::IndexInteger(1, 2)));
    assert_eq!(parse_shortcut("ii:1, 2"), None);
    assert_eq!(parse_shortcut("ii:1,2,3"), None);
    assert_eq!(parse_shortcut("ii:1"), None);
    assert_eq!(parse_shortcut("ii:,2"), None);
}

#[test]
fn prefixed_index_integer_delay() {
    assert_eq!(
        parse_shortcut("iid:1,2,-9223372036854775808"),
        Some(Shortcut::IndexIntegerDelay(1, 2, i64::MIN))
    );
    assert_eq!(parse_shortcut("iid:1,2,3"), Some(Shortcut::IndexIntegerDelay(1, 2, 3)));
    assert_eq!(parse_shortcut("iid:1,2"), None);
    assert_eq!(parse_shortcut("iid:1,2,9223372036854775808"), None);
}

#[test]
fn white_space_separated_numbers() {
    assert_eq!(parse_shortcut("42"), Some(Shortcut::Integer(42)));
    assert_eq!(parse_shortcut("1 2"), Some(Shortcut::IndexInteger(1, 2)));
    assert_eq!(parse_shortcut("1\t\t 2"), Some(Shortcut::IndexInteger(1, 2)));
    assert_eq!(parse_shortcut(" 1   2   3 "), Some(Shortcut::IndexIntegerDelay(1, 2, 3)));
    assert_eq!(parse_shortcut("1 2 3 4"), None);
    assert_eq!(parse_shortcut(""), None);
    assert_eq!(parse_shortcut("   "), None);
    assert_eq!(parse_shortcut("a b"), None);
}

#[test]
fn unicode_white_space_is_white_space() {
    assert_eq!(parse_shortcut("\u{3000}7\u{2003}8\u{a0}"), Some(Shortcut::IndexInteger(7, 8)));
    assert_eq!(parse_shortcut("\u{3000}i:9"), Some(Shortcut::Integer(9)));
}

#[test]
fn text_shortcut_bytes() {
    assert_eq!(
        IIDUtility::text_shortcut_to_bytes("i:1259"),
        Some(IIDUtility::integer_to_bytes(1259).unwrap())
    );
    assert_eq!(
        IIDUtility::text_shortcut_to_bytes(" 3 4 "),
        Some(IIDUtility::index_integer_to_bytes(3, 4).unwrap())
    );
    assert_eq!(
        IIDUtility::text_shortcut_to_bytes("ii:3,4"),
        Some(IIDUtility::index_integer_to_bytes(3, 4).unwrap())
    );
    assert_eq!(IIDUtility::text_shortcut_to_bytes("hello"), None);
}

#[test]
fn text_shortcut_delayed_bytes_are_dated() {
    let before = std::time::SystemTime::now()
        .duration_since(std::time::UNIX_EPOCH)
        .unwrap()
        .as_millis() as u64;
    let bytes = IIDUtility::text_shortcut_to_bytes("iid:5,6,250").unwrap();
    let (index, value, date) = IIDUtility::bytes_to_index_integer_date(&bytes).unwrap();
    assert_eq!((index, value), (5, 6));
    assert!(date >= before + 250);
    assert!(IIDUtility::text_shortcut_to_bytes("iid:5,6,9223372036854775807").is_none());
    let bytes = IIDUtility::text_shortcut_to_bytes("5 6 0").unwrap();
    assert_eq!(bytes.len(), 16);
}

#[test]
fn decimal_texts_read_back() {
    for &a in &[0, 7, -7, 1259, i32::MAX, i32::MIN] {
        let one = Some(IIDUtility::i(a).unwrap());
        assert_eq!(IIDUtility::text_shortcut_to_bytes(&a.to_string()), one);
        assert_eq!(IIDUtility::text_shortcut_to_bytes(&format!("i:{}", a)), one);
        for &b in &[0, -1, i32::MAX] {
            let two = Some(IIDUtility::ii(a, b).unwrap());
            assert_eq!(IIDUtility::text_shortcut_to_bytes(&format!("{} {}", a, b)), two);
            assert_eq!(IIDUtility::text_shortcut_to_bytes(&format!("ii:{},{}", a, b)), two);
            for &d in &[0i64, -5, i64::MIN, i64::MAX] {
                let expected = Some(Shortcut::IndexIntegerDelay(a, b, d));
                assert_eq!(parse_shortcut(&format!("{} {} {}", a, b, d)), expected);
                assert_eq!(parse_shortcut(&format!("iid:{},{},{}", a, b, d)), expected);
            }
        }
    }
}

#[test]
fn padding_and_trimming_change_nothing() {
    for s in &["i:5", "ii:1,2", "3 4", "x", "", " 1  2 ", "iid:1,2,3"] {
        let padded = format!("  {}  ", s);
        assert_eq!(parse_shortcut(&padded), parse_shortcut(s));
        assert_eq!(parse_shortcut(s.trim()), parse_shortcut(s));
    }
}
