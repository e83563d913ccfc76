use iid::codec;
use iid::{IIDUtility, ListenUdpIID, Received, SendUdpIID};

#[test]
fn dotted_addresses_are_recognised() {
    assert!(IIDUtility::is_text_ipv4("127.0.0.1"));
    assert!(IIDUtility::is_text_ipv4("999.1.22.333"));
    assert!(!IIDUtility::is_text_ipv4("apint.ddns.net"));
    assert!(!IIDUtility::is_text_ipv4("1.2.3"));
    assert!(!IIDUtility::is_text_ipv4("1.2.3.4.5"));
    assert!(!IIDUtility::is_text_ipv4("1234.2.3.4"));
    assert!(!IIDUtility::is_text_ipv4(" 1.2.3.4"));
}

#[test]
fn get_ipv4_keeps_literal_addresses() {
    assert_eq!(IIDUtility::get_ipv4("0.0.0.0"), Some("0.0.0.0".to_string()));
    assert_eq!(IIDUtility::get_ipv4("be.pool.ntp.org"), None);
}

#[test]
fn random_integers_stay_in_range() {
    for _ in 0..200 {
        let v = IIDUtility::get_random_integer(-3, 3);
        assert!((-3..=3).contains(&v));
        let v = IIDUtility::get_random_integer_100();
        assert!((0..=100).contains(&v));
        assert!(IIDUtility::get_random_integer_int_max() > i32::MIN);
        assert!(IIDUtility::get_random_integer_int_max_positive() >= 0);
    }
    assert_eq!(IIDUtility::get_random_integer(5, 5), 5);
}

#[test]
fn random_integers_vary() {
    let first = IIDUtility::get_random_integer(0, 1_000_000);
    let varied = (0..100).any(|_| IIDUtility::get_random_integer(0, 1_000_000) != first);
    assert!(varied);
    assert_eq!(iid::NtpOffsetFetcher::DEFAULT_NTP_SERVER, "be.pool.ntp.org");
}

#[test]
fn datagrams_are_classified_by_length() {
    assert_eq!(ListenUdpIID::new(String::new(), 1, 0, 0).port(), 1);
    let b = IIDUtility::integer_to_bytes(-9).unwrap();
    assert_eq!(iid::listener::classify_datagram(&b), Received::Integer(-9));
    let b = IIDUtility::index_integer_to_bytes(1, 2).unwrap();
    assert_eq!(iid::listener::classify_datagram(&b), Received::IndexInteger(1, 2));
    let b = IIDUtility::integer_date_to_bytes(1259, 77).unwrap();
    assert_eq!(iid::listener::classify_datagram(&b), Received::IntegerDate(1259, 77));
    let b = IIDUtility::iid(4, 5, 6).unwrap();
    assert_eq!(iid::listener::classify_datagram(&b), Received::IndexIntegerDate(4, 5, 6));
    assert_eq!(iid::listener::classify_datagram(&[1, 2, 3]), Received::Ignored);
    assert_eq!(iid::listener::classify_datagram(&[0; 20]), Received::Ignored);
    assert_eq!(iid::listener::classify_datagram(&[]), Received::Ignored);
}

#[test]
fn new_listener_holds_its_settings() {
    let l = ListenUdpIID::new("0.0.0.0".to_string(), 3615, 12, 1259);
    assert_eq!(l.ipv4(), "0.0.0.0");
    assert_eq!(l.port(), 3615);
    assert_eq!(l.ntp_offset_in_milliseconds(), 12);
    assert_eq!(l.integer_to_sync_ntp(), 1259);
    assert_eq!(l.adjustment(), 0);
}

#[test]
fn synchronising_datagram_sets_the_adjustment() {
    let mut l = ListenUdpIID::new("0.0.0.0".to_string(), 3615, 0, 1259);
    let b = IIDUtility::iid(0, 1259, 1000).unwrap();
    assert_eq!(l.receive_at(&b, 1500), Received::IndexIntegerDate(0, 1259, 1000));
    assert_eq!(l.adjustment(), 500);
    let b = IIDUtility::integer_date_to_bytes(1259, 2000).unwrap();
    l.receive_at(&b, 1500);
    assert_eq!(l.adjustment(), -500);
    let b = IIDUtility::iid(0, 7, 0).unwrap();
    l.receive_at(&b, 1500);
    assert_eq!(l.adjustment(), -500);
    let b = IIDUtility::index_integer_to_bytes(0, 1259).unwrap();
    l.receive_at(&b, 99);
    assert_eq!(l.adjustment(), -500);
    let b = IIDUtility::iid(0, 1259, u64::MAX).unwrap();
    l.receive_at(&b, 1500);
    assert_eq!(l.adjustment(), 1501);
}

#[test]
fn receiving_with_the_clock() {
    let mut l = ListenUdpIID::new("0.0.0.0".to_string(), 3615, 0, 1259);
    let now = ListenUdpIID::get_ntp_time_in_milliseconds(0).unwrap();
    let b = IIDUtility::iid(0, 1259, now).unwrap();
    l.receive(&b);
    assert!(l.adjustment() >= 0 && l.adjustment() < 60_000);
    assert_eq!(ListenUdpIID::ntp_time_at(1000, -10), Ok(990));
    assert_eq!(ListenUdpIID::ntp_time_at(-1, 0), Ok(u64::MAX));
    assert_eq!(ListenUdpIID::ntp_time_at(i64::MAX, 1), Err(iid::IidError::ArithmeticOverflow));
}

#[test]
fn sender_offset_is_read_back() {
    let mut s = SendUdpIID::new("127.0.0.1".to_string(), 3615);
    assert_eq!(s.get_ntp_offset(), 0);
    s.set_ntp_offset_tick(-42);
    assert_eq!(s.get_ntp_offset(), -42);
    assert_eq!(s.ipv4(), "127.0.0.1");
    assert_eq!(s.port(), 3615);
}

#[test]
fn sender_datagrams() {
    let mut s = SendUdpIID::new("127.0.0.1".to_string(), 3615);
    s.set_ntp_offset_tick(100);
    assert_eq!(
        s.index_integer_date_ntp_in_milliseconds_at_bytes(1, 2, 1000, 5).unwrap(),
        IIDUtility::iid(1, 2, 1105).unwrap()
    );
    assert_eq!(
        s.index_integer_date_ntp_at_bytes(1, 2, 50).unwrap(),
        IIDUtility::iid(1, 2, 150).unwrap()
    );
    assert_eq!(
        SendUdpIID::index_integer_date_local_at_bytes(1, 2, 50),
        IIDUtility::iid(1, 2, 50).unwrap()
    );
    assert!(s.index_integer_date_ntp_in_seconds_bytes(1, 2, i64::MAX / 10).is_err());
    assert_eq!(
        s.index_integer_date_ntp_in_seconds_at_bytes(1, 2, 1000, 3).unwrap(),
        s.index_integer_date_ntp_in_milliseconds_at_bytes(1, 2, 1000, 3000).unwrap()
    );
    assert_eq!(
        s.index_integer_date_ntp_in_seconds_at_bytes(1, 2, 1000, i64::MAX),
        Err(iid::IidError::ArithmeticOverflow)
    );
    let b = s.index_integer_date_ntp_in_seconds_bytes(1, 2, 2).unwrap();
    let (_, _, date) = IIDUtility::bytes_to_index_integer_date(&b).unwrap();
    assert!(date > 2100);
    let b = s.random_integer_bytes(9, 0, 100);
    let (index, value) = IIDUtility::bytes_to_index_integer(&b).unwrap();
    assert_eq!(index, 9);
    assert!((0..=100).contains(&value));
    let b = SendUdpIID::index_integer_date_local_now_bytes(1, 2).unwrap();
    assert_eq!(b.len(), 16);
    assert!(s.index_integer_date_ntp_now_bytes(1, 2).is_ok());
    assert_eq!(codec::I32_LEN, 4);
}
