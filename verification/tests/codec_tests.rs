use iid::{IIDUtility, IidError};

#[test]
fn integer_is_four_little_endian_bytes() {
    assert_eq!(IIDUtility::integer_to_bytes(1).unwrap(), vec![1, 0, 0, 0]);
    assert_eq!(IIDUtility::integer_to_bytes(0x0403_0201).unwrap(), vec![1, 2, 3, 4]);
    assert_eq!(IIDUtility::integer_to_bytes(-1).unwrap(), vec![0xff, 0xff, 0xff, 0xff]);
    assert_eq!(IIDUtility::integer_to_bytes(i32::MIN).unwrap(), vec![0, 0, 0, 0x80]);
    assert_eq!(IIDUtility::integer_to_bytes(1259).unwrap(), vec![0xeb, 0x04, 0, 0]);
}

#[test]
fn index_integer_is_index_then_integer() {
    assert_eq!(
        IIDUtility::index_integer_to_bytes(1, -2).unwrap(),
        vec![1, 0, 0, 0, 0xfe, 0xff, 0xff, 0xff]
    );
}

#[test]
fn integer_date_is_integer_then_date() {
    assert_eq!(
        IIDUtility::integer_date_to_bytes(7, 0x0102_0304_0506_0708).unwrap(),
        vec![7, 0, 0, 0, 8, 7, 6, 5, 4, 3, 2, 1]
    );
}

#[test]
fn index_integer_date_is_sixteen_bytes() {
    let bytes = IIDUtility::index_integer_date_to_bytes(2, 3, u64::MAX).unwrap();
    assert_eq!(
        bytes,
        vec![2, 0, 0, 0, 3, 0, 0, 0, 0xff, 0xff, 0xff, 0xff, 0xff, 0xff, 0xff, 0xff]
    );
}

#[test]
fn shorthands_match_long_forms() {
    assert_eq!(IIDUtility::i(42).unwrap(), IIDUtility::integer_to_bytes(42).unwrap());
    assert_eq!(IIDUtility::ii(1, 42).unwrap(), IIDUtility::index_integer_to_bytes(1, 42).unwrap());
    assert_eq!(
        IIDUtility::iid(1, 42, 99).unwrap(),
        IIDUtility::index_integer_date_to_bytes(1, 42, 99).unwrap()
    );
}

#[test]
fn iid_ms_reinterprets_negative_milliseconds() {
    assert_eq!(
        IIDUtility::iid_ms(1, 2, -1).unwrap(),
        IIDUtility::iid(1, 2, u64::MAX).unwrap()
    );
    assert_eq!(
        IIDUtility::iid_ms(1, 2, 1_700_000_000_000).unwrap(),
        IIDUtility::iid(1, 2, 1_700_000_000_000).unwrap()
    );
}

#[test]
fn decoding_reads_little_endian_values() {
    assert_eq!(IIDUtility::bytes_to_int(&[1, 2, 3, 4]), Ok(0x0403_0201));
    assert_eq!(IIDUtility::bytes_to_int(&[0xff, 0xff, 0xff, 0xff]), Ok(-1));
    assert_eq!(IIDUtility::bytes_to_int(&[1, 0, 0, 0, 9, 9]), Ok(1));
    assert_eq!(
        IIDUtility::bytes_to_index_integer(&[1, 0, 0, 0, 0xfe, 0xff, 0xff, 0xff]),
        Ok((1, -2))
    );
    assert_eq!(
        IIDUtility::bytes_to_integer_date(&[7, 0, 0, 0, 8, 7, 6, 5, 4, 3, 2, 1]),
        Ok((7, 0x0102_0304_0506_0708))
    );
    assert_eq!(
        IIDUtility::bytes_to_index_integer_date(&[
            2, 0, 0, 0, 3, 0, 0, 0, 0xff, 0xff, 0xff, 0xff, 0xff, 0xff, 0xff, 0xff
        ]),
        Ok((2, 3, u64::MAX))
    );
}

#[test]
fn decoding_short_input_is_an_error() {
    assert_eq!(IIDUtility::bytes_to_int(&[1, 2, 3]), Err(IidError::UnexpectedEndOfData));
    assert_eq!(
        IIDUtility::bytes_to_index_integer(&[0; 7]),
        Err(IidError::UnexpectedEndOfData)
    );
    assert_eq!(
        IIDUtility::bytes_to_integer_date(&[0; 11]),
        Err(IidError::UnexpectedEndOfData)
    );
    assert_eq!(
        IIDUtility::bytes_to_index_integer_date(&[0; 15]),
        Err(IidError::UnexpectedEndOfData)
    );
}

#[test]
fn decoding_what_was_encoded_gives_it_back() {
    for &(index, value, date) in &[(0, 0, 0u64), (-5, i32::MAX, 123456789), (i32::MIN, -1, u64::MAX)] {
        let b = IIDUtility::index_integer_date_to_bytes(index, value, date).unwrap();
        assert_eq!(IIDUtility::bytes_to_index_integer_date(&b), Ok((index, value, date)));
        let b = IIDUtility::integer_date_to_bytes(value, date).unwrap();
        assert_eq!(IIDUtility::bytes_to_integer_date(&b), Ok((value, date)));
        let b = IIDUtility::index_integer_to_bytes(index, value).unwrap();
        assert_eq!(IIDUtility::bytes_to_index_integer(&b), Ok((index, value)));
        let b = IIDUtility::integer_to_bytes(value).unwrap();
        assert_eq!(IIDUtility::bytes_to_int(&b), Ok(value));
    }
}

#[test]
fn default_offset_is_zero() {
    assert_eq!(IIDUtility::get_default_global_ntp_offset_in_milliseconds(), 0);
    assert_eq!(IIDUtility::DEFAULT_GLOBAL_NTP_OFFSET_IN_MILLISECONDS, 0);
    assert_eq!(IIDUtility::DEFAULT_NTP_SERVER, "be.pool.ntp.org");
}

#[test]
fn relay_adds_delay_to_the_given_time() {
    assert_eq!(
        IIDUtility::index_integer_relay_milliseconds_to_bytes(1, 2, 1000, 500).unwrap(),
        IIDUtility::iid(1, 2, 1500).unwrap()
    );
    assert_eq!(
        IIDUtility::index_integer_relay_milliseconds_to_bytes(1, 2, 1000, -2000).unwrap(),
        IIDUtility::iid(1, 2, (-1000i64) as u64).unwrap()
    );
    assert_eq!(
        IIDUtility::index_integer_relay_milliseconds_to_bytes(1, 2, i64::MAX, 1),
        Err(IidError::ArithmeticOverflow)
    );
}

#[test]
fn relay_from_now_is_dated_near_the_clock() {
    let before = std::time::SystemTime::now()
        .duration_since(std::time::UNIX_EPOCH)
        .unwrap()
        .as_millis() as u64;
    let bytes = IIDUtility::index_integer_now_relay_milliseconds_to_bytes(3, 4, 1000).unwrap();
    let after = std::time::SystemTime::now()
        .duration_since(std::time::UNIX_EPOCH)
        .unwrap()
        .as_millis() as u64;
    let (index, value, date) = IIDUtility::bytes_to_index_integer_date(&bytes).unwrap();
    assert_eq!((index, value), (3, 4));
    assert!(before + 1000 <= date && date <= after + 1000);
}
