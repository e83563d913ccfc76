//! `IIDUtility`: encoding and decoding of IID datagrams, and their shorthands.
use crate::codec::{
    i32_at, index_integer_bytes, index_integer_date_bytes, integer_bytes, integer_date_bytes,
    push_i32_le, push_u64_le, read_i32_le, read_u64_le, u64_at, I32_LEN, U64_LEN,
};
use crate::clock::{checked_sum, unix_time_millis};
use crate::error::IidError;
use crate::ipv4::{is_ipv4_text, regex_match, IPV4_PATTERN};
use crate::random::{gen_range_inclusive, thread_rng};
use crate::shortcut::{parse_shortcut, shortcut_of, Shortcut};
use vstd::prelude::*;

verus! {

/// The offset, in milliseconds, that relayed dates add to the local clock.
pub open spec fn default_global_ntp_offset() -> i64 {
    0
}

/// The date carried by a datagram relayed `delay` milliseconds after the
/// clock read `now` milliseconds: `now + delay` plus the default global
/// offset, reinterpreted as a `u64`; `None` where a sum leaves `i64`.
pub open spec fn relay_date(now: i64, delay: i64) -> Option<u64> {
    match checked_sum(now, delay) {
        Some(t) => match checked_sum(t, default_global_ntp_offset()) {
            Some(u) => Some(u as u64),
            None => None,
        },
        None => None,
    }
}

/// Namespace of the IID helpers.
pub struct IIDUtility;

impl IIDUtility {
    /// NTP server that the tools ask for the clock offset by default.
    pub const DEFAULT_NTP_SERVER: &'static str = "be.pool.ntp.org";

    /// Offset added to the local clock when a relayed date is computed.
    pub const DEFAULT_GLOBAL_NTP_OFFSET_IN_MILLISECONDS: i64 = 0;

    /// The default global NTP offset in milliseconds.
    pub fn get_default_global_ntp_offset_in_milliseconds() -> (r: i64)
        ensures
            r == default_global_ntp_offset(),
    {
        Self::DEFAULT_GLOBAL_NTP_OFFSET_IN_MILLISECONDS
    }

    /// Reads the little-endian `i32` at the start of `bytes`.
    pub fn bytes_to_int(bytes: &[u8]) -> (r: Result<i32, IidError>)
        ensures
            bytes@.len() >= 4 ==> r == Ok::<i32, IidError>(i32_at(bytes@, 0)),
            bytes@.len() < 4 ==> r == Err::<i32, IidError>(IidError::UnexpectedEndOfData),
    {
        if bytes.len() < I32_LEN {
            return Err(IidError::UnexpectedEndOfData);
        }
        Ok(read_i32_le(bytes, 0))
    }

    /// Reads an index and an integer, each a little-endian `i32`, from the
    /// start of `bytes`.
    pub fn bytes_to_index_integer(bytes: &[u8]) -> (r: Result<(i32, i32), IidError>)
        ensures
            bytes@.len() >= 8 ==> r == Ok::<(i32, i32), IidError>(
                (i32_at(bytes@, 0), i32_at(bytes@, 4)),
            ),
            bytes@.len() < 8 ==> r == Err::<(i32, i32), IidError>(IidError::UnexpectedEndOfData),
    {
        if bytes.len() < 2 * I32_LEN {
            return Err(IidError::UnexpectedEndOfData);
        }
        let index = read_i32_le(bytes, 0);
        let value = read_i32_le(bytes, I32_LEN);
        Ok((index, value))
    }

    /// Reads an integer (little-endian `i32`) followed by a date
    /// (little-endian `u64`) from the start of `bytes`.
    pub fn bytes_to_integer_date(bytes: &[u8]) -> (r: Result<(i32, u64), IidError>)
        ensures
            bytes@.len() >= 12 ==> r == Ok::<(i32, u64), IidError>(
                (i32_at(bytes@, 0), u64_at(bytes@, 4)),
            ),
            bytes@.len() < 12 ==> r == Err::<(i32, u64), IidError>(IidError::UnexpectedEndOfData),
    {
        if bytes.len() < I32_LEN + U64_LEN {
            return Err(IidError::UnexpectedEndOfData);
        }
        let value = read_i32_le(bytes, 0);
        let date = read_u64_le(bytes, I32_LEN);
        Ok((value, date))
    }

    /// Reads an index and an integer (little-endian `i32`s) followed by a date
    /// (little-endian `u64`) from the start of `bytes`.
    pub fn bytes_to_index_integer_date(bytes: &[u8]) -> (r: Result<(i32, i32, u64), IidError>)
        ensures
            bytes@.len() >= 16 ==> r == Ok::<(i32, i32, u64), IidError>(
                (i32_at(bytes@, 0), i32_at(bytes@, 4), u64_at(bytes@, 8)),
            ),
            bytes@.len() < 16 ==> r == Err::<(i32, i32, u64), IidError>(
                IidError::UnexpectedEndOfData,
            ),
    {
        if bytes.len() < 2 * I32_LEN + U64_LEN {
            return Err(IidError::UnexpectedEndOfData);
        }
        let index = read_i32_le(bytes, 0);
        let value = read_i32_le(bytes, I32_LEN);
        let date = read_u64_le(bytes, 2 * I32_LEN);
        Ok((index, value, date))
    }

    /// The datagram of an integer. Encoding cannot fail.
    pub fn integer_to_bytes(value: i32) -> (r: Result<Vec<u8>, IidError>)
        ensures
            r matches Ok(b) && b@ == integer_bytes(value),
    {
        let mut buffer: Vec<u8> = Vec::new();
        push_i32_le(&mut buffer, value);
        assert(buffer@ =~= integer_bytes(value));
        Ok(buffer)
    }

    /// The datagram of an index and an integer. Encoding cannot fail.
    pub fn index_integer_to_bytes(index: i32, value: i32) -> (r: Result<Vec<u8>, IidError>)
        ensures
            r matches Ok(b) && b@ == index_integer_bytes(index, value),
    {
        let mut buffer: Vec<u8> = Vec::new();
        push_i32_le(&mut buffer, index);
        push_i32_le(&mut buffer, value);
        assert(buffer@ =~= index_integer_bytes(index, value));
        Ok(buffer)
    }

    /// The datagram of an integer and a date. Encoding cannot fail.
    pub fn integer_date_to_bytes(value: i32, date: u64) -> (r: Result<Vec<u8>, IidError>)
        ensures
            r matches Ok(b) && b@ == integer_date_bytes(value, date),
    {
        let mut buffer: Vec<u8> = Vec::new();
        push_i32_le(&mut buffer, value);
        push_u64_le(&mut buffer, date);
        assert(buffer@ =~= integer_date_bytes(value, date));
        Ok(buffer)
    }

    /// The datagram of an index, an integer and a date. Encoding cannot fail.
    pub fn index_integer_date_to_bytes(index: i32, value: i32, date: u64) -> (r: Result<
        Vec<u8>,
        IidError,
    >)
        ensures
            r matches Ok(b) && b@ == index_integer_date_bytes(index, value, date),
    {
        let mut buffer: Vec<u8> = Vec::new();
        push_i32_le(&mut buffer, index);
        push_i32_le(&mut buffer, value);
        push_u64_le(&mut buffer, date);
        assert(buffer@ =~= index_integer_date_bytes(index, value, date));
        Ok(buffer)
    }

    /// Shorthand for [`IIDUtility::integer_to_bytes`].
    pub fn i(integer_value: i32) -> (r: Result<Vec<u8>, IidError>)
        ensures
            r matches Ok(b) && b@ == integer_bytes(integer_value),
    {
        Self::integer_to_bytes(integer_value)
    }

    /// Shorthand for [`IIDUtility::index_integer_to_bytes`].
    pub fn ii(index: i32, integer_value: i32) -> (r: Result<Vec<u8>, IidError>)
        ensures
            r matches Ok(b) && b@ == index_integer_bytes(index, integer_value),
    {
        Self::index_integer_to_bytes(index, integer_value)
    }

    /// Shorthand for [`IIDUtility::index_integer_date_to_bytes`].
    pub fn iid(index: i32, integer_value: i32, date: u64) -> (r: Result<Vec<u8>, IidError>)
        ensures
            r matches Ok(b) && b@ == index_integer_date_bytes(index, integer_value, date),
    {
        Self::index_integer_date_to_bytes(index, integer_value, date)
    }

    /// The datagram of an index, an integer and a date given in signed
    /// milliseconds; the date is the two's-complement reinterpretation of
    /// `milliseconds` as a `u64`.
    pub fn iid_ms(index: i32, integer_value: i32, milliseconds: i64) -> (r: Result<
        Vec<u8>,
        IidError,
    >)
        ensures
            r matches Ok(b) && b@ == index_integer_date_bytes(
                index,
                integer_value,
                milliseconds as u64,
            ),
    {
        Self::index_integer_date_to_bytes(index, integer_value, milliseconds as u64)
    }

    /// The datagram of an index and an integer dated `delay_in_milliseconds`
    /// after `now_in_milliseconds` (plus the default global offset); an
    /// overflow error where the date leaves `i64`.
    pub fn index_integer_relay_milliseconds_to_bytes(
        index: i32,
        value: i32,
        now_in_milliseconds: i64,
        delay_in_milliseconds: i64,
    ) -> (r: Result<Vec<u8>, IidError>)
        ensures
            relay_date(now_in_milliseconds, delay_in_milliseconds) matches Some(d) ==> (r matches Ok(
                b,
            ) && b@ == index_integer_date_bytes(index, value, d)),
            relay_date(now_in_milliseconds, delay_in_milliseconds) is None ==> r == Err::<
                Vec<u8>,
                IidError,
            >(IidError::ArithmeticOverflow),
    {
        let shifted = match now_in_milliseconds.checked_add(delay_in_milliseconds) {
            Some(t) => t,
            None => return Err(IidError::ArithmeticOverflow),
        };
        let adjusted = match shifted.checked_add(Self::DEFAULT_GLOBAL_NTP_OFFSET_IN_MILLISECONDS) {
            Some(t) => t,
            None => return Err(IidError::ArithmeticOverflow),
        };
        Self::index_integer_date_to_bytes(index, value, adjusted as u64)
    }

    /// The datagram of an index and an integer dated `delay_in_milliseconds`
    /// after the system clock's current time in milliseconds since the Unix
    /// epoch (plus the default global offset). The clock reading is not
    /// known in advance: what is stated is that the date is the relay date of
    /// some reading, and which errors can come.
    pub fn index_integer_now_relay_milliseconds_to_bytes(
        index: i32,
        value: i32,
        delay_in_milliseconds: i64,
    ) -> (r: Result<Vec<u8>, IidError>)
        ensures
            r matches Ok(b) ==> exists|now: i64|
                #![trigger relay_date(now, delay_in_milliseconds)]
                relay_date(now, delay_in_milliseconds) matches Some(d) && b@
                    == index_integer_date_bytes(index, value, d),
            r matches Err(e) ==> e == IidError::ClockBeforeUnixEpoch || e
                == IidError::ArithmeticOverflow,
            r == Err::<Vec<u8>, IidError>(IidError::ArithmeticOverflow) ==> exists|now: i64|
                #![trigger relay_date(now, delay_in_milliseconds)]
                relay_date(now, delay_in_milliseconds) is None,
    {
        let now = unix_time_millis()?;
        Self::index_integer_relay_milliseconds_to_bytes(index, value, now, delay_in_milliseconds)
    }

    /// The datagram that the text shortcut `text` spells (see
    /// [`crate::shortcut`]); `None` where it spells none, and for a delayed
    /// shortcut also where the clock cannot be read or the date overflows.
    /// A delayed shortcut is dated from the clock's current reading.
    pub fn text_shortcut_to_bytes(text: &str) -> (r: Option<Vec<u8>>)
        ensures
            shortcut_of(text@) is None ==> r is None,
            shortcut_of(text@) matches Some(Shortcut::Integer(v)) ==> (r matches Some(b) && b@
                == integer_bytes(v)),
            shortcut_of(text@) matches Some(Shortcut::IndexInteger(i, v)) ==> (r matches Some(b)
                && b@ == index_integer_bytes(i, v)),
            shortcut_of(text@) matches Some(Shortcut::IndexIntegerDelay(i, v, delay)) ==> (
            r matches Some(b) ==> exists|now: i64|
                #![trigger relay_date(now, delay)]
                relay_date(now, delay) matches Some(d) && b@ == index_integer_date_bytes(i, v, d)),
    {
        match parse_shortcut(text) {
            None => None,
            Some(Shortcut::Integer(value)) => match Self::integer_to_bytes(value) {
                Ok(bytes) => Some(bytes),
                Err(_) => None,
            },
            Some(Shortcut::IndexInteger(index, value)) => match Self::index_integer_to_bytes(
                index,
                value,
            ) {
                Ok(bytes) => Some(bytes),
                Err(_) => None,
            },
            Some(Shortcut::IndexIntegerDelay(index, value, delay)) => {
                match Self::index_integer_now_relay_milliseconds_to_bytes(index, value, delay) {
                    Ok(bytes) => Some(bytes),
                    Err(_) => None,
                }
            },
        }
    }

    /// A random integer between `from_value` and `to_value`, both included.
    /// The range must not be empty.
    pub fn get_random_integer(from_value: i32, to_value: i32) -> (r: i32)
        requires
            from_value <= to_value,
        ensures
            from_value <= r <= to_value,
    {
        let mut rng = thread_rng();
        gen_range_inclusive(&mut rng, from_value, to_value)
    }

    /// A random integer between 0 and 100, both included.
    pub fn get_random_integer_100() -> (r: i32)
        ensures
            0 <= r <= 100,
    {
        Self::get_random_integer(0, 100)
    }

    /// A random integer between `i32::MIN + 1` and `i32::MAX`, both included.
    pub fn get_random_integer_int_max() -> (r: i32)
        ensures
            i32::MIN + 1 <= r <= i32::MAX,
    {
        Self::get_random_integer(i32::MIN + 1, i32::MAX)
    }

    /// A random integer between 0 and `i32::MAX`, both included.
    pub fn get_random_integer_int_max_positive() -> (r: i32)
        ensures
            0 <= r <= i32::MAX,
    {
        Self::get_random_integer(0, i32::MAX)
    }

    /// Whether `server_name` is written as a dotted IPv4 address (four
    /// groups of one to three digits separated by dots), as the IPv4 regex
    /// decides it.
    pub fn is_text_ipv4(server_name: &str) -> (r: bool)
        ensures
            r == is_ipv4_text(server_name@),
    {
        regex_match(IPV4_PATTERN, server_name)
    }

    /// The address of a server that is named by a dotted IPv4 address: the
    /// name itself. `None` for any other name, which must be resolved by a
    /// name lookup before use.
    pub fn get_ipv4(server_name: &str) -> (r: Option<String>)
        ensures
            r is Some <==> is_ipv4_text(server_name@),
            r matches Some(address) ==> address@ == server_name@,
    {
        if Self::is_text_ipv4(server_name) {
            Some(server_name.to_owned())
        } else {
            None
        }
    }
}

} // verus!
