//! The sending side: where datagrams go, the NTP offset that dates them,
//! and the datagrams that each kind of push sends. Sending itself is left
//! to the caller.
use crate::clock::{checked_sum, unix_time_millis, unix_time_secs};
use crate::codec::{index_integer_bytes, index_integer_date_bytes};
use crate::error::IidError;
use crate::utility::IIDUtility;
use vstd::prelude::*;

verus! {

/// The state of a sender, as plain values.
pub struct SenderModel {
    pub ipv4: Seq<char>,
    pub port: u16,
    pub ntp_offset: i64,
}

/// The date, in milliseconds, of a datagram sent `milliseconds` after a
/// clock reading of `now` milliseconds with the NTP offset `ntp_offset`:
/// `now + ntp_offset + milliseconds` reinterpreted as a `u64`; `None` where
/// a sum leaves `i64`.
pub open spec fn ntp_date_in_milliseconds(now: i64, ntp_offset: i64, milliseconds: i64) -> Option<
    u64,
> {
    match checked_sum(now, ntp_offset) {
        Some(t) => match checked_sum(t, milliseconds) {
            Some(u) => Some(u as u64),
            None => None,
        },
        None => None,
    }
}

/// The date of a datagram sent at a clock reading of `now_secs` whole
/// seconds, shifted by `ntp_offset`: `now_secs` read as an `i64`, plus the
/// offset, reinterpreted as a `u64`; `None` where the sum leaves `i64`.
pub open spec fn ntp_date_in_seconds(now_secs: u64, ntp_offset: i64) -> Option<u64> {
    match checked_sum(now_secs as i64, ntp_offset) {
        Some(t) => Some(t as u64),
        None => None,
    }
}

/// The date of a datagram sent `seconds` after a clock reading of `now`
/// milliseconds with the NTP offset `ntp_offset`: the millisecond date with
/// `seconds * 1000`; `None` where that product or a sum leaves `i64`.
pub open spec fn ntp_date_after_seconds(now: i64, ntp_offset: i64, seconds: i64) -> Option<u64> {
    if i64::MIN <= seconds * 1000 <= i64::MAX {
        ntp_date_in_milliseconds(now, ntp_offset, (seconds * 1000) as i64)
    } else {
        None
    }
}

/// A sender of IID datagrams: the address and port they go to, and the
/// offset in milliseconds from the local clock to the server's NTP clock.
pub struct SendUdpIID {
    ipv4: String,
    port: u16,
    ntp_offset_local_to_server_in_milliseconds: i64,
}

impl View for SendUdpIID {
    type V = SenderModel;

    closed spec fn view(&self) -> SenderModel {
        SenderModel {
            ipv4: self.ipv4@,
            port: self.port,
            ntp_offset: self.ntp_offset_local_to_server_in_milliseconds,
        }
    }
}

impl SendUdpIID {
    /// A sender to the address `ipv4` (already resolved) and `port`, with no
    /// NTP offset yet.
    pub fn new(ipv4: String, port: u16) -> (r: SendUdpIID)
        ensures
            r@.ipv4 == ipv4@,
            r@.port == port,
            r@.ntp_offset == 0,
    {
        SendUdpIID { ipv4, port, ntp_offset_local_to_server_in_milliseconds: 0 }
    }

    /// The address datagrams go to.
    pub fn ipv4(&self) -> (r: &str)
        ensures
            r@ == self@.ipv4,
    {
        self.ipv4.as_str()
    }

    /// The port datagrams go to.
    pub fn port(&self) -> (r: u16)
        ensures
            r == self@.port,
    {
        self.port
    }

    /// The offset in milliseconds from the local clock to the server's.
    pub fn get_ntp_offset(&self) -> (r: i64)
        ensures
            r == self@.ntp_offset,
    {
        self.ntp_offset_local_to_server_in_milliseconds
    }

    /// Sets the offset in milliseconds from the local clock to the server's.
    pub fn set_ntp_offset_tick(&mut self, ntp_offset_local_to_server: i64)
        ensures
            final(self)@ == (SenderModel { ntp_offset: ntp_offset_local_to_server, ..old(self)@ }),
    {
        self.ntp_offset_local_to_server_in_milliseconds = ntp_offset_local_to_server;
    }

    /// The datagram of an index and a random integer between `from_value`
    /// and `to_value`, both included. The range must not be empty.
    pub fn random_integer_bytes(&self, index: i32, from_value: i32, to_value: i32) -> (r: Vec<u8>)
        requires
            from_value <= to_value,
        ensures
            exists|value: i32|
                from_value <= value <= to_value && r@ == #[trigger] index_integer_bytes(
                    index,
                    value,
                ),
    {
        let value = IIDUtility::get_random_integer(from_value, to_value);
        match IIDUtility::index_integer_to_bytes(index, value) {
            Ok(bytes) => bytes,
            Err(_) => Vec::new(),
        }
    }

    /// The datagram of an index and an integer dated at the clock reading
    /// `now_secs`, in whole seconds, without the NTP offset.
    pub fn index_integer_date_local_at_bytes(index: i32, value: i32, now_secs: u64) -> (r: Vec<
        u8,
    >)
        ensures
            r@ == index_integer_date_bytes(index, value, now_secs),
    {
        match IIDUtility::index_integer_date_to_bytes(index, value, now_secs) {
            Ok(bytes) => bytes,
            Err(_) => Vec::new(),
        }
    }

    /// The datagram of an index and an integer dated now, in whole seconds
    /// since the Unix epoch on the local clock. The reading is not known in
    /// advance: what is stated is that the date is some reading, and which
    /// error can come.
    pub fn index_integer_date_local_now_bytes(index: i32, value: i32) -> (r: Result<
        Vec<u8>,
        IidError,
    >)
        ensures
            r matches Ok(b) ==> exists|now_secs: u64| b@ == #[trigger] index_integer_date_bytes(
                index,
                value,
                now_secs,
            ),
            r matches Err(e) ==> e == IidError::ClockBeforeUnixEpoch,
    {
        let now_secs = unix_time_secs()?;
        Ok(Self::index_integer_date_local_at_bytes(index, value, now_secs))
    }

    /// The datagram of an index and an integer dated at the clock reading
    /// `now_secs` (whole seconds) shifted by the NTP offset; an overflow
    /// error where the date leaves `i64`.
    pub fn index_integer_date_ntp_at_bytes(&self, index: i32, value: i32, now_secs: u64) -> (r:
        Result<Vec<u8>, IidError>)
        ensures
            ntp_date_in_seconds(now_secs, self@.ntp_offset) matches Some(d) ==> (r matches Ok(b)
                && b@ == index_integer_date_bytes(index, value, d)),
            ntp_date_in_seconds(now_secs, self@.ntp_offset) is None ==> r == Err::<
                Vec<u8>,
                IidError,
            >(IidError::ArithmeticOverflow),
    {
        match (now_secs as i64).checked_add(self.ntp_offset_local_to_server_in_milliseconds) {
            Some(date) => IIDUtility::index_integer_date_to_bytes(index, value, date as u64),
            None => Err(IidError::ArithmeticOverflow),
        }
    }

    /// The datagram of an index and an integer dated now, in whole seconds
    /// since the Unix epoch, shifted by the NTP offset. The reading is not
    /// known in advance: what is stated is that the date is the shifted date
    /// of some reading, and which errors can come.
    pub fn index_integer_date_ntp_now_bytes(&self, index: i32, value: i32) -> (r: Result<
        Vec<u8>,
        IidError,
    >)
        ensures
            r matches Ok(b) ==> exists|now_secs: u64|
                #![trigger ntp_date_in_seconds(now_secs, self@.ntp_offset)]
                ntp_date_in_seconds(now_secs, self@.ntp_offset) matches Some(d) && b@
                    == index_integer_date_bytes(index, value, d),
            r matches Err(e) ==> e == IidError::ClockBeforeUnixEpoch || e
                == IidError::ArithmeticOverflow,
            r == Err::<Vec<u8>, IidError>(IidError::ArithmeticOverflow) ==> exists|now_secs: u64|
                #![trigger ntp_date_in_seconds(now_secs, self@.ntp_offset)]
                ntp_date_in_seconds(now_secs, self@.ntp_offset) is None,
    {
        let now_secs = unix_time_secs()?;
        self.index_integer_date_ntp_at_bytes(index, value, now_secs)
    }

    /// The datagram of an index and an integer dated `milliseconds` after
    /// the clock reading `now` (milliseconds), shifted by the NTP offset; an
    /// overflow error where the date leaves `i64`.
    pub fn index_integer_date_ntp_in_milliseconds_at_bytes(
        &self,
        index: i32,
        value: i32,
        now: i64,
        milliseconds: i64,
    ) -> (r: Result<Vec<u8>, IidError>)
        ensures
            ntp_date_in_milliseconds(now, self@.ntp_offset, milliseconds) matches Some(d) ==> (
            r matches Ok(b) && b@ == index_integer_date_bytes(index, value, d)),
            ntp_date_in_milliseconds(now, self@.ntp_offset, milliseconds) is None ==> r == Err::<
                Vec<u8>,
                IidError,
            >(IidError::ArithmeticOverflow),
    {
        let shifted = match now.checked_add(self.ntp_offset_local_to_server_in_milliseconds) {
            Some(t) => t,
            None => return Err(IidError::ArithmeticOverflow),
        };
        match shifted.checked_add(milliseconds) {
            Some(date) => IIDUtility::index_integer_date_to_bytes(index, value, date as u64),
            None => Err(IidError::ArithmeticOverflow),
        }
    }

    /// The datagram of an index and an integer dated `milliseconds` after
    /// now, in milliseconds since the Unix epoch, shifted by the NTP offset.
    /// The reading is not known in advance: what is stated is that the date
    /// is that of some reading, and which errors can come.
    pub fn index_integer_date_ntp_in_milliseconds_bytes(
        &self,
        index: i32,
        value: i32,
        milliseconds: i64,
    ) -> (r: Result<Vec<u8>, IidError>)
        ensures
            r matches Ok(b) ==> exists|now: i64|
                #![trigger ntp_date_in_milliseconds(now, self@.ntp_offset, milliseconds)]
                ntp_date_in_milliseconds(now, self@.ntp_offset, milliseconds) matches Some(d)
                    && b@ == index_integer_date_bytes(index, value, d),
            r matches Err(e) ==> e == IidError::ClockBeforeUnixEpoch || e
                == IidError::ArithmeticOverflow,
            r == Err::<Vec<u8>, IidError>(IidError::ArithmeticOverflow) ==> exists|now: i64|
                #![trigger ntp_date_in_milliseconds(now, self@.ntp_offset, milliseconds)]
                ntp_date_in_milliseconds(now, self@.ntp_offset, milliseconds) is None,
    {
        let now = unix_time_millis()?;
        self.index_integer_date_ntp_in_milliseconds_at_bytes(index, value, now, milliseconds)
    }

    /// The datagram of an index and an integer dated `seconds` after the
    /// clock reading `now` (milliseconds), shifted by the NTP offset: the
    /// millisecond form with `seconds * 1000`; an overflow error where that
    /// product or the date leaves `i64`.
    pub fn index_integer_date_ntp_in_seconds_at_bytes(
        &self,
        index: i32,
        value: i32,
        now: i64,
        seconds: i64,
    ) -> (r: Result<Vec<u8>, IidError>)
        ensures
            ntp_date_after_seconds(now, self@.ntp_offset, seconds) matches Some(d) ==> (r matches Ok(
                b,
            ) && b@ == index_integer_date_bytes(index, value, d)),
            ntp_date_after_seconds(now, self@.ntp_offset, seconds) is None ==> r == Err::<
                Vec<u8>,
                IidError,
            >(IidError::ArithmeticOverflow),
    {
        match seconds.checked_mul(1000) {
            Some(milliseconds) => self.index_integer_date_ntp_in_milliseconds_at_bytes(
                index,
                value,
                now,
                milliseconds,
            ),
            None => Err(IidError::ArithmeticOverflow),
        }
    }

    /// The datagram of an index and an integer dated `seconds` after now,
    /// shifted by the NTP offset: the millisecond form with `seconds * 1000`;
    /// an overflow error where that product leaves `i64`, checked before the
    /// clock is read.
    pub fn index_integer_date_ntp_in_seconds_bytes(&self, index: i32, value: i32, seconds: i64) -> (r:
        Result<Vec<u8>, IidError>)
        ensures
            !(i64::MIN <= seconds * 1000 <= i64::MAX) ==> r == Err::<Vec<u8>, IidError>(
                IidError::ArithmeticOverflow,
            ),
            r matches Ok(b) ==> exists|now: i64|
                #![trigger ntp_date_after_seconds(now, self@.ntp_offset, seconds)]
                ntp_date_after_seconds(now, self@.ntp_offset, seconds) matches Some(d) && b@
                    == index_integer_date_bytes(index, value, d),
            r matches Err(e) ==> e == IidError::ClockBeforeUnixEpoch || e
                == IidError::ArithmeticOverflow,
            r == Err::<Vec<u8>, IidError>(IidError::ArithmeticOverflow) ==> exists|now: i64|
                #![trigger ntp_date_after_seconds(now, self@.ntp_offset, seconds)]
                ntp_date_after_seconds(now, self@.ntp_offset, seconds) is None,
    {
        if seconds.checked_mul(1000).is_none() {
            assert(ntp_date_after_seconds(0, self@.ntp_offset, seconds) is None);
            return Err(IidError::ArithmeticOverflow);
        }
        let now = unix_time_millis()?;
        self.index_integer_date_ntp_in_seconds_at_bytes(index, value, now, seconds)
    }
}

/// On one clock reading, the seconds form dates a datagram as the
/// millisecond form does with `seconds * 1000`, where that product fits an
/// `i64`.
pub proof fn lemma_seconds_form_is_milliseconds_form(now: i64, ntp_offset: i64, seconds: i64)
    requires
        i64::MIN <= seconds * 1000 <= i64::MAX,
    ensures
        ntp_date_after_seconds(now, ntp_offset, seconds) == ntp_date_in_milliseconds(
            now,
            ntp_offset,
            (seconds * 1000) as i64,
        ),
{
}

} // verus!
