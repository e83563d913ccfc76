//! The receiving side: what a datagram of each length means, and how a
//! dated datagram that carries the synchronisation integer adjusts the
//! listener's clock offset. Receiving from the network and reporting what
//! came are left to the caller.
use crate::clock::{checked_sum, unix_time_millis};
use crate::codec::{
    i32_at, index_integer_bytes, index_integer_date_bytes, integer_bytes, integer_date_bytes,
    lemma_index_integer_date_round_trip, lemma_index_integer_round_trip,
    lemma_integer_date_round_trip, lemma_integer_round_trip, u64_at,
};
use crate::error::IidError;
use crate::utility::IIDUtility;
use vstd::prelude::*;

verus! {

/// What a received datagram carries, told apart by its length.
#[derive(Debug, Clone, Copy, PartialEq, Eq, Structural)]
pub enum Received {
    /// Four bytes: an integer.
    Integer(i32),
    /// Eight bytes: an index and an integer.
    IndexInteger(i32, i32),
    /// Twelve bytes: an integer and a date.
    IntegerDate(i32, u64),
    /// Sixteen bytes: an index, an integer and a date.
    IndexIntegerDate(i32, i32, u64),
    /// Any other length: nothing the listener acts on.
    Ignored,
}

/// What the datagram `bytes` carries.
pub open spec fn received_of(bytes: Seq<u8>) -> Received {
    if bytes.len() == 4 {
        Received::Integer(i32_at(bytes, 0))
    } else if bytes.len() == 8 {
        Received::IndexInteger(i32_at(bytes, 0), i32_at(bytes, 4))
    } else if bytes.len() == 12 {
        Received::IntegerDate(i32_at(bytes, 0), u64_at(bytes, 4))
    } else if bytes.len() == 16 {
        Received::IndexIntegerDate(i32_at(bytes, 0), i32_at(bytes, 4), u64_at(bytes, 8))
    } else {
        Received::Ignored
    }
}

/// The integer and the date of a dated datagram.
pub open spec fn dated(received: Received) -> Option<(i32, u64)> {
    match received {
        Received::IntegerDate(value, date) => Some((value, date)),
        Received::IndexIntegerDate(_, value, date) => Some((value, date)),
        _ => None,
    }
}

/// Whether `received` is a dated datagram whose integer is `sync`.
pub open spec fn synchronises(sync: i32, received: Received) -> bool {
    dated(received) matches Some((value, _)) && value == sync
}

/// The offset between the local NTP time `local_time` and the date of a
/// synchronising datagram: `local_time - date`, both read as `i64`; `None`
/// where the difference leaves `i64`.
pub open spec fn offset_to(local_time: u64, date: u64) -> Option<i64> {
    let d = (local_time as i64) - (date as i64);
    if i64::MIN <= d <= i64::MAX {
        Some(d as i64)
    } else {
        None
    }
}

/// The adjustment after `received` arrives at local NTP time `local_time`:
/// a synchronising datagram sets it to the offset from its date (where that
/// fits an `i64`); anything else leaves it as it was.
pub open spec fn next_adjustment(sync: i32, received: Received, adjustment: i64, local_time: u64) -> i64 {
    match dated(received) {
        Some((value, date)) => if value == sync {
            match offset_to(local_time, date) {
                Some(d) => d,
                None => adjustment,
            }
        } else {
            adjustment
        },
        None => adjustment,
    }
}

/// The local NTP time, in milliseconds, for a clock reading of `now`
/// milliseconds and an NTP offset: their sum reinterpreted as a `u64`;
/// `None` where the sum leaves `i64`.
pub open spec fn ntp_time(now: i64, ntp_offset: i64) -> Option<u64> {
    match checked_sum(now, ntp_offset) {
        Some(t) => Some(t as u64),
        None => None,
    }
}

/// What the datagram `bytes` carries, by its length.
pub fn classify_datagram(bytes: &[u8]) -> (r: Received)
    ensures
        r == received_of(bytes@),
{
    let size = bytes.len();
    if size == 4 {
        match IIDUtility::bytes_to_int(bytes) {
            Ok(value) => Received::Integer(value),
            Err(_) => Received::Ignored,
        }
    } else if size == 8 {
        match IIDUtility::bytes_to_index_integer(bytes) {
            Ok((index, value)) => Received::IndexInteger(index, value),
            Err(_) => Received::Ignored,
        }
    } else if size == 12 {
        match IIDUtility::bytes_to_integer_date(bytes) {
            Ok((value, date)) => Received::IntegerDate(value, date),
            Err(_) => Received::Ignored,
        }
    } else if size == 16 {
        match IIDUtility::bytes_to_index_integer_date(bytes) {
            Ok((index, value, date)) => Received::IndexIntegerDate(index, value, date),
            Err(_) => Received::Ignored,
        }
    } else {
        Received::Ignored
    }
}

/// The state of a listener, as plain values.
pub struct ListenerModel {
    pub ipv4: Seq<char>,
    pub port: u16,
    pub ntp_offset_in_milliseconds: i64,
    pub adjustment: i64,
    pub integer_to_sync_ntp: i32,
}

/// A listener for IID datagrams: where it listens, its NTP offset, the
/// integer whose dated datagrams synchronise it, and the adjustment that the
/// last such datagram gave.
#[derive(Clone)]
pub struct ListenUdpIID {
    ipv4: String,
    port: u16,
    ntp_offset_in_milliseconds: i64,
    manual_adjustment_source_to_local_ntp_offset_in_milliseconds: i64,
    integer_to_sync_ntp: i32,
}

impl View for ListenUdpIID {
    type V = ListenerModel;

    closed spec fn view(&self) -> ListenerModel {
        ListenerModel {
            ipv4: self.ipv4@,
            port: self.port,
            ntp_offset_in_milliseconds: self.ntp_offset_in_milliseconds,
            adjustment: self.manual_adjustment_source_to_local_ntp_offset_in_milliseconds,
            integer_to_sync_ntp: self.integer_to_sync_ntp,
        }
    }
}

impl ListenUdpIID {
    /// A listener on the address `ipv4` (already resolved) and `port`, with
    /// the given NTP offset and synchronisation integer, and no adjustment
    /// yet.
    pub fn new(ipv4: String, port: u16, ntp_offset_in_milliseconds: i64, integer_to_sync_ntp: i32) -> (r:
        ListenUdpIID)
        ensures
            r@.ipv4 == ipv4@,
            r@.port == port,
            r@.ntp_offset_in_milliseconds == ntp_offset_in_milliseconds,
            r@.adjustment == 0,
            r@.integer_to_sync_ntp == integer_to_sync_ntp,
    {
        ListenUdpIID {
            ipv4,
            port,
            ntp_offset_in_milliseconds,
            manual_adjustment_source_to_local_ntp_offset_in_milliseconds: 0,
            integer_to_sync_ntp,
        }
    }

    /// The address the listener binds to.
    pub fn ipv4(&self) -> (r: &str)
        ensures
            r@ == self@.ipv4,
    {
        self.ipv4.as_str()
    }

    /// The port the listener binds to.
    pub fn port(&self) -> (r: u16)
        ensures
            r == self@.port,
    {
        self.port
    }

    /// The listener's NTP offset in milliseconds.
    pub fn ntp_offset_in_milliseconds(&self) -> (r: i64)
        ensures
            r == self@.ntp_offset_in_milliseconds,
    {
        self.ntp_offset_in_milliseconds
    }

    /// The adjustment that the last synchronising datagram gave.
    pub fn adjustment(&self) -> (r: i64)
        ensures
            r == self@.adjustment,
    {
        self.manual_adjustment_source_to_local_ntp_offset_in_milliseconds
    }

    /// The integer whose dated datagrams synchronise the listener.
    pub fn integer_to_sync_ntp(&self) -> (r: i32)
        ensures
            r == self@.integer_to_sync_ntp,
    {
        self.integer_to_sync_ntp
    }

    /// The local NTP time in milliseconds for a clock reading of `now`
    /// milliseconds; an overflow error where the sum leaves `i64`.
    pub fn ntp_time_at(now: i64, ntp_offset_in_milliseconds: i64) -> (r: Result<u64, IidError>)
        ensures
            ntp_time(now, ntp_offset_in_milliseconds) matches Some(t) ==> r == Ok::<u64, IidError>(t),
            ntp_time(now, ntp_offset_in_milliseconds) is None ==> r == Err::<u64, IidError>(
                IidError::ArithmeticOverflow,
            ),
    {
        match now.checked_add(ntp_offset_in_milliseconds) {
            Some(t) => Ok(t as u64),
            None => Err(IidError::ArithmeticOverflow),
        }
    }

    /// The local NTP time in milliseconds: the system clock's reading plus
    /// the NTP offset. The reading is not known in advance: what is stated
    /// is that the result is the NTP time of some reading, and which errors
    /// can come.
    pub fn get_ntp_time_in_milliseconds(ntp_offset_in_milliseconds: i64) -> (r: Result<u64, IidError>)
        ensures
            r matches Ok(t) ==> exists|now: i64|
                #![trigger ntp_time(now, ntp_offset_in_milliseconds)]
                ntp_time(now, ntp_offset_in_milliseconds) == Some(t),
            r matches Err(e) ==> e == IidError::ClockBeforeUnixEpoch || e
                == IidError::ArithmeticOverflow,
            r == Err::<u64, IidError>(IidError::ArithmeticOverflow) ==> exists|now: i64|
                #![trigger ntp_time(now, ntp_offset_in_milliseconds)]
                ntp_time(now, ntp_offset_in_milliseconds) is None,
    {
        let now = unix_time_millis()?;
        Self::ntp_time_at(now, ntp_offset_in_milliseconds)
    }

    /// Takes in a datagram that arrived at local NTP time `local_time`:
    /// returns what it carries and updates the adjustment as
    /// `next_adjustment` says.
    pub fn receive_at(&mut self, bytes: &[u8], local_time: u64) -> (r: Received)
        ensures
            r == received_of(bytes@),
            final(self)@ == (ListenerModel {
                adjustment: next_adjustment(
                    old(self)@.integer_to_sync_ntp,
                    r,
                    old(self)@.adjustment,
                    local_time,
                ),
                ..old(self)@
            }),
    {
        let received = classify_datagram(bytes);
        let synced = match received {
            Received::IntegerDate(value, date) => if value == self.integer_to_sync_ntp {
                Some(date)
            } else {
                None
            },
            Received::IndexIntegerDate(_, value, date) => if value == self.integer_to_sync_ntp {
                Some(date)
            } else {
                None
            },
            _ => None,
        };
        if let Some(date) = synced {
            if let Some(d) = (local_time as i64).checked_sub(date as i64) {
                self.manual_adjustment_source_to_local_ntp_offset_in_milliseconds = d;
            }
        }
        received
    }

    /// Takes in a datagram as it arrives: returns what it carries and, for a
    /// synchronising datagram, reads the local NTP time and updates the
    /// adjustment from it. Where the time cannot be read the adjustment
    /// stays as it was.
    pub fn receive(&mut self, bytes: &[u8]) -> (r: Received)
        ensures
            r == received_of(bytes@),
            final(self)@.ipv4 == old(self)@.ipv4,
            final(self)@.port == old(self)@.port,
            final(self)@.ntp_offset_in_milliseconds == old(self)@.ntp_offset_in_milliseconds,
            final(self)@.integer_to_sync_ntp == old(self)@.integer_to_sync_ntp,
            !synchronises(old(self)@.integer_to_sync_ntp, r) ==> final(self)@.adjustment == old(
                self,
            )@.adjustment,
            synchronises(old(self)@.integer_to_sync_ntp, r) ==> (final(self)@.adjustment == old(
                self,
            )@.adjustment || exists|now: i64|
                #![trigger ntp_time(now, old(self)@.ntp_offset_in_milliseconds)]
                ntp_time(now, old(self)@.ntp_offset_in_milliseconds) matches Some(t)
                    && final(self)@.adjustment == next_adjustment(
                    old(self)@.integer_to_sync_ntp,
                    r,
                    old(self)@.adjustment,
                    t,
                )),
    {
        let received = classify_datagram(bytes);
        let needs_time = match received {
            Received::IntegerDate(value, _) => value == self.integer_to_sync_ntp,
            Received::IndexIntegerDate(_, value, _) => value == self.integer_to_sync_ntp,
            _ => false,
        };
        if needs_time {
            match Self::get_ntp_time_in_milliseconds(self.ntp_offset_in_milliseconds) {
                Ok(local_time) => {
                    return self.receive_at(bytes, local_time);
                },
                Err(_) => {},
            }
        }
        received
    }
}

/// A listener reads every datagram that the encoders write as what was
/// written: an integer as an integer, an index and an integer as such, and
/// so on for the dated forms.
pub proof fn lemma_listener_reads_what_was_written(index: i32, value: i32, date: u64)
    ensures
        received_of(integer_bytes(value)) == Received::Integer(value),
        received_of(index_integer_bytes(index, value)) == Received::IndexInteger(index, value),
        received_of(integer_date_bytes(value, date)) == Received::IntegerDate(value, date),
        received_of(index_integer_date_bytes(index, value, date)) == Received::IndexIntegerDate(
            index,
            value,
            date,
        ),
{
    lemma_integer_round_trip(value);
    lemma_index_integer_round_trip(index, value);
    lemma_integer_date_round_trip(value, date);
    lemma_index_integer_date_round_trip(index, value, date);
}

/// A dated datagram whose integer is the synchronisation integer sets the
/// adjustment to the local NTP time minus its date, where that difference
/// fits an `i64`; every other datagram leaves the adjustment unchanged. So
/// for the datagrams the encoders write: an integer-date or an
/// index-integer-date datagram resynchronises exactly when its integer is
/// the synchronisation integer, and an integer or an index-integer datagram
/// never does.
pub proof fn lemma_sync_sets_adjustment(
    sync: i32,
    index: i32,
    value: i32,
    date: u64,
    adjustment: i64,
    local_time: u64,
)
    ensures
        value == sync && i64::MIN <= (local_time as i64) - (date as i64) <= i64::MAX
            ==> next_adjustment(
            sync,
            received_of(index_integer_date_bytes(index, value, date)),
            adjustment,
            local_time,
        ) == (local_time as i64) - (date as i64),
        value == sync && i64::MIN <= (local_time as i64) - (date as i64) <= i64::MAX
            ==> next_adjustment(
            sync,
            received_of(integer_date_bytes(value, date)),
            adjustment,
            local_time,
        ) == (local_time as i64) - (date as i64),
        value != sync ==> next_adjustment(
            sync,
            received_of(index_integer_date_bytes(index, value, date)),
            adjustment,
            local_time,
        ) == adjustment,
        value != sync ==> next_adjustment(
            sync,
            received_of(integer_date_bytes(value, date)),
            adjustment,
            local_time,
        ) == adjustment,
        next_adjustment(sync, received_of(index_integer_bytes(index, value)), adjustment, local_time)
            == adjustment,
        next_adjustment(sync, received_of(integer_bytes(value)), adjustment, local_time)
            == adjustment,
{
    lemma_listener_reads_what_was_written(index, value, date);
}

/// The adjustment after any datagram `bytes`: only a 12-byte datagram whose
/// first `i32` is the synchronisation integer, or a 16-byte datagram whose
/// second `i32` is, changes it, to the local NTP time minus the datagram's
/// date (where that difference fits an `i64`). Every other datagram, of any
/// length, leaves it as it was.
pub proof fn lemma_adjustment_of_any_datagram(
    sync: i32,
    bytes: Seq<u8>,
    adjustment: i64,
    local_time: u64,
)
    ensures
        bytes.len() != 12 && bytes.len() != 16 ==> next_adjustment(
            sync,
            received_of(bytes),
            adjustment,
            local_time,
        ) == adjustment,
        bytes.len() == 12 && i32_at(bytes, 0) != sync ==> next_adjustment(
            sync,
            received_of(bytes),
            adjustment,
            local_time,
        ) == adjustment,
        bytes.len() == 16 && i32_at(bytes, 4) != sync ==> next_adjustment(
            sync,
            received_of(bytes),
            adjustment,
            local_time,
        ) == adjustment,
        bytes.len() == 12 && i32_at(bytes, 0) == sync ==> next_adjustment(
            sync,
            received_of(bytes),
            adjustment,
            local_time,
        ) == (if i64::MIN <= (local_time as i64) - (u64_at(bytes, 4) as i64) <= i64::MAX {
            (local_time as i64) - (u64_at(bytes, 4) as i64)
        } else {
            adjustment as int
        }),
        bytes.len() == 16 && i32_at(bytes, 4) == sync ==> next_adjustment(
            sync,
            received_of(bytes),
            adjustment,
            local_time,
        ) == (if i64::MIN <= (local_time as i64) - (u64_at(bytes, 8) as i64) <= i64::MAX {
            (local_time as i64) - (u64_at(bytes, 8) as i64)
        } else {
            adjustment as int
        }),
{
}

} // verus!
