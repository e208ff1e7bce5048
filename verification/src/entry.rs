//! A decoded login event and the decoding of a record into it.

use crate::address::{
    address_string, address_text, is_colon_hex, is_dotted_quad, law_address_text_shape,
};
use crate::record::{
    fixed_text, law_text_within_capacity, le_u16, le_u32, signed16, signed32, RawRecord,
    ADDRESS_OFFSET, ADDRESS_SIZE, HOST_OFFSET, LINE_OFFSET, MICROSECONDS_OFFSET, PID_OFFSET,
    RECORD_SIZE, SECONDS_OFFSET, TYPE_OFFSET, USER_OFFSET, UT_HOSTSIZE, UT_LINESIZE, UT_NAMESIZE,
};
use crate::timestamp::{
    instant_nanos, instant_seconds, law_instant_keeps_seconds, rfc3339_text, timestamp_text,
};
use vstd::prelude::*;

verus! {

/// The category of a login event.
#[derive(Clone, Copy, Debug, PartialEq, Eq, Structural)]
pub enum LogonType {
    Empty,
    RunLevel,
    BootTime,
    NewTime,
    OldTime,
    InitProcess,
    LoginProcess,
    UserProcess,
    DeadProcess,
    Accounting,
}

/// The category that a code stands for: codes 1 to 9 have a category of
/// their own, every other code stands for `Empty`.
pub open spec fn category_of(code: int) -> LogonType {
    if code == 1 {
        LogonType::RunLevel
    } else if code == 2 {
        LogonType::BootTime
    } else if code == 3 {
        LogonType::NewTime
    } else if code == 4 {
        LogonType::OldTime
    } else if code == 5 {
        LogonType::InitProcess
    } else if code == 6 {
        LogonType::LoginProcess
    } else if code == 7 {
        LogonType::UserProcess
    } else if code == 8 {
        LogonType::DeadProcess
    } else if code == 9 {
        LogonType::Accounting
    } else {
        LogonType::Empty
    }
}

/// A code outside 1 to 9 stands for `Empty`, and no code from 1 to 9 does;
/// two codes from 1 to 9 stand for different categories.
pub proof fn law_codes_and_categories(code: int, other: int)
    ensures
        (code < 1 || code > 9) ==> category_of(code) == LogonType::Empty,
        1 <= code <= 9 ==> category_of(code) != LogonType::Empty,
        1 <= code <= 9 && 1 <= other <= 9 && code != other ==> category_of(code)
            != category_of(other),
{
}

impl Default for LogonType {
    fn default() -> (t: LogonType)
        ensures
            t == LogonType::Empty,
    {
        LogonType::Empty
    }
}

impl LogonType {
    /// The name of the category, as every output writes it.
    pub open spec fn name_text(self) -> Seq<char> {
        match self {
            LogonType::Empty => "Empty"@,
            LogonType::RunLevel => "RunLevel"@,
            LogonType::BootTime => "BootTime"@,
            LogonType::NewTime => "NewTime"@,
            LogonType::OldTime => "OldTime"@,
            LogonType::InitProcess => "InitProcess"@,
            LogonType::LoginProcess => "LoginProcess"@,
            LogonType::UserProcess => "UserProcess"@,
            LogonType::DeadProcess => "DeadProcess"@,
            LogonType::Accounting => "Accounting"@,
        }
    }

    /// The category that a code stands for.
    pub fn from_code(code: i16) -> (t: LogonType)
        ensures
            t == category_of(code as int),
    {
        match code {
            1 => LogonType::RunLevel,
            2 => LogonType::BootTime,
            3 => LogonType::NewTime,
            4 => LogonType::OldTime,
            5 => LogonType::InitProcess,
            6 => LogonType::LoginProcess,
            7 => LogonType::UserProcess,
            8 => LogonType::DeadProcess,
            9 => LogonType::Accounting,
            _ => LogonType::Empty,
        }
    }

    /// The name of the category.
    pub fn name(&self) -> (s: &'static str)
        ensures
            s@ == self.name_text(),
    {
        match self {
            LogonType::Empty => "Empty",
            LogonType::RunLevel => "RunLevel",
            LogonType::BootTime => "BootTime",
            LogonType::NewTime => "NewTime",
            LogonType::OldTime => "OldTime",
            LogonType::InitProcess => "InitProcess",
            LogonType::LoginProcess => "LoginProcess",
            LogonType::UserProcess => "UserProcess",
            LogonType::DeadProcess => "DeadProcess",
            LogonType::Accounting => "Accounting",
        }
    }

    /// Whether this is the category of a user's session.
    pub fn is_user_process(&self) -> (b: bool)
        ensures
            b == (*self == LogonType::UserProcess),
    {
        match self {
            LogonType::UserProcess => true,
            _ => false,
        }
    }
}

/// One login event, as decoded from a record.
#[derive(Debug)]
pub struct LogonEntry {
    /// The category of the event.
    pub category: LogonType,
    /// The user's name; may be empty.
    pub user: String,
    /// The name of the terminal.
    pub device: String,
    /// The id of the process of the event.
    pub pid: u32,
    /// The remote host's name; may be empty.
    pub host: String,
    /// The time of the event in UTC, as RFC 3339 text.
    pub timestamp: String,
    /// The seconds of the time of the event, as the record holds them.
    pub time_epoch: u32,
    /// The remote address: empty, dotted decimal, or colon-separated
    /// hexadecimal.
    pub ip_addr: String,
}

/// What a login event holds.
pub struct LogonEntryView {
    pub category: LogonType,
    pub user: Seq<char>,
    pub device: Seq<char>,
    pub pid: u32,
    pub host: Seq<char>,
    pub timestamp: Seq<char>,
    pub time_epoch: u32,
    pub ip_addr: Seq<char>,
}

impl View for LogonEntry {
    type V = LogonEntryView;

    open spec fn view(&self) -> LogonEntryView {
        LogonEntryView {
            category: self.category,
            user: self.user@,
            device: self.device@,
            pid: self.pid,
            host: self.host@,
            timestamp: self.timestamp@,
            time_epoch: self.time_epoch,
            ip_addr: self.ip_addr@,
        }
    }
}

/// What each event of a list holds, in order.
pub open spec fn views(entries: Seq<LogonEntry>) -> Seq<LogonEntryView> {
    entries.map_values(|e: LogonEntry| e@)
}

impl Clone for LogonEntry {
    fn clone(&self) -> (e: LogonEntry)
        ensures
            e@ == self@,
    {
        LogonEntry {
            category: self.category,
            user: self.user.clone(),
            device: self.device.clone(),
            pid: self.pid,
            host: self.host.clone(),
            timestamp: self.timestamp.clone(),
            time_epoch: self.time_epoch,
            ip_addr: self.ip_addr.clone(),
        }
    }
}

impl Default for LogonEntry {
    /// The event without a category, with empty texts and zero numbers.
    fn default() -> (e: LogonEntry)
        ensures
            e@ == (LogonEntryView {
                category: LogonType::Empty,
                user: Seq::<char>::empty(),
                device: Seq::<char>::empty(),
                pid: 0,
                host: Seq::<char>::empty(),
                timestamp: Seq::<char>::empty(),
                time_epoch: 0,
                ip_addr: Seq::<char>::empty(),
            }),
    {
        LogonEntry {
            category: LogonType::Empty,
            user: String::new(),
            device: String::new(),
            pid: 0,
            host: String::new(),
            timestamp: String::new(),
            time_epoch: 0,
            ip_addr: String::new(),
        }
    }
}

/// The seconds of the time stamp of a record: seconds since the epoch,
/// without a sign.
pub open spec fn record_seconds(rec: Seq<u8>) -> int {
    le_u32(rec, SECONDS_OFFSET as int)
}

/// The microseconds of the time stamp of a record, as a signed number.
pub open spec fn record_micros(rec: Seq<u8>) -> int {
    signed32(le_u32(rec, MICROSECONDS_OFFSET as int))
}

/// The event that a record of `RECORD_SIZE` bytes holds.
pub open spec fn decode_record(rec: Seq<u8>) -> LogonEntryView {
    LogonEntryView {
        category: category_of(signed16(le_u16(rec, TYPE_OFFSET as int))),
        user: fixed_text(rec.subrange(USER_OFFSET as int, USER_OFFSET + UT_NAMESIZE)),
        device: fixed_text(rec.subrange(LINE_OFFSET as int, LINE_OFFSET + UT_LINESIZE)),
        pid: le_u32(rec, PID_OFFSET as int) as u32,
        host: fixed_text(rec.subrange(HOST_OFFSET as int, HOST_OFFSET + UT_HOSTSIZE)),
        timestamp: rfc3339_text(
            instant_seconds(record_seconds(rec), record_micros(rec)),
            instant_nanos(record_seconds(rec), record_micros(rec)),
        ),
        time_epoch: le_u32(rec, SECONDS_OFFSET as int) as u32,
        ip_addr: address_text(rec.subrange(ADDRESS_OFFSET as int, ADDRESS_OFFSET + ADDRESS_SIZE)),
    }
}

/// What holds of every decoded event: the category is the one of the code,
/// each text fits the field it comes from and holds no character with code
/// zero, the address is empty or has the shape of one kind of address, and
/// the seconds are those of the record, which the time stamp is written for
/// as well.
pub proof fn law_decoded_event(rec: Seq<u8>)
    requires
        rec.len() == RECORD_SIZE,
    ensures
        ({
            let e = decode_record(rec);
            let code = signed16(le_u16(rec, TYPE_OFFSET as int));
            &&& (1 <= code <= 9 ==> e.category == category_of(code) && e.category
                != LogonType::Empty)
            &&& (code < 1 || code > 9 ==> e.category == LogonType::Empty)
            &&& e.user.len() <= UT_NAMESIZE && !e.user.contains('\0')
            &&& e.device.len() <= UT_LINESIZE && !e.device.contains('\0')
            &&& e.host.len() <= UT_HOSTSIZE && !e.host.contains('\0')
            &&& (e.ip_addr.len() == 0 || is_dotted_quad(e.ip_addr) != is_colon_hex(e.ip_addr))
            &&& e.time_epoch == record_seconds(rec)
            &&& e.timestamp == rfc3339_text(
                instant_seconds(record_seconds(rec), record_micros(rec)),
                instant_nanos(record_seconds(rec), record_micros(rec)),
            )
        }),
{
    law_text_within_capacity(rec.subrange(USER_OFFSET as int, USER_OFFSET + UT_NAMESIZE));
    law_text_within_capacity(rec.subrange(LINE_OFFSET as int, LINE_OFFSET + UT_LINESIZE));
    law_text_within_capacity(rec.subrange(HOST_OFFSET as int, HOST_OFFSET + UT_HOSTSIZE));
    law_address_text_shape(rec.subrange(ADDRESS_OFFSET as int, ADDRESS_OFFSET + ADDRESS_SIZE));
}

/// Where the microseconds of a record are those of a clock, from 0 to
/// 999 999, the time stamp of its event is written for the very seconds that
/// `time_epoch` holds, and for that many microseconds after them.
pub proof fn law_timestamp_of_seconds(rec: Seq<u8>)
    requires
        rec.len() == RECORD_SIZE,
        0 <= record_micros(rec) < 1_000_000,
    ensures
        decode_record(rec).timestamp == rfc3339_text(
            decode_record(rec).time_epoch as int,
            record_micros(rec) * 1000,
        ),
{
    law_instant_keeps_seconds(record_seconds(rec), record_micros(rec));
}

/// A specification cannot build a string, so what `from` returns is not
/// given here as a value: `from` itself states what the event holds.
impl vstd::std_specs::convert::FromSpecImpl<RawRecord> for LogonEntry {
    open spec fn obeys_from_spec() -> bool {
        false
    }

    open spec fn from_spec(record: RawRecord) -> LogonEntry {
        arbitrary()
    }
}

impl From<RawRecord> for LogonEntry {
    /// Decodes a record. Every record decodes: there is no error.
    fn from(record: RawRecord) -> (e: LogonEntry)
        ensures
            e@ == decode_record(record@),
    {
        let address = record.address();
        let seconds = record.seconds();
        LogonEntry {
            category: LogonType::from_code(record.category_code()),
            user: record.user(),
            device: record.device(),
            pid: record.pid(),
            host: record.host(),
            timestamp: timestamp_text(seconds, record.microseconds()),
            time_epoch: seconds,
            ip_addr: address_string(&address),
        }
    }
}

} // verus!
