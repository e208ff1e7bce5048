//! The fixed-size record of the login-accounting log: its layout, the reading
//! of its integer and text fields, and the cutting of a log into records.
//!
//! A record is read field by field from its bytes, at the offsets below.
//! Integers are stored least significant byte first.

use vstd::prelude::*;
use vstd::slice::slice_subrange;

verus! {

/// Bytes in one record.
pub const RECORD_SIZE: usize = 384;

/// Offset of the two-byte category code.
pub const TYPE_OFFSET: usize = 0;

/// Offset of the four-byte process id.
pub const PID_OFFSET: usize = 4;

/// Offset of the device-name field.
pub const LINE_OFFSET: usize = 8;

/// Bytes in the device-name field.
pub const UT_LINESIZE: usize = 32;

/// Offset of the short id, which no output shows.
pub const ID_OFFSET: usize = 40;

/// Bytes in the short id.
pub const ID_SIZE: usize = 4;

/// Offset of the user-name field.
pub const USER_OFFSET: usize = 44;

/// Bytes in the user-name field.
pub const UT_NAMESIZE: usize = 32;

/// Offset of the host field.
pub const HOST_OFFSET: usize = 76;

/// Bytes in the host field.
pub const UT_HOSTSIZE: usize = 256;

/// Offset of the exit-status pair, which no output shows.
pub const EXIT_OFFSET: usize = 332;

/// Offset of the four-byte session id, which no output shows.
pub const SESSION_OFFSET: usize = 336;

/// Offset of the four-byte seconds of the time stamp.
pub const SECONDS_OFFSET: usize = 340;

/// Offset of the four-byte microseconds of the time stamp.
pub const MICROSECONDS_OFFSET: usize = 344;

/// Offset of the address field.
pub const ADDRESS_OFFSET: usize = 348;

/// Bytes in the address field: four words of four bytes.
pub const ADDRESS_SIZE: usize = 16;

/// Offset of the reserved bytes that end the record.
pub const RESERVED_OFFSET: usize = 364;

/// Number of the reserved bytes.
pub const RESERVED_SIZE: usize = 20;

/// The fields lie in the record in the order of their offsets, none reaches
/// into the next, and the reserved bytes end where the record ends. Only the
/// two bytes after the category code belong to no field.
pub proof fn law_fields_fill_the_record()
    ensures
        TYPE_OFFSET + 2 + 2 == PID_OFFSET,
        PID_OFFSET + 4 == LINE_OFFSET,
        LINE_OFFSET + UT_LINESIZE == ID_OFFSET,
        ID_OFFSET + ID_SIZE == USER_OFFSET,
        USER_OFFSET + UT_NAMESIZE == HOST_OFFSET,
        HOST_OFFSET + UT_HOSTSIZE == EXIT_OFFSET,
        EXIT_OFFSET + 4 == SESSION_OFFSET,
        SESSION_OFFSET + 4 == SECONDS_OFFSET,
        SECONDS_OFFSET + 4 == MICROSECONDS_OFFSET,
        MICROSECONDS_OFFSET + 4 == ADDRESS_OFFSET,
        ADDRESS_OFFSET + ADDRESS_SIZE == RESERVED_OFFSET,
        RESERVED_OFFSET + RESERVED_SIZE == RECORD_SIZE,
{
}

/// The unsigned number that the two bytes at `at` store.
pub open spec fn le_u16(s: Seq<u8>, at: int) -> int {
    s[at] as int + 256 * (s[at + 1] as int)
}

/// The unsigned number that the four bytes at `at` store.
pub open spec fn le_u32(s: Seq<u8>, at: int) -> int {
    s[at] as int + 256 * (s[at + 1] as int) + 65536 * (s[at + 2] as int) + 16777216 * (s[at
        + 3] as int)
}

/// A 16-bit pattern read as a signed number.
pub open spec fn signed16(v: int) -> int {
    if v < 32768 {
        v
    } else {
        v - 65536
    }
}

/// A 32-bit pattern read as a signed number.
pub open spec fn signed32(v: int) -> int {
    if v < 2147483648 {
        v
    } else {
        v - 4294967296
    }
}

/// Number of bytes of `buf` before its first zero byte; all of them where it
/// has none.
pub open spec fn text_len(buf: Seq<u8>) -> nat
    decreases buf.len(),
{
    if buf.len() == 0 || buf[0] == 0 {
        0
    } else {
        1 + text_len(buf.drop_first())
    }
}

/// The text of a fixed-capacity field: each byte before the first zero byte
/// taken as the character with that code.
pub open spec fn fixed_text(buf: Seq<u8>) -> Seq<char> {
    Seq::new(text_len(buf), |i: int| buf[i] as char)
}

/// `text_len` is the one position that ends the run of nonzero bytes.
pub proof fn lemma_text_len(buf: Seq<u8>, k: int)
    requires
        0 <= k <= buf.len(),
        forall|i: int| 0 <= i < k ==> buf[i] != 0,
        k == buf.len() || buf[k] == 0,
    ensures
        text_len(buf) == k,
    decreases buf.len(),
{
    if k > 0 {
        let rest = buf.drop_first();
        assert forall|i: int| 0 <= i < k - 1 implies rest[i] != 0 by {
            assert(rest[i] == buf[i + 1]);
        }
        lemma_text_len(rest, k - 1);
    }
}

/// The text of a field is no longer than the field, stands for nonzero bytes
/// only, and ends where the field ends or holds a zero byte.
pub proof fn lemma_text_len_bounds(buf: Seq<u8>)
    ensures
        text_len(buf) <= buf.len(),
        forall|i: int| 0 <= i < text_len(buf) ==> buf[i] != 0,
        text_len(buf) == buf.len() || buf[text_len(buf) as int] == 0,
    decreases buf.len(),
{
    if buf.len() == 0 || buf[0] == 0 {
    } else {
        let rest = buf.drop_first();
        lemma_text_len_bounds(rest);
        assert forall|i: int| 0 <= i < text_len(buf) implies buf[i] != 0 by {
            if i > 0 {
                assert(rest[i - 1] == buf[i]);
            }
        }
        if text_len(buf) != buf.len() {
            assert(rest[text_len(rest) as int] == buf[text_len(buf) as int]);
        }
    }
}

/// A field whose first zero byte is at position `k` holds a text of exactly
/// `k` characters.
pub proof fn law_text_ends_at_first_zero(buf: Seq<u8>, k: int)
    requires
        0 <= k < buf.len(),
        buf[k] == 0,
        forall|i: int| 0 <= i < k ==> buf[i] != 0,
    ensures
        fixed_text(buf).len() == k,
        forall|i: int| 0 <= i < k ==> fixed_text(buf)[i] == buf[i] as char,
{
    lemma_text_len(buf, k);
}

/// A field without a zero byte holds a text of as many characters as the field
/// has bytes.
pub proof fn law_text_fills_field(buf: Seq<u8>)
    requires
        forall|i: int| 0 <= i < buf.len() ==> buf[i] != 0,
    ensures
        fixed_text(buf).len() == buf.len(),
        forall|i: int| 0 <= i < buf.len() ==> fixed_text(buf)[i] == buf[i] as char,
{
    lemma_text_len(buf, buf.len() as int);
}

/// The text of a field never exceeds the field's capacity and never holds the
/// character with code zero.
pub proof fn law_text_within_capacity(buf: Seq<u8>)
    ensures
        fixed_text(buf).len() <= buf.len(),
        forall|i: int| 0 <= i < fixed_text(buf).len() ==> fixed_text(buf)[i] != '\0',
{
    lemma_text_len_bounds(buf);
    assert forall|i: int| 0 <= i < fixed_text(buf).len() implies fixed_text(buf)[i] != '\0' by {
        assert(buf[i] != 0);
        assert(fixed_text(buf)[i] == buf[i] as char);
    }
}

/// The text of the field of `width` bytes that starts at `at`.
pub fn decode_field(bytes: &[u8], at: usize, width: usize) -> (s: String)
    requires
        at + width <= bytes@.len(),
    ensures
        s@ == fixed_text(bytes@.subrange(at as int, at + width)),
{
    let ghost buf = bytes@.subrange(at as int, at + width);
    let total: usize = bytes.len();
    let mut s = String::new();
    let mut i: usize = 0;
    while i < width
        invariant
            at + width <= total,
            total == bytes@.len(),
            buf == bytes@.subrange(at as int, at + width),
            0 <= i <= width,
            forall|j: int| 0 <= j < i ==> buf[j] != 0,
            s@ == Seq::new(i as nat, |j: int| buf[j] as char),
        ensures
            i == width || buf[i as int] == 0,
        decreases width - i,
    {
        let b = bytes[at + i];
        assert(b == buf[i as int]);
        if b == 0 {
            break ;
        }
        s.push(b as char);
        assert(s@ =~= Seq::new((i + 1) as nat, |j: int| buf[j] as char));
        i += 1;
    }
    proof {
        lemma_text_len(buf, i as int);
    }
    s
}

/// The text of a fixed-capacity field.
pub fn decode_text(buf: &[u8]) -> (s: String)
    ensures
        s@ == fixed_text(buf@),
{
    assert(buf@.subrange(0, buf@.len() as int) =~= buf@);
    decode_field(buf, 0, buf.len())
}

/// One record of the log, as its bytes.
#[derive(Clone, Copy, Debug)]
pub struct RawRecord {
    bytes: [u8; RECORD_SIZE],
}

impl View for RawRecord {
    type V = Seq<u8>;

    closed spec fn view(&self) -> Seq<u8> {
        self.bytes@
    }
}

impl Default for RawRecord {
    /// The record of zero bytes.
    fn default() -> (r: RawRecord)
        ensures
            r@ == Seq::new(RECORD_SIZE as nat, |i: int| 0u8),
    {
        let r = RawRecord { bytes: [0u8;RECORD_SIZE] };
        assert(r@ =~= Seq::new(RECORD_SIZE as nat, |i: int| 0u8));
        r
    }
}

impl RawRecord {
    /// Every record has `RECORD_SIZE` bytes.
    pub proof fn law_record_size(self)
        ensures
            self@.len() == RECORD_SIZE,
    {
    }

    /// The record that holds the given bytes; `None` unless there are exactly
    /// `RECORD_SIZE` of them.
    pub fn from_bytes(bytes: &[u8]) -> (r: Option<RawRecord>)
        ensures
            r is Some <==> bytes@.len() == RECORD_SIZE,
            r matches Some(rec) ==> rec@ == bytes@,
    {
        if bytes.len() != RECORD_SIZE {
            return None;
        }
        let mut buf = [0u8;RECORD_SIZE];
        let mut i: usize = 0;
        while i < RECORD_SIZE
            invariant
                0 <= i <= RECORD_SIZE,
                bytes@.len() == RECORD_SIZE,
                forall|j: int| 0 <= j < i ==> buf@[j] == bytes@[j],
            decreases RECORD_SIZE - i,
        {
            buf[i] = bytes[i];
            i += 1;
        }
        let rec = RawRecord { bytes: buf };
        assert(rec@ =~= bytes@);
        Some(rec)
    }

    /// The bytes of the record.
    pub fn as_bytes(&self) -> (b: &[u8])
        ensures
            b@ == self@,
    {
        self.bytes.as_slice()
    }

    /// The byte at `at`.
    pub fn byte(&self, at: usize) -> (b: u8)
        requires
            at < RECORD_SIZE,
        ensures
            b == self@[at as int],
    {
        self.bytes[at]
    }

    /// The unsigned number in the two bytes at `at`.
    pub fn read_u16(&self, at: usize) -> (v: u16)
        requires
            at + 2 <= RECORD_SIZE,
        ensures
            v == le_u16(self@, at as int),
    {
        let b0: u16 = self.bytes[at] as u16;
        let b1: u16 = self.bytes[at + 1] as u16;
        b0 + 256 * b1
    }

    /// The unsigned number in the four bytes at `at`.
    pub fn read_u32(&self, at: usize) -> (v: u32)
        requires
            at + 4 <= RECORD_SIZE,
        ensures
            v == le_u32(self@, at as int),
    {
        let b0: u32 = self.bytes[at] as u32;
        let b1: u32 = self.bytes[at + 1] as u32;
        let b2: u32 = self.bytes[at + 2] as u32;
        let b3: u32 = self.bytes[at + 3] as u32;
        b0 + 256 * b1 + 65536 * b2 + 16777216 * b3
    }

    /// The signed number in the four bytes at `at`.
    pub fn read_i32(&self, at: usize) -> (v: i32)
        requires
            at + 4 <= RECORD_SIZE,
        ensures
            v == signed32(le_u32(self@, at as int)),
    {
        let u: u32 = self.read_u32(at);
        if u < 2147483648 {
            u as i32
        } else {
            ((u - 2147483648) as i32) - 1073741824 - 1073741824
        }
    }

    /// The signed number in the two bytes at `at`.
    pub fn read_i16(&self, at: usize) -> (v: i16)
        requires
            at + 2 <= RECORD_SIZE,
        ensures
            v == signed16(le_u16(self@, at as int)),
    {
        let u: u16 = self.read_u16(at);
        if u < 32768 {
            u as i16
        } else {
            ((u - 32768) as i16) - 16384 - 16384
        }
    }

    /// The category code: the signed number in the first two bytes.
    pub fn category_code(&self) -> (code: i16)
        ensures
            code == signed16(le_u16(self@, TYPE_OFFSET as int)),
    {
        self.read_i16(TYPE_OFFSET)
    }

    /// The process id, as an unsigned number.
    pub fn pid(&self) -> (pid: u32)
        ensures
            pid == le_u32(self@, PID_OFFSET as int),
    {
        self.read_u32(PID_OFFSET)
    }

    /// The seconds of the time stamp: seconds since the epoch, without a
    /// sign.
    pub fn seconds(&self) -> (secs: u32)
        ensures
            secs == le_u32(self@, SECONDS_OFFSET as int),
    {
        self.read_u32(SECONDS_OFFSET)
    }

    /// The microseconds of the time stamp, with their sign.
    pub fn microseconds(&self) -> (micros: i32)
        ensures
            micros == signed32(le_u32(self@, MICROSECONDS_OFFSET as int)),
    {
        self.read_i32(MICROSECONDS_OFFSET)
    }

    /// The sixteen bytes of the address field.
    pub fn address(&self) -> (a: [u8; ADDRESS_SIZE])
        ensures
            a@ == self@.subrange(ADDRESS_OFFSET as int, ADDRESS_OFFSET + ADDRESS_SIZE),
    {
        let mut a = [0u8;ADDRESS_SIZE];
        let mut i: usize = 0;
        while i < ADDRESS_SIZE
            invariant
                0 <= i <= ADDRESS_SIZE,
                forall|j: int| 0 <= j < i ==> a@[j] == self@[ADDRESS_OFFSET + j],
            decreases ADDRESS_SIZE - i,
        {
            a[i] = self.bytes[ADDRESS_OFFSET + i];
            i += 1;
        }
        assert(a@ =~= self@.subrange(ADDRESS_OFFSET as int, ADDRESS_OFFSET + ADDRESS_SIZE));
        a
    }

    /// The text of the short id.
    pub fn short_id(&self) -> (s: String)
        ensures
            s@ == fixed_text(self@.subrange(ID_OFFSET as int, ID_OFFSET + ID_SIZE)),
    {
        decode_field(self.bytes.as_slice(), ID_OFFSET, ID_SIZE)
    }

    /// The exit status: how the process ended, then what it returned.
    pub fn exit_status(&self) -> (status: (i16, i16))
        ensures
            status.0 == signed16(le_u16(self@, EXIT_OFFSET as int)),
            status.1 == signed16(le_u16(self@, EXIT_OFFSET + 2)),
    {
        (self.read_i16(EXIT_OFFSET), self.read_i16(EXIT_OFFSET + 2))
    }

    /// The session id.
    pub fn session(&self) -> (id: i32)
        ensures
            id == signed32(le_u32(self@, SESSION_OFFSET as int)),
    {
        self.read_i32(SESSION_OFFSET)
    }

    /// The text of the device-name field.
    pub fn device(&self) -> (s: String)
        ensures
            s@ == fixed_text(self@.subrange(LINE_OFFSET as int, LINE_OFFSET + UT_LINESIZE)),
    {
        decode_field(self.bytes.as_slice(), LINE_OFFSET, UT_LINESIZE)
    }

    /// The text of the user-name field.
    pub fn user(&self) -> (s: String)
        ensures
            s@ == fixed_text(self@.subrange(USER_OFFSET as int, USER_OFFSET + UT_NAMESIZE)),
    {
        decode_field(self.bytes.as_slice(), USER_OFFSET, UT_NAMESIZE)
    }

    /// The text of the host field.
    pub fn host(&self) -> (s: String)
        ensures
            s@ == fixed_text(self@.subrange(HOST_OFFSET as int, HOST_OFFSET + UT_HOSTSIZE)),
    {
        decode_field(self.bytes.as_slice(), HOST_OFFSET, UT_HOSTSIZE)
    }
}

/// Why a log could not be cut into records.
#[derive(Clone, Copy, Debug, PartialEq, Eq, Structural)]
pub enum ReadError {
    /// The log ends inside a record: after `records` whole records come
    /// `stray` more bytes, fewer than a record has.
    ShortRecord { records: usize, stray: usize },
}

/// The `index`-th record of a log.
pub open spec fn record_at(log: Seq<u8>, index: int) -> Seq<u8> {
    log.subrange(index * RECORD_SIZE, (index + 1) * RECORD_SIZE)
}

/// Cuts a log into its records, in order. A log that ends inside a record is
/// refused whole.
pub fn split_records(log: &[u8]) -> (r: Result<Vec<RawRecord>, ReadError>)
    ensures
        r is Ok <==> log@.len() % (RECORD_SIZE as nat) == 0,
        r matches Ok(records) ==> {
            &&& records@.len() * RECORD_SIZE == log@.len()
            &&& forall|i: int| 0 <= i < records@.len() ==> (#[trigger] records@[i])@ == record_at(log@, i)
        },
        r matches Err(e) ==> e == (ReadError::ShortRecord {
            records: (log@.len() / (RECORD_SIZE as nat)) as usize,
            stray: (log@.len() % (RECORD_SIZE as nat)) as usize,
        }),
{
    let total: usize = log.len();
    let whole: usize = total / RECORD_SIZE;
    let stray: usize = total % RECORD_SIZE;
    if stray != 0 {
        return Err(ReadError::ShortRecord { records: whole, stray });
    }
    let mut records: Vec<RawRecord> = Vec::new();
    let mut i: usize = 0;
    while i < whole
        invariant
            0 <= i <= whole,
            whole * RECORD_SIZE == total,
            total == log@.len(),
            records@.len() == i,
            forall|j: int| 0 <= j < i ==> (#[trigger] records@[j])@ == record_at(log@, j),
        decreases whole - i,
    {
        let chunk = slice_subrange(log, i * RECORD_SIZE, (i + 1) * RECORD_SIZE);
        let rec = RawRecord::from_bytes(chunk);
        records.push(rec.unwrap());
        i += 1;
    }
    Ok(records)
}

} // verus!
