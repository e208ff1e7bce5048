use mhwho::address::{
    address_string, classify, hex_digit, ipv4_text, ipv6_text, push_hex_pair, AddressKind,
};
use mhwho::entry::{LogonEntry, LogonType};
use mhwho::record::{decode_field, decode_text, RawRecord, RECORD_SIZE};
use mhwho::text::{decimal_string, digit, push_decimal, push_spaces};
use mhwho::timestamp::{clock_text, instant, timestamp_text};

fn put(bytes: &mut Vec<u8>, at: usize, field: &[u8]) {
    for (i, b) in field.iter().enumerate() {
        bytes[at + i] = *b;
    }
}

fn record_bytes(
    code: i16,
    pid: i32,
    device: &[u8],
    user: &[u8],
    host: &[u8],
    seconds: u32,
    micros: i32,
    address: [u8; 16],
) -> Vec<u8> {
    let mut bytes = vec![0u8; RECORD_SIZE];
    put(&mut bytes, 0, &code.to_le_bytes());
    put(&mut bytes, 4, &pid.to_le_bytes());
    put(&mut bytes, 8, device);
    put(&mut bytes, 44, user);
    put(&mut bytes, 76, host);
    put(&mut bytes, 340, &seconds.to_le_bytes());
    put(&mut bytes, 344, &micros.to_le_bytes());
    put(&mut bytes, 348, &address);
    bytes
}

fn decode(bytes: &[u8]) -> LogonEntry {
    LogonEntry::from(RawRecord::from_bytes(bytes).unwrap())
}

fn with_code(code: i16) -> LogonType {
    decode(&record_bytes(code, 0, b"", b"", b"", 0, 0, [0; 16])).category
}

#[test]
fn codes_one_to_nine_have_their_category() {
    assert_eq!(with_code(1), LogonType::RunLevel);
    assert_eq!(with_code(2), LogonType::BootTime);
    assert_eq!(with_code(3), LogonType::NewTime);
    assert_eq!(with_code(4), LogonType::OldTime);
    assert_eq!(with_code(5), LogonType::InitProcess);
    assert_eq!(with_code(6), LogonType::LoginProcess);
    assert_eq!(with_code(7), LogonType::UserProcess);
    assert_eq!(with_code(8), LogonType::DeadProcess);
    assert_eq!(with_code(9), LogonType::Accounting);
}

#[test]
fn other_codes_are_empty() {
    for code in [0i16, -1, 10, 11, 255, 256, 263, i16::MAX, i16::MIN] {
        assert_eq!(with_code(code), LogonType::Empty, "code {}", code);
        assert_eq!(LogonType::from_code(code), LogonType::Empty);
    }
}

#[test]
fn category_code_is_read_from_both_bytes() {
    let record = RawRecord::from_bytes(&record_bytes(-2, 0, b"", b"", b"", 0, 0, [0; 16])).unwrap();
    assert_eq!(record.category_code(), -2);
    let record = RawRecord::from_bytes(&record_bytes(0x0107, 0, b"", b"", b"", 0, 0, [0; 16]))
        .unwrap();
    assert_eq!(record.category_code(), 0x0107);
    assert_eq!(LogonEntry::from(record).category, LogonType::Empty);
}

#[test]
fn category_names() {
    assert_eq!(LogonType::Empty.name(), "Empty");
    assert_eq!(LogonType::RunLevel.name(), "RunLevel");
    assert_eq!(LogonType::BootTime.name(), "BootTime");
    assert_eq!(LogonType::NewTime.name(), "NewTime");
    assert_eq!(LogonType::OldTime.name(), "OldTime");
    assert_eq!(LogonType::InitProcess.name(), "InitProcess");
    assert_eq!(LogonType::LoginProcess.name(), "LoginProcess");
    assert_eq!(LogonType::UserProcess.name(), "UserProcess");
    assert_eq!(LogonType::DeadProcess.name(), "DeadProcess");
    assert_eq!(LogonType::Accounting.name(), "Accounting");
    assert_eq!(LogonType::default(), LogonType::Empty);
    assert!(LogonType::UserProcess.is_user_process());
    assert!(!LogonType::DeadProcess.is_user_process());
}

#[test]
fn text_ends_at_the_first_zero_byte() {
    assert_eq!(decode_text(b"alice\0bob\0"), "alice");
    assert_eq!(decode_text(b"\0alice"), "");
    assert_eq!(decode_text(b""), "");
    for k in 0..32usize {
        let mut buf = [b'x'; 32];
        buf[k] = 0;
        assert_eq!(decode_text(&buf).chars().count(), k);
    }
}

#[test]
fn text_without_zero_byte_fills_the_field() {
    assert_eq!(decode_text(&[b'a'; 32]), "a".repeat(32));
    assert_eq!(decode_text(&[b'h'; 256]), "h".repeat(256));
    let entry = decode(&record_bytes(7, 1, &[b'd'; 32], &[b'u'; 32], &[b'h'; 256], 0, 0, [0; 16]));
    assert_eq!(entry.device, "d".repeat(32));
    assert_eq!(entry.user, "u".repeat(32));
    assert_eq!(entry.host, "h".repeat(256));
}

#[test]
fn text_of_a_field_does_not_read_its_neighbours() {
    let bytes = b"..abcdef..";
    assert_eq!(decode_field(bytes, 2, 3), "abc");
    assert_eq!(decode_field(bytes, 2, 0), "");
    assert_eq!(decode_field(b"ab\0cd", 1, 4), "b");
}

#[test]
fn bytes_above_ascii_are_single_characters() {
    assert_eq!(decode_text(&[0xe9, 0x7f, 0x80, 0xff, 0, 0x41]), "\u{e9}\u{7f}\u{80}\u{ff}");
}

#[test]
fn zero_address_is_empty() {
    assert_eq!(classify(&[0; 16]), AddressKind::Absent);
    assert_eq!(address_string(&[0; 16]), "");
}

#[test]
fn first_word_alone_is_dotted_decimal() {
    let mut address = [0u8; 16];
    address[0] = 192;
    address[1] = 168;
    address[2] = 1;
    address[3] = 10;
    assert_eq!(classify(&address), AddressKind::V4);
    assert_eq!(address_string(&address), "192.168.1.10");
    let mut address = [0u8; 16];
    address[3] = 1;
    assert_eq!(address_string(&address), "0.0.0.1");
    let mut address = [0u8; 16];
    address[0] = 255;
    address[1] = 255;
    address[2] = 255;
    address[3] = 255;
    assert_eq!(address_string(&address), "255.255.255.255");
    let mut address = [0u8; 16];
    address[1] = 100;
    assert_eq!(address_string(&address), "0.100.0.0");
}

#[test]
fn later_word_makes_colon_hexadecimal() {
    let address = [
        0x20, 0x01, 0x0d, 0xb8, 0, 0, 0, 0, 0, 0, 0, 0, 0, 0, 0, 0x01,
    ];
    assert_eq!(classify(&address), AddressKind::V6);
    assert_eq!(address_string(&address), "2001:0db8:0000:0000:0000:0000:0000:0001");
    let mut address = [0u8; 16];
    address[4] = 0xab;
    assert_eq!(address_string(&address), "0000:0000:ab00:0000:0000:0000:0000:0000");
    let mut address = [0u8; 16];
    address[11] = 0x0f;
    assert_eq!(address_string(&address), "0000:0000:0000:0000:0000:000f:0000:0000");
    let address = [
        0x00, 0x11, 0x22, 0x33, 0x44, 0x55, 0x66, 0x77, 0x88, 0x99, 0xaa, 0xbb, 0xcc, 0xdd, 0xee,
        0xff,
    ];
    let text = address_string(&address);
    assert_eq!(text, "0011:2233:4455:6677:8899:aabb:ccdd:eeff");
    assert_eq!(text.len(), 39);
}

#[test]
fn ipv6_address_with_zero_tail_is_read_as_ipv4() {
    let mut address = [0u8; 16];
    address[0] = 0x20;
    address[1] = 0x01;
    address[2] = 0x0d;
    address[3] = 0xb8;
    assert_eq!(classify(&address), AddressKind::V4);
    assert_eq!(address_string(&address), "32.1.13.184");
}

#[test]
fn address_is_taken_from_its_place_in_the_record() {
    let mut address = [0u8; 16];
    address[0] = 10;
    address[3] = 7;
    let entry = decode(&record_bytes(7, 1, b"tty1", b"root", b"", 0, 0, address));
    assert_eq!(entry.ip_addr, "10.0.0.7");
    let record = RawRecord::from_bytes(&record_bytes(7, 1, b"", b"", b"", 0, 0, address)).unwrap();
    assert_eq!(record.address(), address);
}

#[test]
fn epoch_is_the_seconds_of_the_record() {
    for seconds in [0u32, 1, 1_700_000_000, 0x7fff_ffff, 0x8000_0000, u32::MAX] {
        let entry = decode(&record_bytes(7, 1, b"", b"", b"", seconds, 0, [0; 16]));
        assert_eq!(entry.time_epoch, seconds);
    }
    let mut bytes = record_bytes(7, 1, b"", b"", b"", 0, 0, [0; 16]);
    put(&mut bytes, 340, &[0xff, 0xff, 0xff, 0xff]);
    let entry = decode(&bytes);
    assert_eq!(entry.time_epoch, 4_294_967_295);
    assert_eq!(entry.timestamp, "2106-02-07T06:28:15+00:00");
    assert_eq!(clock_text(entry.time_epoch), " 7-Feb-2106 06:28");
}

#[test]
fn timestamp_parses_back_to_the_seconds() {
    let all = [
        0u32,
        1,
        86_399,
        86_400,
        951_782_400,
        1_700_000_000,
        0x7fff_ffff,
        0x8000_0000,
        u32::MAX,
    ];
    for seconds in all {
        for micros in [0i32, 1, 500_000, 999_999] {
            let entry = decode(&record_bytes(7, 1, b"", b"", b"", seconds, micros, [0; 16]));
            let parsed = chrono::DateTime::parse_from_rfc3339(&entry.timestamp).unwrap();
            assert_eq!(parsed.timestamp(), entry.time_epoch as i64, "{}", entry.timestamp);
            assert_eq!(parsed.timestamp_subsec_micros(), micros as u32, "{}", entry.timestamp);
            assert!(entry.timestamp.ends_with("+00:00"));
            assert_eq!(entry.time_epoch, seconds);
        }
    }
}

#[test]
fn timestamp_is_rfc3339_text() {
    assert_eq!(timestamp_text(1_700_000_000, 0), "2023-11-14T22:13:20+00:00");
    assert_eq!(timestamp_text(0, 0), "1970-01-01T00:00:00+00:00");
    assert_eq!(timestamp_text(1_700_000_000, 500_000), "2023-11-14T22:13:20.500+00:00");
    assert_eq!(timestamp_text(1_700_000_000, 1), "2023-11-14T22:13:20.000001+00:00");
    assert_eq!(timestamp_text(0x7fff_ffff, 999_999), "2038-01-19T03:14:07.999999+00:00");
    assert_eq!(timestamp_text(0x8000_0000, 0), "2038-01-19T03:14:08+00:00");
    assert_eq!(timestamp_text(u32::MAX, 0), "2106-02-07T06:28:15+00:00");
}

#[test]
fn microseconds_outside_a_second_move_the_instant() {
    assert_eq!(instant(10, 0), (10, 0));
    assert_eq!(instant(10, 999_999), (10, 999_999_000));
    assert_eq!(instant(10, 1_000_000), (11, 0));
    assert_eq!(instant(10, 2_500_000), (12, 500_000_000));
    assert_eq!(instant(10, -1), (9, 999_999_000));
    assert_eq!(instant(10, -1_000_000), (9, 0));
    assert_eq!(instant(0, -1), (-1, 999_999_000));
    assert_eq!(instant(0, i32::MIN), (-2148, 516_352_000));
    assert_eq!(instant(0x7fff_ffff, i32::MAX), (2_147_485_794, 483_647_000));
    assert_eq!(instant(u32::MAX, i32::MAX), (4_294_969_442, 483_647_000));
    assert_eq!(instant(u32::MAX, i32::MIN), (4_294_965_147, 516_352_000));
    assert_eq!(timestamp_text(1_700_000_000, 1_500_000), "2023-11-14T22:13:21.500+00:00");
    assert_eq!(timestamp_text(0, -1), "1969-12-31T23:59:59.999999+00:00");
    assert_eq!(timestamp_text(0, i32::MIN), "1969-12-31T23:24:12.516352+00:00");
    assert_eq!(timestamp_text(0x7fff_ffff, i32::MAX), "2038-01-19T03:49:54.483647+00:00");
    assert_eq!(timestamp_text(u32::MAX, i32::MAX), "2106-02-07T07:04:02.483647+00:00");
}

#[test]
fn clock_of_the_console() {
    assert_eq!(clock_text(1_700_000_000), "14-Nov-2023 22:13");
    assert_eq!(clock_text(0), " 1-Jan-1970 00:00");
    assert_eq!(clock_text(u32::MAX), " 7-Feb-2106 06:28");
}

#[test]
fn decimal_numbers() {
    assert_eq!(decimal_string(0), "0");
    assert_eq!(decimal_string(7), "7");
    assert_eq!(decimal_string(10), "10");
    assert_eq!(decimal_string(1234), "1234");
    assert_eq!(decimal_string(1_700_000_000), "1700000000");
    assert_eq!(decimal_string(u32::MAX), "4294967295");
}

#[test]
fn pid_is_unsigned() {
    let entry = decode(&record_bytes(7, 1234, b"", b"", b"", 0, 0, [0; 16]));
    assert_eq!(entry.pid, 1234);
    let entry = decode(&record_bytes(7, -1, b"", b"", b"", 0, 0, [0; 16]));
    assert_eq!(entry.pid, u32::MAX);
    let entry = decode(&record_bytes(7, 0x0102_0304, b"", b"", b"", 0, 0, [0; 16]));
    assert_eq!(entry.pid, 0x0102_0304);
}

#[test]
fn integers_are_read_least_significant_byte_first() {
    let mut bytes = vec![0u8; RECORD_SIZE];
    bytes[340] = 0x78;
    bytes[341] = 0x56;
    bytes[342] = 0x34;
    bytes[343] = 0x12;
    bytes[344] = 0xff;
    bytes[345] = 0xff;
    bytes[346] = 0xff;
    bytes[347] = 0xff;
    let record = RawRecord::from_bytes(&bytes).unwrap();
    assert_eq!(record.seconds(), 0x1234_5678);
    assert_eq!(record.microseconds(), -1);
    assert_eq!(record.read_u32(340), 0x1234_5678);
    assert_eq!(record.read_u16(340), 0x5678);
    assert_eq!(record.read_i32(344), -1);
    assert_eq!(record.read_u32(344), u32::MAX);
    assert_eq!(record.byte(343), 0x12);
}

#[test]
fn record_has_its_size() {
    assert!(RawRecord::from_bytes(&[0u8; RECORD_SIZE]).is_some());
    assert!(RawRecord::from_bytes(&[0u8; RECORD_SIZE - 1]).is_none());
    assert!(RawRecord::from_bytes(&[0u8; RECORD_SIZE + 1]).is_none());
    assert!(RawRecord::from_bytes(&[]).is_none());
    let bytes = record_bytes(7, 1234, b"pts/0", b"alice", b"example.org", 5, 6, [9; 16]);
    assert_eq!(RawRecord::from_bytes(&bytes).unwrap().as_bytes(), &bytes[..]);
    assert_eq!(RawRecord::default().as_bytes(), &[0u8; RECORD_SIZE][..]);
}

#[test]
fn whole_record_decodes() {
    let mut address = [0u8; 16];
    address[0] = 203;
    address[2] = 113;
    address[3] = 5;
    let entry = decode(&record_bytes(
        6,
        4321,
        b"tty7",
        b"bob",
        b"gateway.example.org",
        1_700_000_000,
        250_000,
        address,
    ));
    assert_eq!(entry.category, LogonType::LoginProcess);
    assert_eq!(entry.user, "bob");
    assert_eq!(entry.device, "tty7");
    assert_eq!(entry.pid, 4321);
    assert_eq!(entry.host, "gateway.example.org");
    assert_eq!(entry.timestamp, "2023-11-14T22:13:20.250+00:00");
    assert_eq!(entry.time_epoch, 1_700_000_000);
    assert_eq!(entry.ip_addr, "203.0.113.5");
}

#[test]
fn zero_record_decodes_to_the_empty_event() {
    let entry = LogonEntry::from(RawRecord::default());
    assert_eq!(entry.category, LogonType::Empty);
    assert_eq!(entry.user, "");
    assert_eq!(entry.device, "");
    assert_eq!(entry.pid, 0);
    assert_eq!(entry.host, "");
    assert_eq!(entry.timestamp, "1970-01-01T00:00:00+00:00");
    assert_eq!(entry.time_epoch, 0);
    assert_eq!(entry.ip_addr, "");
    let empty = LogonEntry::default();
    assert_eq!(empty.category, LogonType::Empty);
    assert_eq!(empty.timestamp, "");
    assert_eq!(empty.pid, 0);
}

#[test]
fn clone_keeps_the_event() {
    let entry = decode(&record_bytes(7, 9, b"pts/3", b"carol", b"h", 77, 0, [1; 16]));
    let copy = entry.clone();
    assert_eq!(copy.category, entry.category);
    assert_eq!(copy.user, "carol");
    assert_eq!(copy.device, "pts/3");
    assert_eq!(copy.pid, 9);
    assert_eq!(copy.host, "h");
    assert_eq!(copy.timestamp, entry.timestamp);
    assert_eq!(copy.time_epoch, 77);
    assert_eq!(copy.ip_addr, "0101:0101:0101:0101:0101:0101:0101:0101");
}

#[test]
fn fields_that_no_output_shows() {
    let mut bytes = record_bytes(7, 1, b"pts/0", b"alice", b"", 0, 0, [0; 16]);
    put(&mut bytes, 40, b"ts/0");
    put(&mut bytes, 332, &(-3i16).to_le_bytes());
    put(&mut bytes, 334, &(4i16).to_le_bytes());
    put(&mut bytes, 336, &(-5i32).to_le_bytes());
    let record = RawRecord::from_bytes(&bytes).unwrap();
    assert_eq!(record.short_id(), "ts/0");
    assert_eq!(record.exit_status(), (-3, 4));
    assert_eq!(record.session(), -5);
    assert_eq!(record.read_i16(332), -3);
    assert_eq!(record.device(), "pts/0");
    assert_eq!(record.user(), "alice");
    assert_eq!(record.host(), "");
    assert_eq!(record.pid(), 1);
}

#[test]
fn digits_and_pairs() {
    assert_eq!((0..10u8).map(digit).collect::<String>(), "0123456789");
    assert_eq!((0..16u8).map(hex_digit).collect::<String>(), "0123456789abcdef");
    let mut s = String::from("x");
    push_hex_pair(&mut s, 0x0a);
    push_hex_pair(&mut s, 0xf0);
    push_hex_pair(&mut s, 0x00);
    push_decimal(&mut s, 907);
    push_spaces(&mut s, 3);
    push_spaces(&mut s, 0);
    push_decimal(&mut s, 0);
    assert_eq!(s, "x0af000907   0");
    let mut address = [0u8; 16];
    address[0] = 1;
    address[1] = 20;
    address[2] = 200;
    address[15] = 9;
    assert_eq!(ipv4_text(&address), "1.20.200.0");
    assert_eq!(ipv6_text(&address), "0114:c800:0000:0000:0000:0000:0000:0009");
}
