use mhwho::console::{push_entry_line, push_line, write_table};
use mhwho::driver::{decode_all, output_mode, read_events, Flags, OutputMode};
use mhwho::entry::{LogonEntry, LogonType};
use mhwho::filter::filter_events;
use mhwho::markup::write_xml;
use mhwho::record::{split_records, RawRecord, ReadError, RECORD_SIZE};
use mhwho::tabular::{entry_fields, write_csv, CsvOutput, CSV_HEADER};
use mhwho::text::{join_lines, push_fit_left, push_fit_right};

fn entry(kind: LogonType, user: &str, device: &str, pid: u32, host: &str, epoch: u32) -> LogonEntry {
    LogonEntry {
        category: kind,
        user: user.to_string(),
        device: device.to_string(),
        pid,
        host: host.to_string(),
        timestamp: mhwho::timestamp::timestamp_text(epoch, 0),
        time_epoch: epoch,
        ip_addr: String::new(),
    }
}

fn alice() -> LogonEntry {
    entry(LogonType::UserProcess, "alice", "pts/0", 1234, "", 1_700_000_000)
}

fn log_record(code: i16, user: &[u8], device: &[u8], pid: i32, seconds: u32) -> Vec<u8> {
    let mut bytes = vec![0u8; RECORD_SIZE];
    bytes[0..2].copy_from_slice(&code.to_le_bytes());
    bytes[4..8].copy_from_slice(&pid.to_le_bytes());
    bytes[8..8 + device.len()].copy_from_slice(device);
    bytes[44..44 + user.len()].copy_from_slice(user);
    bytes[340..344].copy_from_slice(&seconds.to_le_bytes());
    bytes
}

fn two_record_log() -> Vec<u8> {
    let mut log = log_record(7, b"alice", b"pts/0", 1234, 1_700_000_000);
    log.extend_from_slice(&log_record(0, b"", b"", 0, 0));
    log
}

#[test]
fn two_record_log_by_default_shows_the_session() {
    let entries = read_events(&two_record_log(), false).unwrap();
    assert_eq!(entries.len(), 1);
    assert_eq!(entries[0].category, LogonType::UserProcess);
    assert_eq!(entries[0].user, "alice");
    assert_eq!(entries[0].device, "pts/0");
    assert_eq!(entries[0].pid, 1234);
    assert_eq!(entries[0].host, "");
    assert_eq!(entries[0].ip_addr, "");
    let out = write_csv(&entries, false);
    assert!(out.skipped.is_empty());
    assert_eq!(out.text, "UserProcess,alice,pts/0,1234,,2023-11-14T22:13:20+00:00,1700000000,\n");
}

#[test]
fn two_record_log_with_all_shows_the_empty_record_too() {
    let entries = read_events(&two_record_log(), true).unwrap();
    assert_eq!(entries.len(), 2);
    assert_eq!(entries[0].category, LogonType::UserProcess);
    assert_eq!(entries[1].category, LogonType::Empty);
    let out = write_csv(&entries, false);
    assert!(out.skipped.is_empty());
    assert_eq!(
        out.text,
        "UserProcess,alice,pts/0,1234,,2023-11-14T22:13:20+00:00,1700000000,\n\
         Empty,,,0,,1970-01-01T00:00:00+00:00,0,\n"
    );
}

#[test]
fn log_is_cut_into_records() {
    let log = two_record_log();
    let records = split_records(&log).unwrap();
    assert_eq!(records.len(), 2);
    assert_eq!(records[0].as_bytes(), &log[..RECORD_SIZE]);
    assert_eq!(records[1].as_bytes(), &log[RECORD_SIZE..]);
    assert_eq!(split_records(&[]).unwrap().len(), 0);
    let entries = decode_all(&records);
    assert_eq!(entries.len(), 2);
    assert_eq!(entries[0].user, "alice");
    assert_eq!(entries[1].category, LogonType::Empty);
    assert_eq!(decode_all(&vec![RawRecord::default(); 3]).len(), 3);
}

#[test]
fn log_that_ends_inside_a_record_is_refused() {
    let mut log = two_record_log();
    log.push(7);
    assert_eq!(split_records(&log).unwrap_err(), ReadError::ShortRecord { records: 2, stray: 1 });
    assert_eq!(
        read_events(&log, true).unwrap_err(),
        ReadError::ShortRecord { records: 2, stray: 1 }
    );
    assert_eq!(
        split_records(&log[..RECORD_SIZE - 1]).unwrap_err(),
        ReadError::ShortRecord { records: 0, stray: RECORD_SIZE - 1 }
    );
    assert_eq!(
        read_events(&[0u8; 1], false).unwrap_err(),
        ReadError::ShortRecord { records: 0, stray: 1 }
    );
}

#[test]
fn filter_keeps_user_sessions_in_order() {
    let list = vec![
        entry(LogonType::BootTime, "reboot", "~", 0, "", 1),
        entry(LogonType::UserProcess, "alice", "pts/0", 10, "", 2),
        entry(LogonType::DeadProcess, "", "pts/1", 11, "", 3),
        entry(LogonType::UserProcess, "bob", "pts/2", 12, "", 4),
        entry(LogonType::Empty, "", "", 0, "", 5),
        entry(LogonType::UserProcess, "carol", "pts/3", 13, "", 6),
    ];
    let kept = filter_events(list, false);
    let users: Vec<&str> = kept.iter().map(|e| e.user.as_str()).collect();
    assert_eq!(users, vec!["alice", "bob", "carol"]);
    assert!(kept.iter().all(|e| e.category == LogonType::UserProcess));
    assert_eq!(kept[1].pid, 12);
    assert_eq!(kept[1].time_epoch, 4);
}

#[test]
fn filter_with_all_changes_nothing() {
    let list = vec![
        entry(LogonType::BootTime, "reboot", "~", 0, "", 1),
        entry(LogonType::UserProcess, "alice", "pts/0", 10, "", 2),
        entry(LogonType::Empty, "", "", 0, "", 5),
    ];
    let kept = filter_events(list, true);
    assert_eq!(kept.len(), 3);
    assert_eq!(kept[0].category, LogonType::BootTime);
    assert_eq!(kept[0].user, "reboot");
    assert_eq!(kept[1].user, "alice");
    assert_eq!(kept[2].category, LogonType::Empty);
    assert!(filter_events(Vec::new(), false).is_empty());
    assert!(filter_events(Vec::new(), true).is_empty());
    assert!(filter_events(vec![entry(LogonType::Accounting, "", "", 0, "", 0)], false).is_empty());
}

#[test]
fn header_row_comes_once_and_only_when_asked_for() {
    let list = vec![alice(), entry(LogonType::UserProcess, "bob", "tty1", 2, "lab", 60)];
    let with = write_csv(&list, true).text;
    let without = write_csv(&list, false).text;
    assert_eq!(with, format!("{}\n{}", CSV_HEADER, without));
    assert_eq!(with.matches(CSV_HEADER).count(), 1);
    assert_eq!(without.matches(CSV_HEADER).count(), 0);
    assert_eq!(
        CSV_HEADER,
        "LogonType,User,TerminalDevice,PID,Host,Timestamp,TimestampEpoch,RemoteIP"
    );
    assert_eq!(write_csv(&Vec::new(), true).text, format!("{}\n", CSV_HEADER));
    assert_eq!(write_csv(&Vec::new(), false).text, "");
}

#[test]
fn rows_quote_what_must_be_quoted() {
    let mut odd = entry(LogonType::UserProcess, "a,b", "say \"hi\"", 1, "two\nlines", 0);
    odd.ip_addr = "plain".to_string();
    let out = write_csv(&vec![odd], false);
    assert!(out.skipped.is_empty());
    assert_eq!(
        out.text,
        "UserProcess,\"a,b\",\"say \"\"hi\"\"\",1,\"two\nlines\",1970-01-01T00:00:00+00:00,0,plain\n"
    );
    let cr = entry(LogonType::UserProcess, "a\rb", "'", 1, "\"", 0);
    assert_eq!(
        write_csv(&vec![cr], false).text,
        "UserProcess,\"a\rb\",',1,\"\"\"\",1970-01-01T00:00:00+00:00,0,\n"
    );
}

#[test]
fn fields_of_a_row() {
    let mut e = alice();
    e.ip_addr = "10.0.0.1".to_string();
    assert_eq!(
        entry_fields(&e),
        vec![
            "UserProcess",
            "alice",
            "pts/0",
            "1234",
            "",
            "2023-11-14T22:13:20+00:00",
            "1700000000",
            "10.0.0.1"
        ]
    );
}

#[test]
fn failed_row_is_left_out_and_reported() {
    let mut out = CsvOutput { text: String::from("a\n"), skipped: Vec::new() };
    out.add_row(0, Ok("b\n".to_string()));
    out.add_row(1, Err("no".to_string()));
    out.add_row(2, Ok("c\n".to_string()));
    out.add_row(5, Err("never".to_string()));
    assert_eq!(out.text, "a\nb\nc\n");
    assert_eq!(out.skipped.len(), 2);
    assert_eq!(out.skipped[0].row, 1);
    assert_eq!(out.skipped[0].message, "no");
    assert_eq!(out.skipped[1].row, 5);
    assert_eq!(out.skipped[1].message, "never");
}

#[test]
fn markup_of_no_event() {
    assert_eq!(
        write_xml(Vec::new()).unwrap(),
        "<?xml version=\"1.0\" encoding=\"utf-8\" ?>\n<LogonEntries\n></LogonEntries>"
    );
}

#[test]
fn markup_of_one_event() {
    assert_eq!(
        write_xml(vec![alice()]).unwrap(),
        "<?xml version=\"1.0\" encoding=\"utf-8\" ?>\n\
         <LogonEntries>\n  \
         <LogonEntry type=\"UserProcess\" user=\"alice\" terminal=\"pts/0\" pid=\"1234\" host=\"\" \
         timestamp=\"2023-11-14T22:13:20+00:00\" time_epoch=\"1700000000\" remote_ip=\"\">\
         </LogonEntry>\n\
         </LogonEntries>"
    );
}

#[test]
fn markup_escapes_attribute_values() {
    let mut e = entry(LogonType::DeadProcess, "<a&b>", "\"q\"", 7, "it's", 0);
    e.ip_addr = "back\\slash \u{e9}".to_string();
    let second = entry(LogonType::RunLevel, "runlevel", "~", 53, "5.4.0", 1);
    assert_eq!(
        write_xml(vec![e, second]).unwrap(),
        "<?xml version=\"1.0\" encoding=\"utf-8\" ?>\n\
         <LogonEntries>\n  \
         <LogonEntry type=\"DeadProcess\" user=\"&lt;a&amp;b&gt;\" terminal=\"&quot;q&quot;\" \
         pid=\"7\" host=\"it&apos;s\" timestamp=\"1970-01-01T00:00:00+00:00\" time_epoch=\"0\" \
         remote_ip=\"back\\slash \u{e9}\"></LogonEntry>\n  \
         <LogonEntry type=\"RunLevel\" user=\"runlevel\" terminal=\"~\" pid=\"53\" host=\"5.4.0\" \
         timestamp=\"1970-01-01T00:00:01+00:00\" time_epoch=\"1\" remote_ip=\"\"></LogonEntry>\n\
         </LogonEntries>"
    );
}

#[test]
fn console_table() {
    let list = vec![
        alice(),
        entry(
            LogonType::LoginProcess,
            "a-very-long-user-name",
            "pts/1234",
            1234567,
            "host.example.org",
            0,
        ),
    ];
    assert_eq!(
        write_table(&list),
        "LOGON TYPE  USER              TTY     PID     HOST                        LOGIN@\n\
         UserProces  alice             pts/0   1234                     14-Nov-2023 22:13\n\
         LoginProce  a-very-long-user  pts/12  123456  host.example.or   1-Jan-1970 00:00\n"
    );
    assert_eq!(
        write_table(&Vec::new()),
        "LOGON TYPE  USER              TTY     PID     HOST                        LOGIN@\n"
    );
    for line in write_table(&list).lines() {
        assert_eq!(line.chars().count(), 80);
    }
}

#[test]
fn cells_are_cut_or_padded() {
    let mut s = String::from(">");
    push_fit_left(&mut s, "abc", 5);
    push_fit_left(&mut s, "abcdef", 5);
    push_fit_left(&mut s, "abcde", 5);
    push_fit_left(&mut s, "x", 0);
    push_fit_left(&mut s, "", 2);
    push_fit_left(&mut s, "\u{e9}\u{e8}\u{ea}", 2);
    assert_eq!(s, ">abc  abcdeabcde  \u{e9}\u{e8}");
    let mut s = String::from(">");
    push_fit_right(&mut s, "abc", 5);
    push_fit_right(&mut s, "abcdef", 5);
    push_fit_right(&mut s, "", 1);
    assert_eq!(s, ">  abcabcde ");
}

#[test]
fn every_renderer_writes_the_same_twice() {
    let list = vec![
        alice(),
        entry(LogonType::UserProcess, "b,ob", "tty<1>", 2, "l&b", 60),
        entry(LogonType::BootTime, "reboot", "~", 0, "5.4.0", 3),
    ];
    assert_eq!(write_csv(&list, true).text, write_csv(&list, true).text);
    assert_eq!(write_csv(&list, false).text, write_csv(&list, false).text);
    assert_eq!(write_table(&list), write_table(&list));
    assert_eq!(write_xml(list.clone()).unwrap(), write_xml(list.clone()).unwrap());
}

fn flags() -> Flags {
    Flags {
        version: false,
        all: false,
        json: false,
        json_lines: false,
        csv: false,
        csv_header: false,
        xml: false,
    }
}

#[test]
fn output_mode_of_the_switches() {
    assert_eq!(output_mode(&flags()), OutputMode::Console);
    assert_eq!(output_mode(&Flags { all: true, ..flags() }), OutputMode::Console);
    assert_eq!(output_mode(&Flags { csv_header: true, ..flags() }), OutputMode::Console);
    assert_eq!(output_mode(&Flags { json: true, ..flags() }), OutputMode::Json);
    assert_eq!(output_mode(&Flags { json_lines: true, ..flags() }), OutputMode::JsonLines);
    assert_eq!(output_mode(&Flags { csv: true, ..flags() }), OutputMode::Csv { header: false });
    assert_eq!(
        output_mode(&Flags { csv: true, csv_header: true, ..flags() }),
        OutputMode::Csv { header: true }
    );
    assert_eq!(output_mode(&Flags { xml: true, ..flags() }), OutputMode::Xml);
    assert_eq!(output_mode(&Flags { xml: true, csv: true, ..flags() }), OutputMode::Csv { header: false });
    assert_eq!(
        output_mode(&Flags { xml: true, csv: true, json_lines: true, ..flags() }),
        OutputMode::JsonLines
    );
    assert_eq!(
        output_mode(&Flags { xml: true, csv: true, json_lines: true, json: true, ..flags() }),
        OutputMode::Json
    );
    assert_eq!(output_mode(&Flags { version: true, json: true, ..flags() }), OutputMode::Version);
}

#[test]
fn lines_are_joined_in_order() {
    assert_eq!(join_lines(&Vec::new()), "");
    assert_eq!(join_lines(&vec!["a".to_string()]), "a\n");
    assert_eq!(
        join_lines(&vec!["{\"a\":1}".to_string(), String::new(), "c".to_string()]),
        "{\"a\":1}\n\nc\n"
    );
}

#[test]
fn lines_of_the_console_table() {
    let mut s = String::new();
    push_line(&mut s, "a", "b", "c", "d", "e", "f");
    assert_eq!(
        s,
        "a           b                 c       d       e                                f\n"
    );
    assert_eq!(s.chars().count(), 81);
    let mut s = String::from("> ");
    push_entry_line(&mut s, &alice());
    assert_eq!(
        s,
        "> UserProces  alice             pts/0   1234                     14-Nov-2023 22:13\n"
    );
}

#[test]
fn no_event_is_left_out_of_the_rows() {
    let mut list = Vec::new();
    for (i, text) in ["", ",", "\"", "\r\n", "a b", "\u{e9}\u{4e2d}", "x,\"y\"\n"].iter().enumerate() {
        let mut e = entry(LogonType::UserProcess, text, text, i as u32, text, 0);
        e.timestamp = text.to_string();
        e.ip_addr = text.to_string();
        list.push(e);
    }
    let out = write_csv(&list, true);
    assert!(out.skipped.is_empty());
    assert_eq!(out.text.matches("UserProcess,").count(), list.len());
    assert!(out.text.starts_with("LogonType,User,"));
    assert!(out.text.ends_with("\"x,\"\"y\"\"\n\"\n"));
}

#[test]
fn markup_is_written_for_every_list() {
    assert!(write_xml(Vec::new()).is_ok());
    let odd = entry(LogonType::UserProcess, "<>&\"'\\", "\u{e9}\u{4e2d}", 1, "\n", 0);
    let document = write_xml(vec![odd, alice()]).unwrap();
    assert_eq!(document.matches("<LogonEntry ").count(), 2);
    assert!(document.contains("user=\"&lt;&gt;&amp;&quot;&apos;\\\""));
    let one = write_xml(vec![alice()]).unwrap();
    assert!(!one.contains("Empty"));
    assert!(one.contains("type=\"UserProcess\""));
}
