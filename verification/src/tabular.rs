//! The tabular output: one delimited row for each event, after a header row
//! where one is asked for.
//!
//! The rows are written by the `csv` crate, which quotes a field where it
//! must. Each row is written by a writer of its own, into memory; the crate
//! writes every row of one field or more there, so every event has its row.

use crate::entry::{views, LogonEntry, LogonEntryView};
use crate::text::{decimal, decimal_string};
use vstd::prelude::*;

verus! {

/// The header row, without its line break.
pub const CSV_HEADER: &'static str =
    "LogonType,User,TerminalDevice,PID,Host,Timestamp,TimestampEpoch,RemoteIP";

/// The eight fields of the row of an event.
pub open spec fn row_fields(e: LogonEntryView) -> Seq<Seq<char>> {
    seq![
        e.category.name_text(),
        e.user,
        e.device,
        decimal(e.pid as nat),
        e.host,
        e.timestamp,
        decimal(e.time_epoch as nat),
        e.ip_addr,
    ]
}

/// The character cannot stand in a field without quotes: the delimiter, the
/// quote, and the two characters that end a line.
pub open spec fn is_special(c: char) -> bool {
    c == ',' || c == '"' || c == '\r' || c == '\n'
}

/// The field must be quoted.
pub open spec fn needs_quotes(field: Seq<char>) -> bool {
    exists|i: int| 0 <= i < field.len() && is_special(#[trigger] field[i])
}

/// The field with each of its quotes doubled.
pub open spec fn doubled_quotes(field: Seq<char>) -> Seq<char>
    decreases field.len(),
{
    if field.len() == 0 {
        Seq::<char>::empty()
    } else if field.last() == '"' {
        doubled_quotes(field.drop_last()) + seq!['"', '"']
    } else {
        doubled_quotes(field.drop_last()).push(field.last())
    }
}

/// A field as it stands in a row: as it is, or between quotes with its own
/// quotes doubled.
pub open spec fn field_text(field: Seq<char>) -> Seq<char> {
    if needs_quotes(field) {
        seq!['"'] + doubled_quotes(field) + seq!['"']
    } else {
        field
    }
}

/// The fields of a row with a comma between them.
pub open spec fn fields_text(fields: Seq<Seq<char>>) -> Seq<char>
    decreases fields.len(),
{
    if fields.len() == 0 {
        Seq::<char>::empty()
    } else if fields.len() == 1 {
        field_text(fields[0])
    } else {
        fields_text(fields.drop_last()) + seq![','] + field_text(fields.last())
    }
}

/// A row with its line break. The row of a single empty field is written as
/// a pair of quotes.
pub open spec fn record_text(fields: Seq<Seq<char>>) -> Seq<char> {
    if fields.len() == 1 && fields[0].len() == 0 {
        seq!['"', '"', '\n']
    } else {
        fields_text(fields) + seq!['\n']
    }
}

/// The texts of a list of strings.
pub open spec fn texts(fields: Seq<String>) -> Seq<Seq<char>> {
    fields.map_values(|s: String| s@)
}

/// Makes a writer with `csv::Writer::from_memory`, writes the fields as one
/// record with `Writer::write`, and takes the text with
/// `Writer::into_string`. Where the record is written, the text is the
/// fields with commas between them and a line break after them, each field
/// that holds a comma, a quote or a line end between quotes with its quotes
/// doubled. Where it is not, the crate's message comes back.
///
/// A record of one field or more is written: the crate refuses a record
/// that has no field, one whose number of fields differs from that of the
/// writer's first record, of which a new writer has none, and one that its
/// target fails to take. The target is a vector in memory, and std
/// implements `Write` for `Vec<u8>` by appending to the vector, which grows
/// as needed.
#[verifier::external_body]
fn csv_record(fields: &Vec<String>) -> (r: Result<String, String>)
    ensures
        fields@.len() >= 1 ==> r is Ok,
        r matches Ok(line) ==> line@ == record_text(texts(fields@)),
{
    let mut writer = csv::Writer::from_memory();
    match writer.write(fields.iter()) {
        Ok(()) => Ok(writer.into_string()),
        Err(e) => Err(e.to_string()),
    }
}

/// An event that could not be written as a row.
#[derive(Debug)]
pub struct EncodeError {
    /// The position of the event in the list.
    pub row: usize,
    /// What the `csv` crate said.
    pub message: String,
}

/// The tabular output.
#[derive(Debug)]
pub struct CsvOutput {
    /// The header row, if any, and the rows that were written.
    pub text: String,
    /// The events that were left out, in the order in which they were
    /// reported. `write_csv` leaves none out.
    pub skipped: Vec<EncodeError>,
}

impl CsvOutput {
    /// Takes what became of the row of the event at position `row`: the row
    /// is added to the text, or the event is added to those left out.
    pub fn add_row(&mut self, row: usize, outcome: Result<String, String>)
        ensures
            match outcome {
                Ok(line) => final(self).text@ == old(self).text@ + line@ && final(self).skipped@
                    == old(self).skipped@,
                Err(message) => final(self).text@ == old(self).text@ && final(self).skipped@ == old(
                    self,
                ).skipped@.push(EncodeError { row, message }),
            },
    {
        match outcome {
            Ok(line) => {
                self.text.append(line.as_str());
            },
            Err(message) => {
                self.skipped.push(EncodeError { row, message });
            },
        }
    }
}

/// The header row with its line break, where one is asked for.
pub open spec fn header_text(with_header: bool) -> Seq<char> {
    if with_header {
        CSV_HEADER@ + seq!['\n']
    } else {
        Seq::<char>::empty()
    }
}

/// The rows of the events, in order.
pub open spec fn rows_text(events: Seq<LogonEntryView>) -> Seq<char>
    decreases events.len(),
{
    if events.len() == 0 {
        Seq::<char>::empty()
    } else {
        rows_text(events.drop_last()) + record_text(row_fields(events.last()))
    }
}

/// The tabular text of the events: the header row where one is asked for,
/// then the row of each event.
pub open spec fn csv_text(events: Seq<LogonEntryView>, with_header: bool) -> Seq<char> {
    header_text(with_header) + rows_text(events)
}

/// A row begins as its first field does.
pub proof fn lemma_row_begins_with_first_field(fields: Seq<Seq<char>>, k: int)
    requires
        fields.len() >= 1,
        0 <= k < field_text(fields[0]).len(),
    ensures
        fields_text(fields).len() > k,
        fields_text(fields)[k] == field_text(fields[0])[k],
    decreases fields.len(),
{
    if fields.len() > 1 {
        lemma_row_begins_with_first_field(fields.drop_last(), k);
    }
}

/// Two outputs for the same events and the same choice of the header row
/// are the same text.
pub proof fn law_rows_are_determined(
    entries: Seq<LogonEntry>,
    with_header: bool,
    first: CsvOutput,
    second: CsvOutput,
)
    requires
        first.text@ == csv_text(views(entries), with_header),
        second.text@ == csv_text(views(entries), with_header),
    ensures
        first.text@ == second.text@,
{
}

/// The header row stands at the start of the text where it is asked for,
/// and is followed by the rows alone; where it is not asked for, the text is
/// the rows alone.
pub proof fn law_header_when_asked(events: Seq<LogonEntryView>)
    ensures
        csv_text(events, true) == CSV_HEADER@ + seq!['\n'] + rows_text(events),
        csv_text(events, false) == rows_text(events),
{
    assert(csv_text(events, false) =~= rows_text(events));
}

/// The row of no event is the header row: the header row is in the text once
/// at most.
pub proof fn law_no_row_is_the_header(e: LogonEntryView)
    ensures
        record_text(row_fields(e)) != CSV_HEADER@ + seq!['\n'],
{
    let fields = row_fields(e);
    let name = e.category.name_text();
    let row = record_text(fields);
    let header = CSV_HEADER@ + seq!['\n'];
    reveal_strlit("LogonType,User,TerminalDevice,PID,Host,Timestamp,TimestampEpoch,RemoteIP");
    reveal_strlit("Empty");
    reveal_strlit("RunLevel");
    reveal_strlit("BootTime");
    reveal_strlit("NewTime");
    reveal_strlit("OldTime");
    reveal_strlit("InitProcess");
    reveal_strlit("LoginProcess");
    reveal_strlit("UserProcess");
    reveal_strlit("DeadProcess");
    reveal_strlit("Accounting");
    assert(fields[0] == name);
    assert(header[0] == 'L' && header[3] == 'o');
    if needs_quotes(name) {
        lemma_row_begins_with_first_field(fields, 0);
        assert(row[0] == '"');
    } else if e.category == crate::entry::LogonType::LoginProcess {
        lemma_row_begins_with_first_field(fields, 3);
        assert(row[3] == 'i');
    } else {
        lemma_row_begins_with_first_field(fields, 0);
        assert(row[0] != 'L');
    }
}

/// The fields of the row of an event.
pub fn entry_fields(e: &LogonEntry) -> (fields: Vec<String>)
    ensures
        texts(fields@) == row_fields(e@),
{
    let mut fields: Vec<String> = Vec::new();
    fields.push(String::from_str(e.category.name()));
    fields.push(e.user.clone());
    fields.push(e.device.clone());
    fields.push(decimal_string(e.pid));
    fields.push(e.host.clone());
    fields.push(e.timestamp.clone());
    fields.push(decimal_string(e.time_epoch));
    fields.push(e.ip_addr.clone());
    assert(texts(fields@) =~= row_fields(e@));
    fields
}

/// The tabular output of the events: the header row where `with_header` is
/// set, then the row of each event, in order. Every event has its row: none
/// is left out.
pub fn write_csv(entries: &Vec<LogonEntry>, with_header: bool) -> (out: CsvOutput)
    ensures
        out.skipped@.len() == 0,
        out.text@ == csv_text(views(entries@), with_header),
{
    let ghost events = views(entries@);
    let mut out = CsvOutput { text: String::new(), skipped: Vec::new() };
    if with_header {
        out.text.append(CSV_HEADER);
        out.text.push('\n');
    }
    assert(out.text@ =~= header_text(with_header) + rows_text(events.take(0)));
    let mut i: usize = 0;
    while i < entries.len()
        invariant
            0 <= i <= entries@.len(),
            events == views(entries@),
            out.skipped@.len() == 0,
            out.text@ == header_text(with_header) + rows_text(events.take(i as int)),
        decreases entries@.len() - i,
    {
        let fields = entry_fields(&entries[i]);
        assert(fields@.len() == texts(fields@).len());
        let outcome = csv_record(&fields);
        out.add_row(i, outcome);
        proof {
            let next = events.take(i + 1);
            assert(next.drop_last() =~= events.take(i as int));
            assert(next.last() == entries@[i as int]@);
            assert(out.text@ =~= header_text(with_header) + rows_text(next));
        }
        i += 1;
    }
    assert(events.take(events.len() as int) =~= events);
    out
}

} // verus!
