//! What one run does with a log: which events it shows, and in which form.

use crate::console::table_text;
use crate::entry::{decode_record, views, LogonEntry, LogonEntryView};
use crate::markup::document_text;
use crate::tabular::csv_text;
use crate::filter::{filter_events, shown};
use crate::record::{record_at, split_records, RawRecord, ReadError, RECORD_SIZE};
use vstd::prelude::*;

verus! {

/// The switches of the command line.
#[derive(Clone, Copy, Debug, PartialEq, Eq, Structural)]
pub struct Flags {
    /// Show the version and do nothing else.
    pub version: bool,
    /// Show every event, not only the sessions of users.
    pub all: bool,
    /// Write one structured document that holds every event.
    pub json: bool,
    /// Write one structured object on a line of its own for each event.
    pub json_lines: bool,
    /// Write delimited rows.
    pub csv: bool,
    /// Write the header row before the delimited rows.
    pub csv_header: bool,
    /// Write a markup document.
    pub xml: bool,
}

/// The form of the output of one run.
#[derive(Clone, Copy, Debug, PartialEq, Eq, Structural)]
pub enum OutputMode {
    /// The version of the program, and no event.
    Version,
    /// One structured document that holds every event.
    Json,
    /// One structured object on a line of its own for each event.
    JsonLines,
    /// Delimited rows, after a header row where `header` is set.
    Csv { header: bool },
    /// A markup document.
    Xml,
    /// The console table.
    Console,
}

/// The form that the switches ask for. Where they ask for several, the
/// first in the order of `OutputMode` wins; where they ask for none, it is
/// the console table. The header row matters to delimited rows only.
pub open spec fn output_mode_of(flags: Flags) -> OutputMode {
    if flags.version {
        OutputMode::Version
    } else if flags.json {
        OutputMode::Json
    } else if flags.json_lines {
        OutputMode::JsonLines
    } else if flags.csv {
        OutputMode::Csv { header: flags.csv_header }
    } else if flags.xml {
        OutputMode::Xml
    } else {
        OutputMode::Console
    }
}

/// The form that the switches ask for.
pub fn output_mode(flags: &Flags) -> (mode: OutputMode)
    ensures
        mode == output_mode_of(*flags),
{
    if flags.version {
        OutputMode::Version
    } else if flags.json {
        OutputMode::Json
    } else if flags.json_lines {
        OutputMode::JsonLines
    } else if flags.csv {
        OutputMode::Csv { header: flags.csv_header }
    } else if flags.xml {
        OutputMode::Xml
    } else {
        OutputMode::Console
    }
}

/// The events that the records of a log hold, in order.
pub open spec fn decoded(log: Seq<u8>) -> Seq<LogonEntryView> {
    Seq::new(log.len() / (RECORD_SIZE as nat), |i: int| decode_record(record_at(log, i)))
}

/// The event of each record, in order.
pub fn decode_all(records: &Vec<RawRecord>) -> (entries: Vec<LogonEntry>)
    ensures
        entries@.len() == records@.len(),
        forall|i: int|
            0 <= i < records@.len() ==> (#[trigger] entries@[i])@ == decode_record(records@[i]@),
{
    let mut entries: Vec<LogonEntry> = Vec::new();
    let mut i: usize = 0;
    while i < records.len()
        invariant
            0 <= i <= records@.len(),
            entries@.len() == i,
            forall|j: int| 0 <= j < i ==> (#[trigger] entries@[j])@ == decode_record(records@[j]@),
        decreases records@.len() - i,
    {
        entries.push(LogonEntry::from(records[i]));
        i += 1;
    }
    entries
}

/// Two runs on the same log with the same switches write the same: they
/// choose the same form, show the same events, and the delimited rows, the
/// markup document and the console table of these events are the same text
/// in both. Nothing but the bytes of the log and the switches enters. The
/// two structured forms are encoded outside this library and are not spoken
/// of here.
pub proof fn law_run_is_determined(
    log: Seq<u8>,
    flags: Flags,
    first_mode: OutputMode,
    second_mode: OutputMode,
    first: Seq<LogonEntry>,
    second: Seq<LogonEntry>,
)
    requires
        first_mode == output_mode_of(flags),
        second_mode == output_mode_of(flags),
        views(first) == shown(decoded(log), flags.all),
        views(second) == shown(decoded(log), flags.all),
    ensures
        first_mode == second_mode,
        views(first) == views(second),
        csv_text(views(first), flags.csv_header) == csv_text(views(second), flags.csv_header),
        document_text(views(first)) == document_text(views(second)),
        table_text(views(first)) == table_text(views(second)),
{
}

/// The events of a log that a run shows: those of all its records where
/// `include_all` is set, else the sessions of users among them. A log that
/// ends inside a record is refused: it gives no event at all, but the
/// number of its whole records and of the bytes after them.
pub fn read_events(log: &[u8], include_all: bool) -> (r: Result<Vec<LogonEntry>, ReadError>)
    ensures
        r is Ok <==> log@.len() % (RECORD_SIZE as nat) == 0,
        r matches Ok(entries) ==> views(entries@) == shown(decoded(log@), include_all),
        r matches Err(e) ==> e == (ReadError::ShortRecord {
            records: (log@.len() / (RECORD_SIZE as nat)) as usize,
            stray: (log@.len() % (RECORD_SIZE as nat)) as usize,
        }),
{
    match split_records(log) {
        Ok(records) => {
            let entries = decode_all(&records);
            assert(views(entries@) =~= decoded(log@));
            Ok(filter_events(entries, include_all))
        },
        Err(e) => Err(e),
    }
}

} // verus!
