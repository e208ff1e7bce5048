//! The console table: a heading and one line for each event, in columns of a
//! fixed width. It is meant to be read, not parsed: what does not fit its
//! column is cut.

use crate::entry::{views, LogonEntry, LogonEntryView};
use crate::text::{
    decimal, decimal_string, fit_left, fit_right, push_fit_left, push_fit_right, spaces,
};
use crate::timestamp::{clock_text, pattern_text, CLOCK_PATTERN};
use vstd::prelude::*;

verus! {

/// Width of the column of the category.
pub const TYPE_WIDTH: usize = 10;

/// Width of the column of the user.
pub const USER_WIDTH: usize = 16;

/// Width of the column of the terminal.
pub const DEVICE_WIDTH: usize = 6;

/// Width of the column of the process id.
pub const PID_WIDTH: usize = 6;

/// Width of the column of the host.
pub const HOST_WIDTH: usize = 15;

/// Width of the column of the time, which is aligned to the right.
pub const TIME_WIDTH: usize = 17;

/// Spaces between two columns.
pub const GAP_WIDTH: usize = 2;

/// Characters in a line of the table, its line break included.
pub const LINE_WIDTH: usize = 81;

/// One line of the table: the six cells, each fitted to its column, with two
/// spaces between them and a line break after them.
pub open spec fn line_text(
    kind: Seq<char>,
    user: Seq<char>,
    device: Seq<char>,
    pid: Seq<char>,
    host: Seq<char>,
    time: Seq<char>,
) -> Seq<char> {
    fit_left(kind, TYPE_WIDTH as nat) + spaces(GAP_WIDTH as nat) + fit_left(user, USER_WIDTH as nat)
        + spaces(GAP_WIDTH as nat) + fit_left(device, DEVICE_WIDTH as nat) + spaces(
        GAP_WIDTH as nat,
    ) + fit_left(pid, PID_WIDTH as nat) + spaces(GAP_WIDTH as nat) + fit_left(
        host,
        HOST_WIDTH as nat,
    ) + spaces(GAP_WIDTH as nat) + fit_right(time, TIME_WIDTH as nat) + seq!['\n']
}

/// The heading of the table.
pub open spec fn heading_text() -> Seq<char> {
    line_text("LOGON TYPE"@, "USER"@, "TTY"@, "PID"@, "HOST"@, "LOGIN@"@)
}

/// The line of an event. Its time is that of the whole second `time_epoch`.
pub open spec fn entry_line_text(e: LogonEntryView) -> Seq<char> {
    line_text(
        e.category.name_text(),
        e.user,
        e.device,
        decimal(e.pid as nat),
        e.host,
        pattern_text(e.time_epoch as int, 0, CLOCK_PATTERN@),
    )
}

/// The lines of the events, in order.
pub open spec fn lines_text(events: Seq<LogonEntryView>) -> Seq<char>
    decreases events.len(),
{
    if events.len() == 0 {
        Seq::<char>::empty()
    } else {
        lines_text(events.drop_last()) + entry_line_text(events.last())
    }
}

/// The console table of the events: the heading, then their lines.
pub open spec fn table_text(events: Seq<LogonEntryView>) -> Seq<char> {
    heading_text() + lines_text(events)
}

/// Every line has `LINE_WIDTH` characters and ends with a line break,
/// whatever its cells hold.
pub proof fn law_line_width(
    kind: Seq<char>,
    user: Seq<char>,
    device: Seq<char>,
    pid: Seq<char>,
    host: Seq<char>,
    time: Seq<char>,
)
    ensures
        line_text(kind, user, device, pid, host, time).len() == LINE_WIDTH,
        line_text(kind, user, device, pid, host, time).last() == '\n',
{
}

/// The table of `n` events has `n + 1` lines of `LINE_WIDTH` characters.
pub proof fn law_table_length(events: Seq<LogonEntryView>)
    ensures
        lines_text(events).len() == LINE_WIDTH * events.len(),
        table_text(events).len() == LINE_WIDTH * (events.len() + 1),
    decreases events.len(),
{
    law_line_width("LOGON TYPE"@, "USER"@, "TTY"@, "PID"@, "HOST"@, "LOGIN@"@);
    if events.len() > 0 {
        let e = events.last();
        law_table_length(events.drop_last());
        law_line_width(
            e.category.name_text(),
            e.user,
            e.device,
            decimal(e.pid as nat),
            e.host,
            pattern_text(e.time_epoch as int, 0, CLOCK_PATTERN@),
        );
    }
}

/// Two tables of the same events are the same text.
pub proof fn law_table_is_determined(entries: Seq<LogonEntry>, first: String, second: String)
    requires
        first@ == table_text(views(entries)),
        second@ == table_text(views(entries)),
    ensures
        first@ == second@,
{
}

/// Appends one line of the table to `out`.
pub fn push_line(
    out: &mut String,
    kind: &str,
    user: &str,
    device: &str,
    pid: &str,
    host: &str,
    time: &str,
)
    ensures
        final(out)@ == old(out)@ + line_text(kind@, user@, device@, pid@, host@, time@),
{
    push_fit_left(out, kind, TYPE_WIDTH);
    crate::text::push_spaces(out, GAP_WIDTH);
    push_fit_left(out, user, USER_WIDTH);
    crate::text::push_spaces(out, GAP_WIDTH);
    push_fit_left(out, device, DEVICE_WIDTH);
    crate::text::push_spaces(out, GAP_WIDTH);
    push_fit_left(out, pid, PID_WIDTH);
    crate::text::push_spaces(out, GAP_WIDTH);
    push_fit_left(out, host, HOST_WIDTH);
    crate::text::push_spaces(out, GAP_WIDTH);
    push_fit_right(out, time, TIME_WIDTH);
    out.push('\n');
    assert(out@ =~= old(out)@ + line_text(kind@, user@, device@, pid@, host@, time@));
}

/// Appends the line of an event to `out`.
pub fn push_entry_line(out: &mut String, e: &LogonEntry)
    ensures
        final(out)@ == old(out)@ + entry_line_text(e@),
{
    let pid = decimal_string(e.pid);
    let time = clock_text(e.time_epoch);
    push_line(
        out,
        e.category.name(),
        e.user.as_str(),
        e.device.as_str(),
        pid.as_str(),
        e.host.as_str(),
        time.as_str(),
    );
}

/// The console table of the events: the heading, which is always there, then
/// one line for each event, in order.
pub fn write_table(entries: &Vec<LogonEntry>) -> (s: String)
    ensures
        s@ == table_text(views(entries@)),
{
    let ghost events = views(entries@);
    let mut s = String::new();
    push_line(&mut s, "LOGON TYPE", "USER", "TTY", "PID", "HOST", "LOGIN@");
    assert(s@ =~= heading_text() + lines_text(events.take(0)));
    let mut i: usize = 0;
    while i < entries.len()
        invariant
            0 <= i <= entries@.len(),
            events == views(entries@),
            s@ == heading_text() + lines_text(events.take(i as int)),
        decreases entries@.len() - i,
    {
        push_entry_line(&mut s, &entries[i]);
        proof {
            let next = events.take(i + 1);
            assert(next.drop_last() =~= events.take(i as int));
            assert(next.last() == entries@[i as int]@);
            assert(s@ =~= heading_text() + lines_text(next));
        }
        i += 1;
    }
    assert(events.take(events.len() as int) =~= events);
    s
}

} // verus!
