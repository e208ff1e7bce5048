//! Decoding of a host's binary login-accounting log and rendering of the
//! decoded events as delimited rows, as a markup document and as a console
//! table.
//!
//! The log is a sequence of fixed-size records. [`record::RawRecord`] holds
//! one of them as bytes, [`entry::LogonEntry`] is what a record decodes to,
//! [`filter::filter_events`] chooses the events to show, and
//! [`tabular::write_csv`], [`markup::write_xml`] and
//! [`console::write_table`] turn a list of events into text.
//! [`driver::read_events`] goes from the bytes of a log to the events that
//! a run shows.
//!
//! Every function states what it returns, and the statements are proved. Not
//! proved is what the calls into other crates do: the calendar of `chrono`
//! in [`timestamp`], the quoting of `csv` in [`tabular`], the writer of
//! `xml_writer` in [`markup`], and two functions of `String` in [`text`].
//! What is assumed of each call stands above the function that makes it.

pub mod address;
pub mod console;
pub mod driver;
pub mod entry;
pub mod filter;
pub mod markup;
pub mod record;
pub mod tabular;
pub mod text;
pub mod timestamp;
