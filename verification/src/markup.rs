//! The markup document: a declaration and a root element with one child
//! element for each event, whose attributes hold the event.
//!
//! The document is written with the `xml_writer` crate. Its writer is driven
//! call by call; this module states what the calls have written and proves
//! what the whole document is. The writer writes to a vector in memory, so
//! its calls succeed and the document is always written.

use crate::entry::{views, LogonEntry, LogonEntryView};
use crate::text::{decimal, decimal_string, lemma_encode_utf8_concat, spaces, text_of_encoding};
use vstd::prelude::*;
use vstd::utf8::encode_utf8;
use xml_writer::XmlWriter;

verus! {

/// A writer of the `xml_writer` crate that writes to a vector in memory. It
/// is made by `XmlWriter::new` and its settings are never changed: it
/// indents, and it has no namespace. The crate hands every text to the
/// vector's `write`, and `flush` to the vector's `flush`; a call of the
/// crate fails only where one of these does. std implements `Write` for
/// `Vec<u8>` by appending to the vector, which grows as needed, so every call
/// of the writer returns `Ok`.
#[verifier::external_body]
pub struct XmlBuffer {
    writer: XmlWriter<'static, Vec<u8>>,
}

/// The error that the writer's calls can name in their type.
#[verifier::external_type_specification]
#[verifier::external_body]
pub struct ExIoError(std::io::Error);

/// The bytes that a writer has handed to its buffer.
pub uninterp spec fn xml_bytes(w: XmlBuffer) -> Seq<u8>;

/// The names of the elements that a writer has begun and not ended, the
/// innermost last.
pub uninterp spec fn xml_open_elements(w: XmlBuffer) -> Seq<Seq<char>>;

/// Whether the start tag of the innermost element still lacks its `>`.
pub uninterp spec fn xml_tag_open(w: XmlBuffer) -> bool;

/// What one character becomes in escaped text. In a name a backslash is
/// doubled as well.
pub open spec fn xml_escape_char(c: char, in_name: bool) -> Seq<char> {
    if c == '"' {
        "&quot;"@
    } else if c == '\'' {
        "&apos;"@
    } else if c == '&' {
        "&amp;"@
    } else if c == '<' {
        "&lt;"@
    } else if c == '>' {
        "&gt;"@
    } else if c == '\\' && in_name {
        "\\\\"@
    } else {
        seq![c]
    }
}

/// A text with each of its characters escaped.
pub open spec fn xml_escape(text: Seq<char>, in_name: bool) -> Seq<char>
    decreases text.len(),
{
    if text.len() == 0 {
        Seq::<char>::empty()
    } else {
        xml_escape(text.drop_last(), in_name) + xml_escape_char(text.last(), in_name)
    }
}

/// The declaration that `dtd` writes.
pub open spec fn declaration_text(encoding: Seq<char>) -> Seq<char> {
    "<?xml version=\"1.0\" encoding=\""@ + encoding + "\" ?>\n"@
}

/// The `>` that closes a start tag, where one is open.
pub open spec fn close_text(tag_open: bool) -> Seq<char> {
    if tag_open {
        seq!['>']
    } else {
        Seq::<char>::empty()
    }
}

/// The line break and the two spaces for each open element that stand before
/// an element inside another.
pub open spec fn indent_text(depth: nat) -> Seq<char> {
    if depth > 0 {
        seq!['\n'] + spaces(2 * depth)
    } else {
        Seq::<char>::empty()
    }
}

/// What `begin_elem` writes.
pub open spec fn begin_text(tag_open: bool, depth: nat, name: Seq<char>) -> Seq<char> {
    close_text(tag_open) + indent_text(depth) + seq!['<'] + name
}

/// What `attr_esc` writes.
pub open spec fn attr_esc_text(name: Seq<char>, value: Seq<char>) -> Seq<char> {
    seq![' '] + xml_escape(name, true) + seq!['=', '"'] + xml_escape(value, false) + seq!['"']
}

/// What `end_elem` writes.
pub open spec fn end_text(tag_open: bool, name: Seq<char>) -> Seq<char> {
    close_text(tag_open) + seq!['<', '/'] + name + seq!['>']
}

/// `after` has the bytes of `before` and then the encoding of `text`.
pub open spec fn xml_wrote(before: XmlBuffer, after: XmlBuffer, text: Seq<char>) -> bool {
    xml_bytes(after) == xml_bytes(before) + encode_utf8(text)
}

/// `after` has the open elements and the open tag of `before`.
pub open spec fn xml_same_state(before: XmlBuffer, after: XmlBuffer) -> bool {
    &&& xml_open_elements(after) == xml_open_elements(before)
    &&& xml_tag_open(after) == xml_tag_open(before)
}

/// Calls `XmlWriter::new` on an empty vector: nothing is written and no
/// element is open.
#[verifier::external_body]
fn xml_new() -> (w: XmlBuffer)
    ensures
        xml_bytes(w) == Seq::<u8>::empty(),
        xml_open_elements(w) == Seq::<Seq<char>>::empty(),
        !xml_tag_open(w),
{
    XmlBuffer { writer: XmlWriter::new(Vec::new()) }
}

/// Calls `XmlWriter::dtd`: it succeeds, and has written the declaration with
/// the given encoding and changed nothing else.
#[verifier::external_body]
fn xml_dtd(w: &mut XmlBuffer, encoding: &str) -> (r: Result<(), std::io::Error>)
    ensures
        r is Ok,
        xml_wrote(*old(w), *final(w), declaration_text(encoding@)),
        xml_same_state(*old(w), *final(w)),
{
    w.writer.dtd(encoding)
}

/// Calls `XmlWriter::begin_elem`: it succeeds, and has closed an open start
/// tag, written the indentation and `<` with the name, and the element is
/// open with its start tag open.
#[verifier::external_body]
fn xml_begin_elem(w: &mut XmlBuffer, name: &'static str) -> (r: Result<
    (),
    std::io::Error,
>)
    ensures
        r is Ok,
        xml_wrote(
            *old(w),
            *final(w),
            begin_text(xml_tag_open(*old(w)), xml_open_elements(*old(w)).len(), name@),
        ),
        xml_open_elements(*final(w)) == xml_open_elements(*old(w)).push(name@),
        xml_tag_open(*final(w)),
{
    w.writer.begin_elem(name)
}

/// Calls `XmlWriter::attr_esc`, which panics unless a start tag is open: it
/// succeeds, and has written a space, the escaped name, `="`, the escaped
/// value and `"`, and changed nothing else.
#[verifier::external_body]
fn xml_attr_esc(w: &mut XmlBuffer, name: &str, value: &str) -> (r: Result<
    (),
    std::io::Error,
>)
    requires
        xml_tag_open(*old(w)),
    ensures
        r is Ok,
        xml_wrote(*old(w), *final(w), attr_esc_text(name@, value@)),
        xml_same_state(*old(w), *final(w)),
{
    w.writer.attr_esc(name, value)
}

/// Calls `XmlWriter::end_elem`, which panics unless an element is open: it
/// succeeds, and has closed an open start tag and written the end tag of the
/// innermost element, which is open no longer.
#[verifier::external_body]
fn xml_end_elem(w: &mut XmlBuffer) -> (r: Result<(), std::io::Error>)
    requires
        xml_open_elements(*old(w)).len() > 0,
    ensures
        r is Ok,
        xml_wrote(
            *old(w),
            *final(w),
            end_text(xml_tag_open(*old(w)), xml_open_elements(*old(w)).last()),
        ),
        xml_open_elements(*final(w)) == xml_open_elements(*old(w)).drop_last(),
        !xml_tag_open(*final(w)),
{
    w.writer.end_elem()
}

/// Calls `XmlWriter::write`: it succeeds, and has written the text as it is
/// and changed nothing else.
#[verifier::external_body]
fn xml_write(w: &mut XmlBuffer, text: &str) -> (r: Result<(), std::io::Error>)
    ensures
        r is Ok,
        xml_wrote(*old(w), *final(w), text@),
        xml_same_state(*old(w), *final(w)),
{
    w.writer.write(text)
}

/// Calls `XmlWriter::flush`: it succeeds, and has changed nothing that this
/// module speaks of.
#[verifier::external_body]
fn xml_flush(w: &mut XmlBuffer) -> (r: Result<(), std::io::Error>)
    ensures
        r is Ok,
        xml_bytes(*final(w)) == xml_bytes(*old(w)),
        xml_same_state(*old(w), *final(w)),
{
    w.writer.flush()
}

/// Calls `XmlWriter::into_inner`: the buffer holds the bytes that were
/// written.
#[verifier::external_body]
fn xml_into_inner(w: XmlBuffer) -> (bytes: Vec<u8>)
    ensures
        bytes@ == xml_bytes(w),
{
    w.writer.into_inner()
}

/// One attribute of an element: a space, the name, and the escaped value
/// between double quotes.
pub open spec fn attribute_text(name: Seq<char>, value: Seq<char>) -> Seq<char> {
    seq![' '] + name + seq!['=', '"'] + xml_escape(value, false) + seq!['"']
}

/// The eight attributes of the element of an event.
pub open spec fn attributes_text(e: LogonEntryView) -> Seq<char> {
    attribute_text("type"@, e.category.name_text()) + attribute_text("user"@, e.user)
        + attribute_text("terminal"@, e.device) + attribute_text("pid"@, decimal(e.pid as nat))
        + attribute_text("host"@, e.host) + attribute_text("timestamp"@, e.timestamp)
        + attribute_text("time_epoch"@, decimal(e.time_epoch as nat)) + attribute_text(
        "remote_ip"@,
        e.ip_addr,
    )
}

/// The start of the element of an event, on a line of its own, indented by
/// two spaces.
pub open spec fn element_start_text() -> Seq<char> {
    seq!['\n', ' ', ' ', '<'] + "LogonEntry"@
}

/// The end of the start tag of the element of an event, and its end tag.
pub open spec fn element_end_text() -> Seq<char> {
    seq!['>', '<', '/'] + "LogonEntry"@ + seq!['>']
}

/// The element of an event: its name, the eight attributes, and nothing
/// inside.
pub open spec fn element_text(e: LogonEntryView) -> Seq<char> {
    element_start_text() + attributes_text(e) + element_end_text()
}

/// The elements of a list of events, in order.
pub open spec fn elements_text(events: Seq<LogonEntryView>) -> Seq<char>
    decreases events.len(),
{
    if events.len() == 0 {
        Seq::<char>::empty()
    } else {
        elements_text(events.drop_last()) + element_text(events.last())
    }
}

/// What stands between the name of the root element in its start tag and
/// its end tag. A root without children has the line break inside its start
/// tag: the writer closes a start tag only when the next element begins or
/// its own ends.
pub open spec fn root_content_text(events: Seq<LogonEntryView>) -> Seq<char> {
    if events.len() == 0 {
        seq!['\n', '>']
    } else {
        seq!['>'] + elements_text(events) + seq!['\n']
    }
}

/// The markup document of a list of events.
pub open spec fn document_text(events: Seq<LogonEntryView>) -> Seq<char> {
    declaration_text("utf-8"@) + seq!['<'] + "LogonEntries"@ + root_content_text(events)
        + seq!['<', '/'] + "LogonEntries"@ + seq!['>']
}

/// The character has a meaning of its own in markup, or is a backslash.
pub open spec fn is_markup_char(c: char) -> bool {
    c == '"' || c == '\'' || c == '&' || c == '<' || c == '>' || c == '\\'
}

/// No character of the text is changed by escaping.
pub open spec fn is_plain(text: Seq<char>) -> bool {
    forall|i: int| 0 <= i < text.len() ==> !is_markup_char(#[trigger] text[i])
}

/// Escaping leaves a text without markup characters as it is.
pub proof fn lemma_escape_plain(text: Seq<char>, in_name: bool)
    requires
        is_plain(text),
    ensures
        xml_escape(text, in_name) == text,
    decreases text.len(),
{
    if text.len() > 0 {
        let front = text.drop_last();
        assert forall|i: int| 0 <= i < front.len() implies !is_markup_char(#[trigger] front[i]) by {
            assert(front[i] == text[i]);
        }
        lemma_escape_plain(front, in_name);
        assert(!is_markup_char(text[text.len() - 1]));
        assert(xml_escape(text, in_name) =~= text);
    }
}

/// An escaped value holds no `<`, no `>`, no `"` and no `'`: it cannot end
/// the attribute that holds it, nor begin a tag.
pub proof fn law_escaped_value_is_inert(text: Seq<char>)
    ensures
        forall|i: int|
            0 <= i < xml_escape(text, false).len() ==> {
                let c = #[trigger] xml_escape(text, false)[i];
                c != '<' && c != '>' && c != '"' && c != '\''
            },
    decreases text.len(),
{
    reveal_strlit("&quot;");
    reveal_strlit("&apos;");
    reveal_strlit("&amp;");
    reveal_strlit("&lt;");
    reveal_strlit("&gt;");
    if text.len() > 0 {
        law_escaped_value_is_inert(text.drop_last());
        let front = xml_escape(text.drop_last(), false);
        let last = xml_escape_char(text.last(), false);
        assert forall|i: int| 0 <= i < xml_escape(text, false).len() implies {
            let c = #[trigger] xml_escape(text, false)[i];
            c != '<' && c != '>' && c != '"' && c != '\''
        } by {
            if i < front.len() {
                assert(xml_escape(text, false)[i] == front[i]);
            } else {
                assert(xml_escape(text, false)[i] == last[i - front.len()]);
            }
        }
    }
}

/// The names of the eight attributes hold no markup character.
proof fn lemma_names_are_plain()
    ensures
        is_plain("type"@),
        is_plain("user"@),
        is_plain("terminal"@),
        is_plain("pid"@),
        is_plain("host"@),
        is_plain("timestamp"@),
        is_plain("time_epoch"@),
        is_plain("remote_ip"@),
{
    reveal_strlit("type");
    reveal_strlit("user");
    reveal_strlit("terminal");
    reveal_strlit("pid");
    reveal_strlit("host");
    reveal_strlit("timestamp");
    reveal_strlit("time_epoch");
    reveal_strlit("remote_ip");
}

/// Writes one attribute whose name needs no escaping, after the text that
/// the writer has written.
fn write_attribute(w: &mut XmlBuffer, name: &str, value: &str, Ghost(text): Ghost<Seq<char>>) -> (r:
    Result<(), std::io::Error>)
    requires
        xml_tag_open(*old(w)),
        is_plain(name@),
        xml_bytes(*old(w)) == encode_utf8(text),
    ensures
        r is Ok,
        xml_bytes(*final(w)) == encode_utf8(text + attribute_text(name@, value@)),
        xml_same_state(*old(w), *final(w)),
{
    let r = xml_attr_esc(w, name, value);
    proof {
        lemma_escape_plain(name@, true);
        lemma_encode_utf8_concat(text, attr_esc_text(name@, value@));
    }
    r
}

/// Nine texts one after the other, however they are grouped.
proof fn lemma_joined(
    t: Seq<char>,
    a1: Seq<char>,
    a2: Seq<char>,
    a3: Seq<char>,
    a4: Seq<char>,
    a5: Seq<char>,
    a6: Seq<char>,
    a7: Seq<char>,
    a8: Seq<char>,
)
    ensures
        t + a1 + a2 + a3 + a4 + a5 + a6 + a7 + a8 == t + (a1 + a2 + a3 + a4 + a5 + a6 + a7 + a8),
{
    assert(t + a1 + a2 + a3 + a4 + a5 + a6 + a7 + a8 =~= t + (a1 + a2 + a3 + a4 + a5 + a6 + a7
        + a8));
}

/// An element after a text, however the parts are grouped.
proof fn lemma_element_joined(
    text: Seq<char>,
    close: Seq<char>,
    start: Seq<char>,
    attributes: Seq<char>,
    end: Seq<char>,
)
    ensures
        text + (close + start) + attributes + end == text + close + (start + attributes + end),
{
    assert(text + (close + start) + attributes + end =~= text + close + (start + attributes + end));
}

/// What `begin_elem` and `end_elem` write for the element of an event.
proof fn lemma_element_tags(was_open: bool)
    ensures
        begin_text(was_open, 1, "LogonEntry"@) == close_text(was_open) + element_start_text(),
        end_text(true, "LogonEntry"@) == element_end_text(),
{
    assert(indent_text(1) =~= seq!['\n', ' ', ' ']);
    assert(begin_text(was_open, 1, "LogonEntry"@) =~= close_text(was_open) + element_start_text());
    assert(end_text(true, "LogonEntry"@) =~= element_end_text());
}

/// Writes the element of one event into the root element, after the text
/// that the writer has written.
fn write_element(w: &mut XmlBuffer, e: &LogonEntry, Ghost(text): Ghost<Seq<char>>) -> (r: Result<
    (),
    std::io::Error,
>)
    requires
        xml_open_elements(*old(w)).len() == 1,
        xml_bytes(*old(w)) == encode_utf8(text),
    ensures
        r is Ok,
        xml_bytes(*final(w)) == encode_utf8(
            text + close_text(xml_tag_open(*old(w))) + element_text(e@),
        ),
        xml_open_elements(*final(w)) == xml_open_elements(*old(w)),
        !xml_tag_open(*final(w)),
{
    let ghost was_open = xml_tag_open(*w);
    let ghost outer = xml_open_elements(*w);
    let ghost a1 = attribute_text("type"@, e@.category.name_text());
    let ghost a2 = attribute_text("user"@, e@.user);
    let ghost a3 = attribute_text("terminal"@, e@.device);
    let ghost a4 = attribute_text("pid"@, decimal(e@.pid as nat));
    let ghost a5 = attribute_text("host"@, e@.host);
    let ghost a6 = attribute_text("timestamp"@, e@.timestamp);
    let ghost a7 = attribute_text("time_epoch"@, decimal(e@.time_epoch as nat));
    let ghost a8 = attribute_text("remote_ip"@, e@.ip_addr);
    let ghost t0 = text + (close_text(was_open) + element_start_text());
    proof {
        lemma_names_are_plain();
        lemma_element_tags(was_open);
        lemma_encode_utf8_concat(text, begin_text(was_open, 1, "LogonEntry"@));
    }
    xml_begin_elem(w, "LogonEntry")?;
    write_attribute(w, "type", e.category.name(), Ghost(t0))?;
    write_attribute(w, "user", e.user.as_str(), Ghost(t0 + a1))?;
    write_attribute(w, "terminal", e.device.as_str(), Ghost(t0 + a1 + a2))?;
    let pid = decimal_string(e.pid);
    write_attribute(w, "pid", pid.as_str(), Ghost(t0 + a1 + a2 + a3))?;
    write_attribute(w, "host", e.host.as_str(), Ghost(t0 + a1 + a2 + a3 + a4))?;
    write_attribute(w, "timestamp", e.timestamp.as_str(), Ghost(t0 + a1 + a2 + a3 + a4 + a5))?;
    let epoch = decimal_string(e.time_epoch);
    write_attribute(w, "time_epoch", epoch.as_str(), Ghost(t0 + a1 + a2 + a3 + a4 + a5 + a6))?;
    write_attribute(
        w,
        "remote_ip",
        e.ip_addr.as_str(),
        Ghost(t0 + a1 + a2 + a3 + a4 + a5 + a6 + a7),
    )?;
    let ghost written = t0 + a1 + a2 + a3 + a4 + a5 + a6 + a7 + a8;
    assert(xml_open_elements(*w) == outer.push("LogonEntry"@));
    proof {
        assert(outer.push("LogonEntry"@).last() == "LogonEntry"@);
        assert(outer.push("LogonEntry"@).drop_last() =~= outer);
        lemma_encode_utf8_concat(written, element_end_text());
        lemma_joined(t0, a1, a2, a3, a4, a5, a6, a7, a8);
        lemma_element_joined(
            text,
            close_text(was_open),
            element_start_text(),
            attributes_text(e@),
            element_end_text(),
        );
    }
    xml_end_elem(w)?;
    Ok(())
}

/// The part of the document that is written once `count` events are: the
/// declaration, the start tag of the root, which is closed once it has a
/// child, and the elements of the events.
pub open spec fn document_prefix(events: Seq<LogonEntryView>, count: int) -> Seq<char> {
    declaration_text("utf-8"@) + seq!['<'] + "LogonEntries"@ + if count == 0 {
        Seq::<char>::empty()
    } else {
        seq!['>'] + elements_text(events.take(count))
    }
}

/// Two documents of the same events are the same text.
pub proof fn law_document_is_determined(entries: Seq<LogonEntry>, first: String, second: String)
    requires
        first@ == document_text(views(entries)),
        second@ == document_text(views(entries)),
    ensures
        first@ == second@,
{
}

/// The markup document of the events: the declaration, the root element
/// `LogonEntries`, and in it one element `LogonEntry` for each event, in
/// order, with the event in its attributes. It is written for every list:
/// the result is never `Err`.
pub fn write_xml(entries: Vec<LogonEntry>) -> (r: Result<String, std::io::Error>)
    ensures
        r matches Ok(s) && s@ == document_text(views(entries@)),
{
    let ghost events = views(entries@);
    let mut w = xml_new();
    xml_dtd(&mut w, "utf-8")?;
    proof {
        lemma_encode_utf8_concat(Seq::<char>::empty(), declaration_text("utf-8"@));
        assert(xml_bytes(w) =~= encode_utf8(declaration_text("utf-8"@)));
    }
    xml_begin_elem(&mut w, "LogonEntries")?;
    proof {
        lemma_encode_utf8_concat(
            declaration_text("utf-8"@),
            begin_text(false, 0, "LogonEntries"@),
        );
        assert(declaration_text("utf-8"@) + begin_text(false, 0, "LogonEntries"@)
            =~= document_prefix(events, 0));
        assert(xml_open_elements(w) =~= seq!["LogonEntries"@]);
    }
    let mut i: usize = 0;
    while i < entries.len()
        invariant
            0 <= i <= entries@.len(),
            events == views(entries@),
            xml_open_elements(w) == seq!["LogonEntries"@],
            xml_tag_open(w) == (i == 0),
            xml_bytes(w) == encode_utf8(document_prefix(events, i as int)),
        decreases entries@.len() - i,
    {
        let ghost before = document_prefix(events, i as int);
        let ghost was_open = xml_tag_open(w);
        write_element(&mut w, &entries[i], Ghost(before))?;
        proof {
            let e = events[i as int];
            assert(e == entries@[i as int]@);
            assert(events.take(i + 1).drop_last() =~= events.take(i as int));
            assert(events.take(i + 1).last() == e);
            assert(elements_text(events.take(i + 1)) == elements_text(events.take(i as int))
                + element_text(e));
            if i == 0 {
                assert(elements_text(events.take(0)) =~= Seq::<char>::empty());
            }
            assert(before + close_text(was_open) + element_text(e) =~= document_prefix(
                events,
                i + 1,
            ));
        }
        i += 1;
    }
    xml_write(&mut w, "\n")?;
    let ghost body = document_prefix(events, i as int) + "\n"@;
    let ghost was_open = xml_tag_open(w);
    proof {
        lemma_encode_utf8_concat(document_prefix(events, i as int), "\n"@);
    }
    xml_end_elem(&mut w)?;
    xml_flush(&mut w)?;
    let bytes = xml_into_inner(w);
    proof {
        let tail = end_text(was_open, "LogonEntries"@);
        lemma_encode_utf8_concat(body, tail);
        reveal_strlit("\n");
        assert("\n"@ =~= seq!['\n']);
        assert(seq!["LogonEntries"@].last() == "LogonEntries"@);
        assert(events.take(events.len() as int) =~= events);
        assert(body + tail =~= document_text(events));
    }
    Ok(text_of_encoding(bytes, Ghost(document_text(events))))
}

} // verus!
