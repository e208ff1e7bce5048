//! Building blocks for text: decimal numbers, cells of a fixed width, lines,
//! and the step from encoded bytes to a string.

use vstd::prelude::*;
use vstd::utf8::{decode_utf8, encode_utf8, valid_utf8};

verus! {

/// The error of `String::from_utf8`.
#[verifier::external_type_specification]
#[verifier::external_body]
pub struct ExFromUtf8Error(std::string::FromUtf8Error);

/// `String::from_utf8` turns bytes that are UTF-8 into the string that they
/// encode, and fails on bytes that are not UTF-8.
pub assume_specification[ String::from_utf8 ](bytes: Vec<u8>) -> (r: Result<
    String,
    std::string::FromUtf8Error,
>)
    ensures
        r is Ok <==> valid_utf8(bytes@),
        r matches Ok(s) ==> s@ == decode_utf8(bytes@),
;

/// `String::push` appends the given character to the end of the string.
pub assume_specification[ String::push ](s: &mut String, ch: char)
    ensures
        final(s)@ == old(s)@.push(ch),
;

/// The encoding of two texts, one after the other, is the encoding of the
/// first followed by the encoding of the second.
pub proof fn lemma_encode_utf8_concat(a: Seq<char>, b: Seq<char>)
    ensures
        encode_utf8(a + b) == encode_utf8(a) + encode_utf8(b),
    decreases a.len(),
{
    if a.len() == 0 {
        assert(a + b =~= b);
        assert(encode_utf8(a) + encode_utf8(b) =~= encode_utf8(b));
    } else {
        assert((a + b).drop_first() =~= a.drop_first() + b);
        lemma_encode_utf8_concat(a.drop_first(), b);
        assert(encode_utf8(a + b) =~= encode_utf8(a) + encode_utf8(b));
    }
}

/// The text that the given bytes encode, where they are the encoding of a
/// text.
pub(crate) fn text_of_encoding(bytes: Vec<u8>, Ghost(text): Ghost<Seq<char>>) -> (s: String)
    requires
        bytes@ == encode_utf8(text),
    ensures
        s@ == text,
{
    broadcast use vstd::utf8::encode_utf8_valid_utf8, vstd::utf8::encode_utf8_decode_utf8;

    match String::from_utf8(bytes) {
        Ok(s) => s,
        Err(_) => vstd::pervasive::unreached(),
    }
}

/// The character of the decimal digit `d`; meant for `0 <= d <= 9`.
pub open spec fn digit_char(d: int) -> char {
    (d + 48) as char
}

/// The decimal numeral of `n`, without sign, padding or leading zeros.
pub open spec fn decimal(n: nat) -> Seq<char>
    decreases n,
{
    if n < 10 {
        seq![digit_char(n as int)]
    } else {
        decimal(n / 10).push(digit_char((n % 10) as int))
    }
}

/// `count` spaces.
pub open spec fn spaces(count: nat) -> Seq<char> {
    Seq::new(count, |i: int| ' ')
}

/// `s` cut or padded on the right with spaces to exactly `width` characters.
pub open spec fn fit_left(s: Seq<char>, width: nat) -> Seq<char> {
    if s.len() >= width {
        s.take(width as int)
    } else {
        s + spaces((width - s.len()) as nat)
    }
}

/// `s` cut to its first `width` characters, or padded on the left with spaces
/// to exactly `width` characters.
pub open spec fn fit_right(s: Seq<char>, width: nat) -> Seq<char> {
    if s.len() >= width {
        s.take(width as int)
    } else {
        spaces((width - s.len()) as nat) + s
    }
}

/// The character of a digit.
pub fn digit(d: u8) -> (c: char)
    requires
        d <= 9,
    ensures
        c == digit_char(d as int),
{
    (d + 48) as char
}

/// Appends the decimal numeral of `n` to `out`.
pub fn push_decimal(out: &mut String, n: u32)
    ensures
        final(out)@ == old(out)@ + decimal(n as nat),
    decreases n,
{
    if n >= 10 {
        push_decimal(out, n / 10);
    }
    out.push(digit((n % 10) as u8));
}

/// The decimal numeral of `n`.
pub fn decimal_string(n: u32) -> (s: String)
    ensures
        s@ == decimal(n as nat),
{
    let mut s = String::new();
    push_decimal(&mut s, n);
    s
}

/// Appends `count` spaces to `out`.
pub fn push_spaces(out: &mut String, count: usize)
    ensures
        final(out)@ == old(out)@ + spaces(count as nat),
{
    let mut i: usize = 0;
    while i < count
        invariant
            i <= count,
            out@ == old(out)@ + spaces(i as nat),
        decreases count - i,
    {
        out.push(' ');
        i += 1;
    }
}

/// Appends `s`, cut or padded on the right to `width` characters, to `out`.
pub fn push_fit_left(out: &mut String, s: &str, width: usize)
    ensures
        final(out)@ == old(out)@ + fit_left(s@, width as nat),
{
    let len = s.unicode_len();
    if len >= width {
        out.append(s.substring_char(0, width));
    } else {
        out.append(s);
        push_spaces(out, width - len);
    }
}

/// Appends `s`, cut to `width` characters or padded on the left to `width`
/// characters, to `out`.
pub fn push_fit_right(out: &mut String, s: &str, width: usize)
    ensures
        final(out)@ == old(out)@ + fit_right(s@, width as nat),
{
    let len = s.unicode_len();
    if len >= width {
        out.append(s.substring_char(0, width));
    } else {
        push_spaces(out, width - len);
        out.append(s);
    }
}

/// The lines one after the other, each followed by a line break.
pub open spec fn lines_joined(lines: Seq<Seq<char>>) -> Seq<char>
    decreases lines.len(),
{
    if lines.len() == 0 {
        Seq::<char>::empty()
    } else {
        lines_joined(lines.drop_last()) + lines.last() + seq!['\n']
    }
}

/// Two texts of the same lines are the same text.
pub proof fn law_lines_are_determined(lines: Seq<String>, first: String, second: String)
    requires
        first@ == lines_joined(lines.map_values(|line: String| line@)),
        second@ == lines_joined(lines.map_values(|line: String| line@)),
    ensures
        first@ == second@,
{
}

/// One text of the lines, in order, each followed by a line break.
pub fn join_lines(lines: &Vec<String>) -> (text: String)
    ensures
        text@ == lines_joined(lines@.map_values(|line: String| line@)),
{
    let ghost all = lines@.map_values(|line: String| line@);
    let mut text = String::new();
    let mut i: usize = 0;
    while i < lines.len()
        invariant
            0 <= i <= lines@.len(),
            all == lines@.map_values(|line: String| line@),
            text@ == lines_joined(all.take(i as int)),
        decreases lines@.len() - i,
    {
        text.append(lines[i].as_str());
        text.push('\n');
        proof {
            let next = all.take(i + 1);
            assert(next.drop_last() =~= all.take(i as int));
            assert(next.last() == lines@[i as int]@);
        }
        i += 1;
    }
    assert(all.take(all.len() as int) =~= all);
    text
}

} // verus!
