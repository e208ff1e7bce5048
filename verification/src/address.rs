//! The address field of a record and its text.
//!
//! The field holds four words of four bytes. Which kind of address it holds
//! is told from the words alone: none where all are zero, an IPv4 address
//! where only the first is nonzero, an IPv6 address otherwise. An IPv6
//! address whose last three words are zero is therefore read as IPv4; the
//! log's readers rely on this rule as it is.

use crate::record::ADDRESS_SIZE;
use crate::text::{decimal, push_decimal};
use vstd::prelude::*;

verus! {

/// What the address field of a record holds.
#[derive(Clone, Copy, Debug, PartialEq, Eq, Structural)]
pub enum AddressKind {
    /// No address: every word is zero.
    Absent,
    /// An IPv4 address: the first word is nonzero, the other three are zero.
    V4,
    /// An IPv6 address: one of the last three words is nonzero.
    V6,
}

/// The `word`-th word of the field is zero.
pub open spec fn word_is_zero(addr: Seq<u8>, word: int) -> bool {
    &&& addr[4 * word] == 0
    &&& addr[4 * word + 1] == 0
    &&& addr[4 * word + 2] == 0
    &&& addr[4 * word + 3] == 0
}

/// The kind of address that a field of sixteen bytes holds.
pub open spec fn address_kind(addr: Seq<u8>) -> AddressKind {
    if word_is_zero(addr, 1) && word_is_zero(addr, 2) && word_is_zero(addr, 3) {
        if word_is_zero(addr, 0) {
            AddressKind::Absent
        } else {
            AddressKind::V4
        }
    } else {
        AddressKind::V6
    }
}

/// The first four bytes in decimal, in the order in which they are stored,
/// with a dot between them.
pub open spec fn dotted_quad(addr: Seq<u8>) -> Seq<char> {
    decimal(addr[0] as nat) + seq!['.'] + decimal(addr[1] as nat) + seq!['.'] + decimal(
        addr[2] as nat,
    ) + seq!['.'] + decimal(addr[3] as nat)
}

/// The character of the hexadecimal digit `d`, in lower case; meant for
/// `0 <= d <= 15`.
pub open spec fn hex_digit_char(d: int) -> char {
    if d < 10 {
        (d + 48) as char
    } else {
        (d + 87) as char
    }
}

/// The two hexadecimal digits of a byte, the high one first.
pub open spec fn hex_pair(b: u8) -> Seq<char> {
    seq![hex_digit_char(b as int / 16), hex_digit_char(b as int % 16)]
}

/// The character at position `i` of the colon-separated text: every fifth
/// character is a colon, the others are the digits of the bytes in the order
/// in which they are stored.
pub open spec fn colon_hex_char(addr: Seq<u8>, i: int) -> char {
    if i % 5 == 4 {
        ':'
    } else {
        hex_pair(addr[2 * (i / 5) + (i % 5) / 2])[(i % 5) % 2]
    }
}

/// The first `len` characters of the colon-separated text.
pub open spec fn colon_hex_prefix(addr: Seq<u8>, len: nat) -> Seq<char> {
    Seq::new(len, |i: int| colon_hex_char(addr, i))
}

/// All sixteen bytes as eight groups of four lower-case hexadecimal digits,
/// with a colon between the groups: 39 characters.
pub open spec fn colon_hex(addr: Seq<u8>) -> Seq<char> {
    colon_hex_prefix(addr, 39)
}

/// The text of the address that a field of sixteen bytes holds.
pub open spec fn address_text(addr: Seq<u8>) -> Seq<char> {
    match address_kind(addr) {
        AddressKind::Absent => Seq::<char>::empty(),
        AddressKind::V4 => dotted_quad(addr),
        AddressKind::V6 => colon_hex(addr),
    }
}

/// `c` is a decimal digit.
pub open spec fn is_decimal_digit(c: char) -> bool {
    '0' <= c <= '9'
}

/// `c` is a hexadecimal digit in lower case.
pub open spec fn is_lower_hex_digit(c: char) -> bool {
    ('0' <= c <= '9') || ('a' <= c <= 'f')
}

/// `t` is the numeral of a byte: one to three decimal digits.
pub open spec fn is_byte_numeral(t: Seq<char>) -> bool {
    &&& 1 <= t.len() <= 3
    &&& forall|i: int| 0 <= i < t.len() ==> is_decimal_digit(#[trigger] t[i])
}

/// `t` has the shape of an IPv4 address: four numerals of a byte with a dot
/// between them.
pub open spec fn is_dotted_quad(t: Seq<char>) -> bool {
    exists|a: Seq<char>, b: Seq<char>, c: Seq<char>, d: Seq<char>|
        #![trigger dotted_parts(a, b, c, d)]
        is_byte_numeral(a) && is_byte_numeral(b) && is_byte_numeral(c) && is_byte_numeral(d) && t
            == dotted_parts(a, b, c, d)
}

/// Four parts with a dot between them.
pub open spec fn dotted_parts(a: Seq<char>, b: Seq<char>, c: Seq<char>, d: Seq<char>) -> Seq<
    char,
> {
    a + seq!['.'] + b + seq!['.'] + c + seq!['.'] + d
}

/// `t` has the shape of an IPv6 address as this library writes it: 39
/// characters, a colon at every fifth place and a lower-case hexadecimal
/// digit at every other place.
pub open spec fn is_colon_hex(t: Seq<char>) -> bool {
    &&& t.len() == 39
    &&& forall|i: int|
        0 <= i < 39 ==> if i % 5 == 4 {
            #[trigger] t[i] == ':'
        } else {
            is_lower_hex_digit(t[i])
        }
}

/// The numeral of a byte has one to three decimal digits.
pub proof fn lemma_decimal_of_byte(b: u8)
    ensures
        is_byte_numeral(decimal(b as nat)),
{
    reveal_with_fuel(decimal, 3);
    let n = b as nat;
    if n < 10 {
    } else if n < 100 {
        assert(decimal(n) =~= seq![
            crate::text::digit_char((n / 10) as int),
            crate::text::digit_char((n % 10) as int),
        ]);
    } else {
        assert(decimal(n) =~= seq![
            crate::text::digit_char((n / 100) as int),
            crate::text::digit_char(((n / 10) % 10) as int),
            crate::text::digit_char((n % 10) as int),
        ]);
    }
}

/// A field of zero bytes holds no address, and its text is empty.
pub proof fn law_zero_address_is_empty(addr: Seq<u8>)
    requires
        addr.len() == ADDRESS_SIZE,
        forall|i: int| 0 <= i < ADDRESS_SIZE ==> addr[i] == 0,
    ensures
        address_kind(addr) == AddressKind::Absent,
        address_text(addr) == Seq::<char>::empty(),
{
}

/// A field in which only the first word is nonzero holds an IPv4 address: its
/// text is the first four bytes in decimal with dots between them.
pub proof fn law_first_word_alone_is_ipv4(addr: Seq<u8>)
    requires
        addr.len() == ADDRESS_SIZE,
        !word_is_zero(addr, 0),
        word_is_zero(addr, 1),
        word_is_zero(addr, 2),
        word_is_zero(addr, 3),
    ensures
        address_kind(addr) == AddressKind::V4,
        address_text(addr) == dotted_quad(addr),
        is_dotted_quad(address_text(addr)),
{
    lemma_decimal_of_byte(addr[0]);
    lemma_decimal_of_byte(addr[1]);
    lemma_decimal_of_byte(addr[2]);
    lemma_decimal_of_byte(addr[3]);
    assert(dotted_quad(addr) == dotted_parts(
        decimal(addr[0] as nat),
        decimal(addr[1] as nat),
        decimal(addr[2] as nat),
        decimal(addr[3] as nat),
    ));
}

/// A field in which one of the last three words is nonzero holds an IPv6
/// address, whatever the first word is: its text is eight groups of four
/// lower-case hexadecimal digits with colons between them.
pub proof fn law_later_word_is_ipv6(addr: Seq<u8>)
    requires
        addr.len() == ADDRESS_SIZE,
        !word_is_zero(addr, 1) || !word_is_zero(addr, 2) || !word_is_zero(addr, 3),
    ensures
        address_kind(addr) == AddressKind::V6,
        address_text(addr) == colon_hex(addr),
        is_colon_hex(address_text(addr)),
{
    lemma_colon_hex_shape(addr);
}

/// The colon-separated text has the shape of an IPv6 address.
pub proof fn lemma_colon_hex_shape(addr: Seq<u8>)
    ensures
        is_colon_hex(colon_hex(addr)),
{
    let t = colon_hex(addr);
    assert forall|i: int| 0 <= i < 39 implies if i % 5 == 4 {
        #[trigger] t[i] == ':'
    } else {
        is_lower_hex_digit(t[i])
    } by {
        if i % 5 != 4 {
            let b = addr[2 * (i / 5) + (i % 5) / 2];
            assert(0 <= b as int / 16 < 16);
            assert(0 <= b as int % 16 < 16);
            assert(t[i] == hex_pair(b)[(i % 5) % 2]);
        }
    }
}

/// Group `g` of the colon-separated text holds the digits of bytes `2 g` and
/// `2 g + 1`, in that order.
pub proof fn law_colon_hex_groups(addr: Seq<u8>, g: int)
    requires
        0 <= g < 8,
    ensures
        colon_hex(addr).subrange(5 * g, 5 * g + 4) == hex_pair(addr[2 * g]) + hex_pair(
            addr[2 * g + 1],
        ),
{
    let t = colon_hex(addr);
    let group = hex_pair(addr[2 * g]) + hex_pair(addr[2 * g + 1]);
    assert forall|k: int| 0 <= k < 4 implies t.subrange(5 * g, 5 * g + 4)[k] == group[k] by {
        let i = 5 * g + k;
        assert(i / 5 == g && i % 5 == k);
    }
    assert(t.subrange(5 * g, 5 * g + 4) =~= group);
}

/// The text of an address is empty or has the shape of exactly one of the two
/// kinds of address.
pub proof fn law_address_text_shape(addr: Seq<u8>)
    requires
        addr.len() == ADDRESS_SIZE,
    ensures
        match address_kind(addr) {
            AddressKind::Absent => address_text(addr).len() == 0,
            AddressKind::V4 => is_dotted_quad(address_text(addr)) && !is_colon_hex(
                address_text(addr),
            ),
            AddressKind::V6 => is_colon_hex(address_text(addr)) && !is_dotted_quad(
                address_text(addr),
            ),
        },
{
    match address_kind(addr) {
        AddressKind::Absent => {},
        AddressKind::V4 => {
            law_first_word_alone_is_ipv4(addr);
            lemma_shapes_differ(address_text(addr));
        },
        AddressKind::V6 => {
            law_later_word_is_ipv6(addr);
            lemma_shapes_differ(address_text(addr));
        },
    }
}

/// No text has both shapes: one of the first four characters of a dotted
/// text is a dot, and none of a colon-separated text is.
pub proof fn lemma_shapes_differ(t: Seq<char>)
    ensures
        !(is_dotted_quad(t) && is_colon_hex(t)),
{
    if is_dotted_quad(t) && is_colon_hex(t) {
        let (a, b, c, d) = choose|a: Seq<char>, b: Seq<char>, c: Seq<char>, d: Seq<char>|
            #![trigger dotted_parts(a, b, c, d)]
            is_byte_numeral(a) && is_byte_numeral(b) && is_byte_numeral(c) && is_byte_numeral(d)
                && t == dotted_parts(a, b, c, d);
        let k = a.len() as int;
        assert(t[k] == '.');
        assert(k % 5 != 4);
        assert(is_lower_hex_digit(t[k]));
    }
}

/// The character of a hexadecimal digit, in lower case.
pub fn hex_digit(d: u8) -> (c: char)
    requires
        d < 16,
    ensures
        c == hex_digit_char(d as int),
{
    if d < 10 {
        (d + 48) as char
    } else {
        (d + 87) as char
    }
}

/// Appends the two hexadecimal digits of `b` to `out`.
pub fn push_hex_pair(out: &mut String, b: u8)
    ensures
        final(out)@ == old(out)@ + hex_pair(b),
{
    out.push(hex_digit(b / 16));
    out.push(hex_digit(b % 16));
    assert(out@ =~= old(out)@ + hex_pair(b));
}

/// The kind of address in the field.
pub fn classify(addr: &[u8; ADDRESS_SIZE]) -> (kind: AddressKind)
    ensures
        kind == address_kind(addr@),
{
    let mut first_is_zero = true;
    let mut rest_is_zero = true;
    let mut i: usize = 0;
    while i < ADDRESS_SIZE
        invariant
            0 <= i <= ADDRESS_SIZE,
            first_is_zero <==> forall|j: int| 0 <= j < i && j < 4 ==> addr@[j] == 0,
            rest_is_zero <==> forall|j: int| 4 <= j < i ==> addr@[j] == 0,
        decreases ADDRESS_SIZE - i,
    {
        if addr[i] != 0 {
            if i < 4 {
                first_is_zero = false;
            } else {
                rest_is_zero = false;
            }
        }
        i += 1;
    }
    proof {
        let a = addr@;
        assert(first_is_zero <==> word_is_zero(a, 0)) by {
            if word_is_zero(a, 0) {
                assert forall|j: int| 0 <= j < 4 implies a[j] == 0 by {}
            } else {
                assert(a[0] != 0 || a[1] != 0 || a[2] != 0 || a[3] != 0);
            }
        }
        assert(rest_is_zero <==> (word_is_zero(a, 1) && word_is_zero(a, 2) && word_is_zero(a, 3)))
            by {
            if word_is_zero(a, 1) && word_is_zero(a, 2) && word_is_zero(a, 3) {
                assert forall|j: int| 4 <= j < 16 implies a[j] == 0 by {}
            } else {
                assert(a[4] != 0 || a[5] != 0 || a[6] != 0 || a[7] != 0 || a[8] != 0 || a[9] != 0
                    || a[10] != 0 || a[11] != 0 || a[12] != 0 || a[13] != 0 || a[14] != 0 || a[15]
                    != 0);
            }
        }
    }
    if rest_is_zero {
        if first_is_zero {
            AddressKind::Absent
        } else {
            AddressKind::V4
        }
    } else {
        AddressKind::V6
    }
}

/// The first four bytes of the field as a dotted IPv4 address.
pub fn ipv4_text(addr: &[u8; ADDRESS_SIZE]) -> (s: String)
    ensures
        s@ == dotted_quad(addr@),
{
    let mut s = String::new();
    push_decimal(&mut s, addr[0] as u32);
    s.push('.');
    push_decimal(&mut s, addr[1] as u32);
    s.push('.');
    push_decimal(&mut s, addr[2] as u32);
    s.push('.');
    push_decimal(&mut s, addr[3] as u32);
    assert(s@ =~= dotted_quad(addr@));
    s
}

/// The sixteen bytes of the field as a colon-separated IPv6 address.
pub fn ipv6_text(addr: &[u8; ADDRESS_SIZE]) -> (s: String)
    ensures
        s@ == colon_hex(addr@),
{
    let mut s = String::new();
    let mut g: usize = 0;
    while g < 8
        invariant
            0 <= g <= 8,
            s@ == colon_hex_prefix(
                addr@,
                if g == 0 {
                    0nat
                } else {
                    (5 * g - 1) as nat
                },
            ),
        decreases 8 - g,
    {
        let ghost before = s@;
        if g > 0 {
            s.push(':');
        }
        push_hex_pair(&mut s, addr[2 * g]);
        push_hex_pair(&mut s, addr[2 * g + 1]);
        proof {
            let next = colon_hex_prefix(addr@, (5 * g + 4) as nat);
            assert(s@.len() == next.len());
            assert forall|i: int| 0 <= i < next.len() implies s@[i] == next[i] by {
                if i >= 5 * g {
                    let k = i - 5 * g;
                    assert(i / 5 == g as int && i % 5 == k);
                } else if i == 5 * g - 1 {
                    assert(i % 5 == 4);
                } else {
                    assert(s@[i] == before[i]);
                }
            }
            assert(s@ =~= next);
        }
        g += 1;
    }
    s
}

/// The text of the address in the field: empty, dotted decimal, or
/// colon-separated hexadecimal.
pub fn address_string(addr: &[u8; ADDRESS_SIZE]) -> (s: String)
    ensures
        s@ == address_text(addr@),
{
    match classify(addr) {
        AddressKind::Absent => String::new(),
        AddressKind::V4 => ipv4_text(addr),
        AddressKind::V6 => ipv6_text(addr),
    }
}

} // verus!
