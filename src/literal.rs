//! Identifiers and string literals of the script language, as the bootstrap
//! text writes them.
use vstd::prelude::*;
use vstd::string::*;

verus! {

/// Whether `c` has the Unicode property XID_Start.
pub uninterp spec fn xid_start(c: char) -> bool;

/// Whether `c` has the Unicode property XID_Continue.
pub uninterp spec fn xid_continue(c: char) -> bool;

/// Relies on `unicode_ident::is_xid_start`: the XID_Start property of `ch`.
pub assume_specification[ unicode_ident::is_xid_start ](ch: char) -> (r: bool)
    ensures
        r == xid_start(ch),
;

/// Relies on `unicode_ident::is_xid_continue`: the XID_Continue property of `ch`.
pub assume_specification[ unicode_ident::is_xid_continue ](ch: char) -> (r: bool)
    ensures
        r == xid_continue(ch),
;

/// A character that may start an identifier: an ASCII letter, `_`, `$`, or
/// any other character with the Unicode start property.
pub open spec fn is_ident_start(c: char) -> bool {
    ('a' <= c && c <= 'z') || ('A' <= c && c <= 'Z') || c == '_' || c == '$' || (c as u32
        >= 128 && xid_start(c))
}

/// A character that may continue an identifier: a start character, an ASCII
/// digit, a non-ASCII character with the Unicode continue property, or one
/// of the two zero-width joiners.
pub open spec fn is_ident_part(c: char) -> bool {
    is_ident_start(c) || ('0' <= c && c <= '9') || (c as u32 >= 128 && xid_continue(c)) || c
        == '\u{200C}' || c == '\u{200D}'
}

fn ident_start_char(c: char) -> (r: bool)
    ensures
        r == is_ident_start(c),
{
    if ('a' <= c && c <= 'z') || ('A' <= c && c <= 'Z') || c == '_' || c == '$' {
        true
    } else if (c as u32) < 128 {
        false
    } else {
        unicode_ident::is_xid_start(c)
    }
}

fn ident_part_char(c: char) -> (r: bool)
    ensures
        r == is_ident_part(c),
{
    if ident_start_char(c) || ('0' <= c && c <= '9') || c == '\u{200C}' || c == '\u{200D}' {
        true
    } else if (c as u32) < 128 {
        false
    } else {
        unicode_ident::is_xid_continue(c)
    }
}

/// A non-empty run of identifier characters that does not start with a digit.
pub open spec fn is_identifier(s: Seq<char>) -> bool {
    &&& s.len() > 0
    &&& is_ident_start(s[0])
    &&& forall|i: int| 1 <= i < s.len() ==> is_ident_part(#[trigger] s[i])
}

/// A character written into a literal as it is.
pub open spec fn is_plain_char(c: char) -> bool {
    ('a' <= c && c <= 'z') || ('A' <= c && c <= 'Z') || ('0' <= c && c <= '9') || c == '_'
        || c == ' ' || c == '-' || c == '.' || c == ',' || c == ':' || c == '/' || c == '@'
        || c == '=' || c == '+'
}

/// The four bits of `v` that start at bit `shift`.
pub open spec fn nibble(v: u32, shift: u32) -> u32 {
    (v >> shift) & 15u32
}

/// The lower-case hex digit of a value below 16.
pub open spec fn hex_char(d: u32) -> char {
    if d < 10 {
        ((d + 48) as u8) as char
    } else {
        ((d + 87) as u8) as char
    }
}

pub open spec fn is_hex_char(c: char) -> bool {
    ('0' <= c && c <= '9') || ('a' <= c && c <= 'f')
}

pub open spec fn hex_value(c: char) -> int {
    if '0' <= c && c <= '9' {
        c as u32 - 48
    } else {
        c as u32 - 87
    }
}

/// How one character of a value is written inside a quoted literal: as itself
/// when it is plain, else as a code point escape with six hex digits.
pub open spec fn encode_char(c: char) -> Seq<char> {
    if is_plain_char(c) {
        seq![c]
    } else {
        let v = c as u32;
        seq![
            '\\', 'u', '{',
            hex_char(nibble(v, 20)), hex_char(nibble(v, 16)), hex_char(nibble(v, 12)),
            hex_char(nibble(v, 8)), hex_char(nibble(v, 4)), hex_char(nibble(v, 0)),
            '}',
        ]
    }
}

/// The body of a quoted literal whose value is `s`.
pub open spec fn encode_literal(s: Seq<char>) -> Seq<char>
    decreases s.len(),
{
    if s.len() == 0 {
        Seq::empty()
    } else {
        encode_literal(s.drop_last()) + encode_char(s.last())
    }
}

/// The code point of `c`.
pub open spec fn code_of(c: char) -> int {
    c as u32 as int
}

/// The character whose code point is `v`.
pub open spec fn char_of_code(v: int) -> char {
    choose|c: char| #[trigger] code_of(c) == v
}

/// The value of the six hex digits of `t` from index 3 on.
pub open spec fn escape_value(t: Seq<char>) -> int {
    hex_value(t[3]) * 0x100000 + hex_value(t[4]) * 0x10000 + hex_value(t[5]) * 0x1000
        + hex_value(t[6]) * 0x100 + hex_value(t[7]) * 0x10 + hex_value(t[8])
}

/// `t` starts with a code point escape `\u{hhhhhh}` that names a character.
pub open spec fn starts_with_escape(t: Seq<char>) -> bool {
    &&& t.len() >= 10
    &&& t[0] == '\\' && t[1] == 'u' && t[2] == '{' && t[9] == '}'
    &&& forall|k: int| 3 <= k < 9 ==> is_hex_char(#[trigger] t[k])
    &&& exists|c: char| #[trigger] code_of(c) == escape_value(t)
}

/// A character that ends a quoted literal or may not stand in one unescaped.
pub open spec fn is_literal_breaker(c: char) -> bool {
    c == '\'' || c == '\n' || c == '\r' || c == '\u{2028}' || c == '\u{2029}'
}

/// What the body `t` of a single-quoted literal evaluates to, where `t` uses
/// no escape but code point escapes; `None` where `t` would end the literal
/// early, or holds a form outside that subset.
pub open spec fn decode_literal(t: Seq<char>) -> Option<Seq<char>>
    decreases t.len(),
{
    if t.len() == 0 {
        Some(Seq::empty())
    } else if t[0] == '\\' {
        if starts_with_escape(t) {
            match decode_literal(t.subrange(10, t.len() as int)) {
                Some(r) => Some(seq![char_of_code(escape_value(t))] + r),
                None => None,
            }
        } else {
            None
        }
    } else if is_literal_breaker(t[0]) {
        None
    } else {
        match decode_literal(t.subrange(1, t.len() as int)) {
            Some(r) => Some(seq![t[0]] + r),
            None => None,
        }
    }
}

proof fn lemma_nibbles_rebuild(v: u32)
    requires
        v < 0x1000000,
    ensures
        nibble(v, 20) * 0x100000 + nibble(v, 16) * 0x10000 + nibble(v, 12) * 0x1000
            + nibble(v, 8) * 0x100 + nibble(v, 4) * 0x10 + nibble(v, 0) == v,
        nibble(v, 20) < 16 && nibble(v, 16) < 16 && nibble(v, 12) < 16,
        nibble(v, 8) < 16 && nibble(v, 4) < 16 && nibble(v, 0) < 16,
        nibble(v, 0) == v & 15,
{
    assert((v >> 0u32) & 15u32 == v & 15u32) by (bit_vector);
    assert(((v >> 20u32) & 15u32) * 0x100000u32 + ((v >> 16u32) & 15u32) * 0x10000u32
        + ((v >> 12u32) & 15u32) * 0x1000u32 + ((v >> 8u32) & 15u32) * 0x100u32
        + ((v >> 4u32) & 15u32) * 0x10u32 + ((v >> 0u32) & 15u32) == v) by (bit_vector)
        requires
            v < 0x1000000u32,
    ;
    assert((v >> 20u32) & 15u32 < 16u32) by (bit_vector);
    assert((v >> 16u32) & 15u32 < 16u32) by (bit_vector);
    assert((v >> 12u32) & 15u32 < 16u32) by (bit_vector);
    assert((v >> 8u32) & 15u32 < 16u32) by (bit_vector);
    assert((v >> 4u32) & 15u32 < 16u32) by (bit_vector);
    assert((v >> 0u32) & 15u32 < 16u32) by (bit_vector);
}

proof fn lemma_hex_char(d: u32)
    requires
        d < 16,
    ensures
        is_hex_char(hex_char(d)),
        hex_value(hex_char(d)) == d,
        !is_literal_breaker(hex_char(d)),
        hex_char(d) != '\\',
{
}

pub proof fn lemma_char_code_unique(c: char, d: char)
    ensures
        c as u32 == d as u32 ==> c == d,
{
}

proof fn lemma_decode_char_then(c: char, rest: Seq<char>)
    ensures
        decode_literal(encode_char(c) + rest) == match decode_literal(rest) {
            Some(r) => Some(seq![c] + r),
            None => None::<Seq<char>>,
        },
{
    let t = encode_char(c) + rest;
    if is_plain_char(c) {
        assert(t.subrange(1, t.len() as int) =~= rest);
    } else {
        let v = c as u32;
        assert(v < 0x110000) by {
            assert(c as u32 <= 0x10FFFF);
        }
        lemma_nibbles_rebuild(v);
        lemma_hex_char(nibble(v, 20));
        lemma_hex_char(nibble(v, 16));
        lemma_hex_char(nibble(v, 12));
        lemma_hex_char(nibble(v, 8));
        lemma_hex_char(nibble(v, 4));
        lemma_hex_char(nibble(v, 0));
        assert(escape_value(t) == v as int);
        assert(code_of(c) == escape_value(t));
        assert(starts_with_escape(t));
        let d = char_of_code(escape_value(t));
        lemma_char_code_unique(c, d);
        assert(d == c);
        assert(t.subrange(10, t.len() as int) =~= rest);
    }
}

proof fn lemma_encode_concat(a: Seq<char>, b: Seq<char>)
    ensures
        encode_literal(a + b) == encode_literal(a) + encode_literal(b),
    decreases b.len(),
{
    if b.len() == 0 {
        assert(a + b =~= a);
        assert(encode_literal(a) + encode_literal(b) =~= encode_literal(a));
    } else {
        lemma_encode_concat(a, b.drop_last());
        assert((a + b).drop_last() =~= a + b.drop_last());
        assert((a + b).last() == b.last());
        assert(encode_literal(a + b) =~= encode_literal(a) + encode_literal(b));
    }
}

/// Escaping round trip: the literal body written for any value evaluates to
/// exactly that value, so no part of the value can end the literal or run as
/// code.
pub proof fn lemma_literal_round_trip(s: Seq<char>)
    ensures
        decode_literal(encode_literal(s)) == Some(s),
    decreases s.len(),
{
    if s.len() > 0 {
        let rest = s.subrange(1, s.len() as int);
        lemma_literal_round_trip(rest);
        assert(s =~= seq![s[0]] + rest);
        lemma_encode_concat(seq![s[0]], rest);
        assert(seq![s[0]].drop_last() =~= Seq::<char>::empty());
        assert(seq![s[0]].last() == s[0]);
        assert(encode_literal(Seq::<char>::empty()) =~= Seq::<char>::empty());
        assert(encode_literal(seq![s[0]]) =~= encode_char(s[0]));
        lemma_decode_char_then(s[0], encode_literal(rest));
    } else {
        assert(encode_literal(s) =~= Seq::<char>::empty());
    }
}

/// Relies on `String::push`: appends one character.
#[verifier::external_body]
pub(crate) fn push_char(s: &mut String, c: char)
    ensures
        final(s)@ == old(s)@.push(c),
{
    s.push(c)
}

fn hex_digit(d: u32) -> (r: char)
    requires
        d < 16,
    ensures
        r == hex_char(d),
{
    if d < 10 {
        ((d + 48) as u8) as char
    } else {
        ((d + 87) as u8) as char
    }
}

/// Appends to `out` how `c` is written inside a quoted literal.
fn push_encoded_char(out: &mut String, c: char)
    ensures
        final(out)@ == old(out)@ + encode_char(c),
{
    if ('a' <= c && c <= 'z') || ('A' <= c && c <= 'Z') || ('0' <= c && c <= '9') || c == '_'
        || c == ' ' || c == '-' || c == '.' || c == ',' || c == ':' || c == '/' || c == '@'
        || c == '=' || c == '+' {
        push_char(out, c);
        assert(out@ =~= old(out)@ + encode_char(c));
    } else {
        let v = c as u32;
        proof {
            lemma_nibbles_rebuild(v);
        }
        push_char(out, '\\');
        push_char(out, 'u');
        push_char(out, '{');
        push_char(out, hex_digit((v >> 20) & 15));
        push_char(out, hex_digit((v >> 16) & 15));
        push_char(out, hex_digit((v >> 12) & 15));
        push_char(out, hex_digit((v >> 8) & 15));
        push_char(out, hex_digit((v >> 4) & 15));
        push_char(out, hex_digit(v & 15));
        push_char(out, '}');
        assert(out@ =~= old(out)@ + encode_char(c));
    }
}

/// Writes the body of a single-quoted literal whose value is `value`.
pub fn escape_literal(value: &str) -> (r: String)
    ensures
        r@ == encode_literal(value@),
{
    let mut out = String::new();
    let n = value.unicode_len();
    let mut i: usize = 0;
    while i < n
        invariant
            n == value@.len(),
            i <= n,
            out@ == encode_literal(value@.subrange(0, i as int)),
        decreases n - i,
    {
        let c = value.get_char(i);
        push_encoded_char(&mut out, c);
        proof {
            let next = value@.subrange(0, i + 1);
            assert(next.drop_last() =~= value@.subrange(0, i as int));
            assert(next.last() == c);
        }
        i = i + 1;
    }
    assert(value@.subrange(0, n as int) =~= value@);
    out
}

/// Whether `name` can stand after a `.` as a property name.
pub fn is_valid_identifier(name: &str) -> (r: bool)
    ensures
        r == is_identifier(name@),
{
    let n = name.unicode_len();
    if n == 0 {
        return false;
    }
    if !ident_start_char(name.get_char(0)) {
        return false;
    }
    let mut i: usize = 1;
    while i < n
        invariant
            n == name@.len(),
            1 <= i <= n,
            forall|j: int| 1 <= j < i ==> is_ident_part(#[trigger] name@[j]),
        decreases n - i,
    {
        if !ident_part_char(name.get_char(i)) {
            return false;
        }
        i = i + 1;
    }
    true
}

} // verus!
