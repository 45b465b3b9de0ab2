//! The bytes that one press of "send" puts on the wire: the text as UTF-8,
//! or the text read as hexadecimal byte pairs, followed by the line ending.
use vstd::prelude::*;
use vstd::string::{StringExecFns, StringSliceAdditionalSpecFns};
use vstd::utf8::encode_utf8;
use crate::config::Newline;
use crate::digits::{digit_char, hex_pair};
use crate::rx::hex_text;
use crate::text::{chars_of, is_space, is_space_char, push_char};

verus! {

/// The number of bytes of the UTF-8 encoding of `c`.
pub open spec fn utf8_width(c: char) -> nat {
    let u = c as u32;
    if u < 0x80 {
        1
    } else if u < 0x800 {
        2
    } else if u < 0x10000 {
        3
    } else {
        4
    }
}

/// The number of bytes of the UTF-8 encoding of `s`.
pub open spec fn utf8_len(s: Seq<char>) -> nat
    decreases s.len(),
{
    if s.len() == 0 {
        0
    } else {
        utf8_len(s.drop_last()) + utf8_width(s.last())
    }
}

/// `s` without its white-space characters.
pub open spec fn strip_spaces(s: Seq<char>) -> Seq<char>
    decreases s.len(),
{
    if s.len() == 0 {
        s
    } else if is_space_char(s.last()) {
        strip_spaces(s.drop_last())
    } else {
        strip_spaces(s.drop_last()).push(s.last())
    }
}

/// The value of a hexadecimal digit, in either case.
pub open spec fn hex_val(c: char) -> Option<u8> {
    if '0' <= c <= '9' {
        Some((c as u32 - '0' as u32) as u8)
    } else if 'a' <= c <= 'f' {
        Some((c as u32 - 'a' as u32 + 10) as u8)
    } else if 'A' <= c <= 'F' {
        Some((c as u32 - 'A' as u32 + 10) as u8)
    } else {
        None
    }
}

/// The byte that the two hexadecimal digits `a b` denote, high digit
/// first; none where either is no hexadecimal digit.
pub open spec fn pair_value(a: char, b: char) -> Option<u8> {
    match (hex_val(a), hex_val(b)) {
        (Some(x), Some(y)) => Some((16 * x + y) as u8),
        _ => None,
    }
}

/// A character with a one-byte UTF-8 encoding.
pub open spec fn is_ascii_char(c: char) -> bool {
    (c as u32) < 0x80
}

/// Whether reading `h` two bytes at a time would cut a character in two:
/// the pairs before it are all well-formed, and the next pair starts with
/// an ASCII character followed by a wider one, or with a character of
/// three or four bytes.
pub open spec fn pairs_cut_char(h: Seq<char>) -> bool
    decreases h.len(),
{
    if h.len() == 0 {
        false
    } else if is_ascii_char(h[0]) {
        if h.len() >= 2 && is_ascii_char(h[1]) {
            pair_value(h[0], h[1]) is Some && pairs_cut_char(h.skip(2))
        } else {
            true
        }
    } else {
        utf8_width(h[0]) != 2
    }
}

/// The bytes that `h` denotes read two bytes at a time, or the first piece
/// that is no hexadecimal pair.
pub open spec fn decode_pairs(h: Seq<char>) -> Result<Seq<u8>, Seq<char>>
    decreases h.len(),
{
    if h.len() == 0 {
        Ok(seq![])
    } else if h.len() >= 2 && is_ascii_char(h[0]) && is_ascii_char(h[1]) {
        match pair_value(h[0], h[1]) {
            Some(b) => match decode_pairs(h.skip(2)) {
                Ok(rest) => Ok(seq![b] + rest),
                Err(bad) => Err(bad),
            },
            None => Err(h.take(2)),
        }
    } else {
        Err(h.take(1))
    }
}

/// The message for hexadecimal text of an odd number of bytes.
pub open spec fn odd_length_message() -> Seq<char> {
    "HEX 长度须为偶数"@
}

/// The message for a piece of hexadecimal text that is no byte.
pub open spec fn bad_pair_message(bad: Seq<char>) -> Seq<char> {
    "无效 HEX: "@ + bad
}

/// What one send puts on the wire for the text `send`: in text mode its
/// UTF-8 bytes; in hex mode the bytes its non-space characters denote in
/// pairs (nothing at all, not even the line ending, where there are no such
/// characters); then the line ending. The error is the message shown.
pub open spec fn payload(send: Seq<char>, hex_mode: bool, nl: Newline) -> Result<
    Seq<u8>,
    Seq<char>,
> {
    if hex_mode {
        let h = strip_spaces(send);
        if h.len() == 0 {
            Ok(seq![])
        } else if utf8_len(h) % 2 != 0 {
            Err(odd_length_message())
        } else {
            match decode_pairs(h) {
                Ok(v) => Ok(v + nl.bytes()),
                Err(bad) => Err(bad_pair_message(bad)),
            }
        }
    } else {
        Ok(encode_utf8(send) + nl.bytes())
    }
}

/// Whether building the payload would stop on a character cut in two
/// (the text slicing panics there).
pub open spec fn payload_cuts_char(send: Seq<char>, hex_mode: bool) -> bool {
    hex_mode && {
        let h = strip_spaces(send);
        h.len() > 0 && utf8_len(h) % 2 == 0 && pairs_cut_char(h)
    }
}

/// A result of bytes or a message, by its views.
pub open spec fn result_view(r: Result<Vec<u8>, String>) -> Result<Seq<u8>, Seq<char>> {
    match r {
        Ok(v) => Ok(v@),
        Err(e) => Err(e@),
    }
}

/// `d` followed by the line ending `nl`.
pub fn mk_nl(d: &[u8], nl: Newline) -> (v: Vec<u8>)
    ensures
        v@ == d@ + nl.bytes(),
{
    let mut v = vstd::slice::slice_to_vec(d);
    match nl {
        Newline::CrLf => {
            v.push(13u8);
            v.push(10u8);
        },
        Newline::Cr => v.push(13u8),
        Newline::Lf => v.push(10u8),
        Newline::Off => {},
    }
    assert(v@ =~= d@ + nl.bytes());
    v
}

/// The value of a hexadecimal digit.
fn hex_digit(c: char) -> (r: Option<u8>)
    ensures
        r == hex_val(c),
{
    if '0' <= c && c <= '9' {
        Some((c as u32 - '0' as u32) as u8)
    } else if 'a' <= c && c <= 'f' {
        Some((c as u32 - 'a' as u32 + 10) as u8)
    } else if 'A' <= c && c <= 'F' {
        Some((c as u32 - 'A' as u32 + 10) as u8)
    } else {
        None
    }
}

/// The byte that `a b` denote in base 16.
fn pair_byte(a: char, b: char) -> (r: Option<u8>)
    ensures
        r == pair_value(a, b),
{
    match (hex_digit(a), hex_digit(b)) {
        (Some(x), Some(y)) => Some(16 * x + y),
        _ => None,
    }
}

/// The characters of `v` that are not white space.
fn strip_space_chars(v: &Vec<char>) -> (h: Vec<char>)
    ensures
        h@ == strip_spaces(v@),
{
    let mut h: Vec<char> = Vec::new();
    let mut i: usize = 0;
    while i < v.len()
        invariant
            i <= v.len(),
            h@ == strip_spaces(v@.take(i as int)),
        decreases v.len() - i,
    {
        let c = v[i];
        if !is_space(c) {
            h.push(c);
        }
        proof {
            assert(v@.take(i + 1).drop_last() =~= v@.take(i as int));
        }
        i += 1;
    }
    assert(v@.take(v.len() as int) =~= v@);
    h
}

/// The width in bytes of `c` in UTF-8.
fn utf8_width_of(c: char) -> (w: usize)
    ensures
        w == utf8_width(c),
{
    let u = c as u32;
    if u < 0x80 {
        1
    } else if u < 0x800 {
        2
    } else if u < 0x10000 {
        3
    } else {
        4
    }
}

/// Whether the UTF-8 encoding of `h` has an odd number of bytes.
fn utf8_len_is_odd(h: &Vec<char>) -> (b: bool)
    ensures
        b == (utf8_len(h@) % 2 != 0),
{
    let mut odd = false;
    let mut i: usize = 0;
    while i < h.len()
        invariant
            i <= h.len(),
            odd == (utf8_len(h@.take(i as int)) % 2 != 0),
        decreases h.len() - i,
    {
        let w = utf8_width_of(h[i]);
        proof {
            assert(h@.take(i + 1).drop_last() =~= h@.take(i as int));
        }
        if w % 2 == 1 {
            odd = !odd;
        }
        i += 1;
    }
    assert(h@.take(h.len() as int) =~= h@);
    odd
}

/// `prefix` put in front of the bytes of `r`.
pub open spec fn prepend(prefix: Seq<u8>, r: Result<Seq<u8>, Seq<char>>) -> Result<
    Seq<u8>,
    Seq<char>,
> {
    match r {
        Ok(v) => Ok(prefix + v),
        Err(e) => Err(e),
    }
}

/// The message for the piece `h[lo..hi]`.
fn bad_pair(h: &Vec<char>, lo: usize, hi: usize) -> (m: String)
    requires
        lo <= hi <= h.len(),
    ensures
        m@ == bad_pair_message(h@.subrange(lo as int, hi as int)),
{
    let mut m = String::from_str("无效 HEX: ");
    let ghost start = m@;
    let mut i = lo;
    while i < hi
        invariant
            lo <= i <= hi <= h.len(),
            m@ == start + h@.subrange(lo as int, i as int),
        decreases hi - i,
    {
        push_char(&mut m, h[i]);
        i += 1;
        assert(m@ =~= start + h@.subrange(lo as int, i as int));
    }
    m
}

/// The bytes that `h` denotes read in pairs.
fn decode(h: &Vec<char>) -> (r: Result<Vec<u8>, String>)
    ensures
        result_view(r) == match decode_pairs(h@) {
            Ok(v) => Ok(v),
            Err(bad) => Err(bad_pair_message(bad)),
        },
{
    let mut out: Vec<u8> = Vec::new();
    let mut j: usize = 0;
    assert(h@.skip(0) =~= h@);
    while j < h.len()
        invariant
            j <= h.len(),
            decode_pairs(h@) == prepend(out@, decode_pairs(h@.skip(j as int))),
        decreases h.len() - j,
    {
        let ghost rest = h@.skip(j as int);
        let c0 = h[j];
        if (c0 as u32) < 0x80 && j + 1 < h.len() && (h[j + 1] as u32) < 0x80 {
            let c1 = h[j + 1];
            assert(rest[0] == c0 && rest[1] == c1);
            match pair_byte(c0, c1) {
                Some(b) => {
                    proof {
                        assert(rest.skip(2) =~= h@.skip(j + 2));
                        assert(out@.push(b) =~= out@ + seq![b]);
                        match decode_pairs(rest.skip(2)) {
                            Ok(v) => {
                                assert(out@ + (seq![b] + v) =~= out@.push(b) + v);
                            },
                            Err(e) => {},
                        }
                    }
                    out.push(b);
                    j += 2;
                },
                None => {
                    assert(rest.take(2) =~= h@.subrange(j as int, j + 2));
                    return Err(bad_pair(h, j, j + 2));
                },
            }
        } else {
            assert(rest.take(1) =~= h@.subrange(j as int, j + 1));
            return Err(bad_pair(h, j, j + 1));
        }
    }
    assert(h@.skip(j as int) =~= Seq::<char>::empty());
    assert(out@ + Seq::<u8>::empty() =~= out@);
    Ok(out)
}

/// The bytes one send puts on the wire for the text `send`, in hex mode or
/// text mode, with the line ending `nl`; or the message to show instead.
pub fn build_payload(send: &str, hex_mode: bool, nl: Newline) -> (r: Result<Vec<u8>, String>)
    requires
        !payload_cuts_char(send@, hex_mode),
    ensures
        result_view(r) == payload(send@, hex_mode, nl),
        !hex_mode ==> (r matches Ok(v) && v@ == send.spec_bytes() + nl.bytes()),
{
    if hex_mode {
        let v = chars_of(send);
        let h = strip_space_chars(&v);
        if h.len() == 0 {
            return Ok(Vec::new());
        }
        if utf8_len_is_odd(&h) {
            return Err(String::from_str("HEX 长度须为偶数"));
        }
        match decode(&h) {
            Ok(bytes) => Ok(mk_nl(bytes.as_slice(), nl)),
            Err(m) => Err(m),
        }
    } else {
        let bytes = send.as_bytes();
        Ok(mk_nl(bytes, nl))
    }
}

/// Whether building the hex-mode payload of `send` would cut a character
/// in two.
pub fn would_cut_char(send: &str, hex_mode: bool) -> (b: bool)
    ensures
        b == payload_cuts_char(send@, hex_mode),
{
    if !hex_mode {
        return false;
    }
    let v = chars_of(send);
    let h = strip_space_chars(&v);
    if h.len() == 0 || utf8_len_is_odd(&h) {
        return false;
    }
    let mut j: usize = 0;
    assert(h@.skip(0) =~= h@);
    while j < h.len()
        invariant
            j <= h.len(),
            pairs_cut_char(h@) == pairs_cut_char(h@.skip(j as int)),
            hex_mode,
            h@ == strip_spaces(send@),
            h@.len() > 0,
            utf8_len(h@) % 2 == 0,
        decreases h.len() - j,
    {
        let ghost rest = h@.skip(j as int);
        let c0 = h[j];
        assert(rest[0] == c0);
        if (c0 as u32) < 0x80 {
            if j + 1 < h.len() && (h[j + 1] as u32) < 0x80 {
                assert(rest[1] == h@[j + 1]);
                if pair_byte(c0, h[j + 1]).is_none() {
                    assert(rest.len() >= 2);
                    assert(is_ascii_char(rest[0]));
                    assert(is_ascii_char(rest[1]));
                    assert(!pairs_cut_char(rest));
                    return false;
                }
                assert(rest.skip(2) =~= h@.skip(j + 2));
                j += 2;
            } else {
                return true;
            }
        } else {
            assert(!is_ascii_char(rest[0]));
            assert(rest.len() > 0);
            return utf8_width_of(c0) != 2;
        }
    }
    assert(h@.skip(j as int) =~= Seq::<char>::empty());
    false
}

/// The hexadecimal digits of `b`, two per byte, without separators.
pub open spec fn hex_digits(b: Seq<u8>) -> Seq<char>
    decreases b.len(),
{
    if b.len() == 0 {
        seq![]
    } else {
        hex_pair(b[0]) + hex_digits(b.drop_first())
    }
}

/// A digit character is read back as its value.
proof fn lemma_hex_val_digit(x: int)
    requires
        0 <= x < 16,
    ensures
        hex_val(digit_char(x)) == Some(x as u8),
        is_ascii_char(digit_char(x)),
        !is_space_char(digit_char(x)),
{
}

/// The two digits of a byte are read back as the byte.
proof fn lemma_pair_value_hex_pair(b: u8)
    ensures
        pair_value(hex_pair(b)[0], hex_pair(b)[1]) == Some(b),
        is_ascii_char(hex_pair(b)[0]),
        is_ascii_char(hex_pair(b)[1]),
        !is_space_char(hex_pair(b)[0]),
        !is_space_char(hex_pair(b)[1]),
{
    lemma_hex_val_digit(b as int / 16);
    lemma_hex_val_digit(b as int % 16);
    assert(16 * (b as int / 16) + b as int % 16 == b);
}

/// The digits of `b`, built from the back.
proof fn lemma_hex_digits_back(b: Seq<u8>)
    requires
        b.len() > 0,
    ensures
        hex_digits(b) == hex_digits(b.drop_last()) + hex_pair(b.last()),
    decreases b.len(),
{
    if b.len() == 1 {
        assert(b.drop_last() =~= Seq::<u8>::empty());
        assert(b.drop_first() =~= Seq::<u8>::empty());
        assert(hex_digits(b.drop_first()) == Seq::<char>::empty());
        assert(hex_digits(b.drop_last()) == Seq::<char>::empty());
        assert(b[0] == b.last());
        assert(hex_digits(b) == hex_pair(b[0]) + hex_digits(b.drop_first()));
        assert(hex_digits(b) =~= hex_digits(b.drop_last()) + hex_pair(b.last()));
    } else {
        lemma_hex_digits_back(b.drop_first());
        assert(b.drop_first().drop_last() =~= b.drop_last().drop_first());
        assert(hex_digits(b) =~= hex_digits(b.drop_last()) + hex_pair(b.last()));
    }
}

/// Without its spaces, the hexadecimal rendering is the digits alone.
proof fn lemma_strip_hex_text(b: Seq<u8>)
    ensures
        strip_spaces(hex_text(b)) == hex_digits(b),
    decreases b.len(),
{
    if b.len() > 0 {
        lemma_strip_hex_text(b.drop_last());
        lemma_hex_digits_back(b);
        lemma_pair_value_hex_pair(b.last());
        let x = hex_text(b.drop_last());
        let p = hex_pair(b.last());
        let t = hex_text(b);
        assert(t =~= x + p + seq![' ']);
        assert(t.drop_last() =~= x + p);
        assert(t.last() == ' ');
        assert(is_space_char(' '));
        assert(strip_spaces(t) == strip_spaces(x + p));
        let y = x + p;
        assert(y.drop_last() =~= x + seq![p[0]]);
        assert(y.last() == p[1]);
        assert(strip_spaces(y) == strip_spaces(x + seq![p[0]]).push(p[1]));
        let z = x + seq![p[0]];
        assert(z.drop_last() =~= x);
        assert(z.last() == p[0]);
        assert(strip_spaces(z) == strip_spaces(x).push(p[0]));
        assert(hex_digits(b) =~= strip_spaces(x).push(p[0]).push(p[1]));
    }
}

/// The digits of bytes are all one-byte characters, two per byte.
proof fn lemma_hex_digits_len(b: Seq<u8>)
    ensures
        utf8_len(hex_digits(b)) == 2 * b.len(),
        hex_digits(b).len() == 2 * b.len(),
    decreases b.len(),
{
    if b.len() > 0 {
        lemma_hex_digits_len(b.drop_last());
        lemma_hex_digits_back(b);
        lemma_pair_value_hex_pair(b.last());
        let x = hex_digits(b.drop_last());
        let p = hex_pair(b.last());
        let y = x + p;
        assert(y.drop_last() =~= x + seq![p[0]]);
        assert(y.last() == p[1]);
        assert(utf8_len(y) == utf8_len(x + seq![p[0]]) + 1);
        let z = x + seq![p[0]];
        assert(z.drop_last() =~= x);
        assert(z.last() == p[0]);
        assert(utf8_len(z) == utf8_len(x) + 1);
    }
}

/// The digits of bytes are read back, pair by pair, as the bytes.
proof fn lemma_decode_hex_digits(b: Seq<u8>)
    ensures
        decode_pairs(hex_digits(b)) == Ok::<Seq<u8>, Seq<char>>(b),
        !pairs_cut_char(hex_digits(b)),
    decreases b.len(),
{
    if b.len() > 0 {
        lemma_decode_hex_digits(b.drop_first());
        lemma_pair_value_hex_pair(b[0]);
        let h = hex_digits(b);
        assert(h.skip(2) =~= hex_digits(b.drop_first()));
        assert(h[0] == hex_pair(b[0])[0]);
        assert(h[1] == hex_pair(b[0])[1]);
        assert(h.len() >= 2);
        assert(seq![b[0]] + b.drop_first() =~= b);
        assert(decode_pairs(h) == Ok::<Seq<u8>, Seq<char>>(seq![b[0]] + b.drop_first()));
    } else {
        assert(b =~= Seq::<u8>::empty());
    }
}

/// What the hexadecimal view shows of received bytes, sent back in hex
/// mode, puts the same bytes on the wire (followed by the line ending),
/// without cutting any character.
pub proof fn law_hex_view_resends(b: Seq<u8>, nl: Newline)
    ensures
        !payload_cuts_char(hex_text(b), true),
        payload(hex_text(b), true, nl) == if b.len() == 0 {
            Ok::<Seq<u8>, Seq<char>>(Seq::empty())
        } else {
            Ok::<Seq<u8>, Seq<char>>(b + nl.bytes())
        },
{
    lemma_strip_hex_text(b);
    lemma_hex_digits_len(b);
    lemma_decode_hex_digits(b);
}

/// In text mode a send puts the whole text on the wire, every UTF-8 byte
/// of it in order, followed by the bytes of the line ending: nothing is
/// dropped, whatever the length of the text.
pub proof fn law_text_mode_sends_whole_text(send: Seq<char>, nl: Newline)
    ensures
        payload(send, false, nl) == Ok::<Seq<u8>, Seq<char>>(
            encode_utf8(send) + match nl {
                Newline::Off => Seq::<u8>::empty(),
                Newline::CrLf => seq![13u8, 10u8],
                Newline::Cr => seq![13u8],
                Newline::Lf => seq![10u8],
            },
        ),
        payload(send, false, nl) matches Ok(v) && v.take(encode_utf8(send).len() as int)
            == encode_utf8(send),
{
    let e = encode_utf8(send);
    assert((e + nl.bytes()).take(e.len() as int) =~= e);
}

} // verus!
