//! Form URL encoding for OAuth requests and decoding of callback query
//! components.

use vstd::prelude::*;
use vstd::utf8::{decode_utf8, encode_utf8, is_ascii_chars, valid_utf8};

use crate::provider::PublicError;
use crate::text::string_from_utf8;

verus! {

broadcast use vstd::utf8::encode_utf8_valid_utf8, vstd::utf8::encode_utf8_decode_utf8;

/// Bytes that are copied through unchanged.
pub open spec fn is_unreserved(b: u8) -> bool {
    (65 <= b <= 90) || (97 <= b <= 122) || (48 <= b <= 57) || b == 45 || b == 95 || b == 46
        || b == 126
}

/// Upper-case hexadecimal digit of a value below sixteen.
pub open spec fn hex_upper_digit(n: u8) -> char {
    if n < 10 {
        (48 + n) as char
    } else {
        (55 + n) as char
    }
}

/// The encoding of one byte: unreserved bytes as themselves, a space as `+`,
/// anything else as `%` and two upper-case hexadecimal digits.
pub open spec fn encode_byte(b: u8) -> Seq<char> {
    if is_unreserved(b) {
        seq![b as char]
    } else if b == 32 {
        seq!['+']
    } else {
        seq!['%', hex_upper_digit(b / 16), hex_upper_digit(b % 16)]
    }
}

pub open spec fn url_encode_bytes(b: Seq<u8>) -> Seq<char>
    decreases b.len(),
{
    if b.len() == 0 {
        seq![]
    } else {
        url_encode_bytes(b.drop_last()) + encode_byte(b.last())
    }
}

/// The form encoding of a string: the encoding of each of its UTF-8 bytes.
pub open spec fn url_encode_spec(s: Seq<char>) -> Seq<char> {
    url_encode_bytes(encode_utf8(s))
}

/// The value of a hexadecimal digit byte of either case.
pub open spec fn hex_value(b: u8) -> Option<u8> {
    if 48 <= b <= 57 {
        Some((b - 48) as u8)
    } else if 97 <= b <= 102 {
        Some((b - 87) as u8)
    } else if 65 <= b <= 70 {
        Some((b - 55) as u8)
    } else {
        None
    }
}

pub open spec fn prepend_bytes(prefix: Seq<u8>, rest: Option<Seq<u8>>) -> Option<Seq<u8>> {
    match rest {
        Some(r) => Some(prefix + r),
        None => None,
    }
}

/// Form decoding of bytes: `+` is a space, `%` must be followed by two
/// hexadecimal digits of either case, every other byte stands for itself.
pub open spec fn url_decode_bytes(b: Seq<u8>) -> Option<Seq<u8>>
    decreases b.len(),
{
    if b.len() == 0 {
        Some(seq![])
    } else if b[0] == 43 {
        prepend_bytes(seq![32u8], url_decode_bytes(b.drop_first()))
    } else if b[0] == 37 {
        if b.len() <= 2 {
            None
        } else {
            match (hex_value(b[1]), hex_value(b[2])) {
                (Some(high), Some(low)) => prepend_bytes(
                    seq![(high * 16 + low) as u8],
                    url_decode_bytes(b.subrange(3, b.len() as int)),
                ),
                _ => None,
            }
        }
    } else {
        prepend_bytes(seq![b[0]], url_decode_bytes(b.drop_first()))
    }
}

/// A decoded component: the decoded bytes read as UTF-8.
pub open spec fn decode_component(b: Seq<u8>) -> Option<Seq<char>> {
    match url_decode_bytes(b) {
        Some(d) => if valid_utf8(d) {
            Some(decode_utf8(d))
        } else {
            None
        },
        None => None,
    }
}

pub open spec fn url_decode_spec(s: Seq<char>) -> Option<Seq<char>> {
    decode_component(encode_utf8(s))
}

fn hex_upper(n: u8) -> (c: char)
    requires
        n < 16,
    ensures
        c == hex_upper_digit(n),
{
    if n < 10 {
        (48u8 + n) as char
    } else {
        (65u8 + n - 10) as char
    }
}

/// Form-encodes `value`.
pub fn urlencoding(value: &str) -> (out: String)
    ensures
        out@ == url_encode_spec(value@),
{
    let bytes = value.as_bytes();
    let mut out = String::new();
    let mut i: usize = 0;
    while i < bytes.len()
        invariant
            i <= bytes@.len(),
            bytes@ == encode_utf8(value@),
            out@ == url_encode_bytes(bytes@.subrange(0, i as int)),
        decreases bytes@.len() - i,
    {
        let byte = bytes[i];
        let ghost prefix = bytes@.subrange(0, i + 1);
        assert(prefix.drop_last() =~= bytes@.subrange(0, i as int));
        assert(prefix.last() == byte);
        if (65u8 <= byte && byte <= 90u8) || (97u8 <= byte && byte <= 122u8) || (48u8 <= byte && byte
            <= 57u8) || byte == 45u8 || byte == 95u8 || byte == 46u8 || byte == 126u8 {
            out.push(byte as char);
        } else if byte == 32u8 {
            out.push('+');
        } else {
            out.push('%');
            out.push(hex_upper(byte / 16));
            out.push(hex_upper(byte % 16));
        }
        assert(out@ =~= url_encode_bytes(prefix));
        i = i + 1;
    }
    assert(bytes@.subrange(0, bytes@.len() as int) =~= bytes@);
    out
}

/// The value of a hexadecimal digit byte of either case.
pub fn decode_hex(value: u8) -> (r: Option<u8>)
    ensures
        r == hex_value(value),
{
    if 48u8 <= value && value <= 57u8 {
        Some(value - 48u8)
    } else if 97u8 <= value && value <= 102u8 {
        Some(value - 97u8 + 10)
    } else if 65u8 <= value && value <= 70u8 {
        Some(value - 65u8 + 10)
    } else {
        None
    }
}

/// Form-decodes a byte slice and reads the result as UTF-8.
pub fn url_decode_slice(bytes: &[u8]) -> (r: Option<String>)
    ensures
        match r {
            Some(s) => decode_component(bytes@) == Some(s@),
            None => decode_component(bytes@) is None,
        },
{
    let mut out: Vec<u8> = Vec::new();
    let mut index: usize = 0;
    assert(bytes@.subrange(0, bytes@.len() as int) =~= bytes@);
    while index < bytes.len()
        invariant
            index <= bytes@.len(),
            url_decode_bytes(bytes@) == prepend_bytes(
                out@,
                url_decode_bytes(bytes@.subrange(index as int, bytes@.len() as int)),
            ),
        decreases bytes@.len() - index,
    {
        let ghost rest = bytes@.subrange(index as int, bytes@.len() as int);
        assert(rest[0] == bytes@[index as int]);
        let byte = bytes[index];
        if byte == 43u8 {
            assert(rest.drop_first() =~= bytes@.subrange(index + 1, bytes@.len() as int));
            out.push(32u8);
            index = index + 1;
            assert(url_decode_bytes(bytes@) == prepend_bytes(
                out@,
                url_decode_bytes(bytes@.subrange(index as int, bytes@.len() as int)),
            )) by {
                match url_decode_bytes(rest.drop_first()) {
                    Some(t) => {
                        assert(out@ =~= out@.drop_last() + seq![32u8]);
                        assert(out@.drop_last() + (seq![32u8] + t) =~= out@ + t);
                    },
                    None => {},
                }
            }
        } else if byte == 37u8 {
            if bytes.len() - index <= 2 {
                return None;
            }
            assert(rest[1] == bytes@[index + 1]);
            assert(rest[2] == bytes@[index + 2]);
            let high = match decode_hex(bytes[index + 1]) {
                Some(high) => high,
                None => return None,
            };
            let low = match decode_hex(bytes[index + 2]) {
                Some(low) => low,
                None => return None,
            };
            assert(rest.subrange(3, rest.len() as int) =~= bytes@.subrange(
                index + 3,
                bytes@.len() as int,
            ));
            out.push(high * 16 + low);
            index = index + 3;
            assert(url_decode_bytes(bytes@) == prepend_bytes(
                out@,
                url_decode_bytes(bytes@.subrange(index as int, bytes@.len() as int)),
            )) by {
                match url_decode_bytes(rest.subrange(3, rest.len() as int)) {
                    Some(t) => {
                        let d = (high * 16 + low) as u8;
                        assert(out@ =~= out@.drop_last() + seq![d]);
                        assert(out@.drop_last() + (seq![d] + t) =~= out@ + t);
                    },
                    None => {},
                }
            }
        } else {
            assert(rest.drop_first() =~= bytes@.subrange(index + 1, bytes@.len() as int));
            out.push(byte);
            index = index + 1;
            assert(url_decode_bytes(bytes@) == prepend_bytes(
                out@,
                url_decode_bytes(bytes@.subrange(index as int, bytes@.len() as int)),
            )) by {
                match url_decode_bytes(rest.drop_first()) {
                    Some(t) => {
                        assert(out@ =~= out@.drop_last() + seq![byte]);
                        assert(out@.drop_last() + (seq![byte] + t) =~= out@ + t);
                    },
                    None => {},
                }
            }
        }
    }
    assert(bytes@.subrange(index as int, bytes@.len() as int) =~= Seq::<u8>::empty());
    assert(out@ + Seq::<u8>::empty() =~= out@);
    string_from_utf8(out)
}

/// Form-decodes `value`; malformed escapes and non-UTF-8 results are invalid
/// input.
pub fn urldecoding(value: &str) -> (r: Result<String, PublicError>)
    ensures
        match r {
            Ok(s) => url_decode_spec(value@) == Some(s@),
            Err(e) => e == PublicError::InvalidInput && url_decode_spec(value@) is None,
        },
{
    match url_decode_slice(value.as_bytes()) {
        Some(s) => Ok(s),
        None => Err(PublicError::InvalidInput),
    }
}

pub open spec fn ascii_bytes(chars: Seq<char>) -> Seq<u8> {
    Seq::new(chars.len(), |i: int| chars[i] as u8)
}

proof fn lemma_encode_byte_ascii(b: u8)
    ensures
        is_ascii_chars(encode_byte(b)),
{
}

proof fn lemma_encode_front(b: Seq<u8>)
    requires
        b.len() > 0,
    ensures
        url_encode_bytes(b) == encode_byte(b[0]) + url_encode_bytes(b.drop_first()),
    decreases b.len(),
{
    if b.len() == 1 {
        assert(b.drop_last() =~= Seq::<u8>::empty());
        assert(b.drop_first() =~= Seq::<u8>::empty());
        assert(url_encode_bytes(b.drop_first()) =~= Seq::<char>::empty());
        assert(url_encode_bytes(b) =~= encode_byte(b[0]));
    } else {
        lemma_encode_front(b.drop_last());
        assert(b.drop_last().drop_first() =~= b.drop_first().drop_last());
        assert(b.drop_first().last() == b.last());
        assert(b.drop_last()[0] == b[0]);
        assert(url_encode_bytes(b) =~= encode_byte(b[0]) + url_encode_bytes(b.drop_first()));
    }
}

pub proof fn lemma_encoded_is_ascii(b: Seq<u8>)
    ensures
        is_ascii_chars(url_encode_bytes(b)),
    decreases b.len(),
{
    if b.len() > 0 {
        lemma_encoded_is_ascii(b.drop_last());
        lemma_encode_byte_ascii(b.last());
        let e = url_encode_bytes(b);
        let l = url_encode_bytes(b.drop_last());
        let r = encode_byte(b.last());
        assert forall|i: int| 0 <= i < e.len() implies '\0' <= #[trigger] e[i] <= '\u{7f}' by {
            if i < l.len() {
                assert(e[i] == l[i]);
            } else {
                assert(e[i] == r[i - l.len()]);
            }
        }
    }
}

proof fn lemma_hex_round_trip(n: u8)
    requires
        n < 16,
    ensures
        hex_value(hex_upper_digit(n) as u8) == Some(n),
{
}

proof fn lemma_decode_encoded(b: Seq<u8>)
    ensures
        url_decode_bytes(ascii_bytes(url_encode_bytes(b))) == Some(b),
    decreases b.len(),
{
    if b.len() == 0 {
        assert(ascii_bytes(url_encode_bytes(b)) =~= Seq::<u8>::empty());
        assert(b =~= Seq::<u8>::empty());
    } else {
        lemma_encode_front(b);
        let head = encode_byte(b[0]);
        let tail = url_encode_bytes(b.drop_first());
        let all = ascii_bytes(head + tail);
        assert(ascii_bytes(url_encode_bytes(b)) == all);
        lemma_decode_encoded(b.drop_first());
        let x = b[0];
        if is_unreserved(x) {
            assert(all[0] == x);
            assert(all.drop_first() =~= ascii_bytes(tail));
            assert(seq![x] + b.drop_first() =~= b);
        } else if x == 32 {
            assert(all[0] == 43);
            assert(all.drop_first() =~= ascii_bytes(tail));
            assert(seq![32u8] + b.drop_first() =~= b);
        } else {
            lemma_hex_round_trip(x / 16);
            lemma_hex_round_trip(x % 16);
            assert(all[0] == 37);
            assert(all[1] == hex_upper_digit(x / 16) as u8);
            assert(all[2] == hex_upper_digit(x % 16) as u8);
            assert(all.subrange(3, all.len() as int) =~= ascii_bytes(tail));
            assert(((x / 16) * 16 + x % 16) as u8 == x);
            assert(seq![x] + b.drop_first() =~= b);
        }
    }
}

/// Law: decoding the form encoding of any string gives the string back.
pub proof fn lemma_url_coding_round_trip(s: Seq<char>)
    ensures
        url_decode_spec(url_encode_spec(s)) == Some(s),
{
    let e = url_encode_spec(s);
    lemma_encoded_is_ascii(encode_utf8(s));
    vstd::utf8::is_ascii_chars_encode_utf8(e);
    assert(encode_utf8(e) =~= ascii_bytes(e));
    lemma_decode_encoded(encode_utf8(s));
}

/// Whether a character is copied through the form encoding unchanged.
pub open spec fn unreserved_char(c: char) -> bool {
    ('A' <= c <= 'Z') || ('a' <= c <= 'z') || ('0' <= c <= '9') || c == '-' || c == '_' || c
        == '.' || c == '~'
}

/// Whether every character is copied through the form encoding unchanged.
pub open spec fn unreserved_text(s: Seq<char>) -> bool {
    forall|i: int| 0 <= i < s.len() ==> unreserved_char(#[trigger] s[i])
}

/// The UTF-8 bytes of an ASCII text are its characters' codes.
pub proof fn lemma_ascii_encode_utf8(s: Seq<char>)
    requires
        is_ascii_chars(s),
    ensures
        encode_utf8(s) == ascii_bytes(s),
{
    vstd::utf8::is_ascii_chars_encode_utf8(s);
    assert(encode_utf8(s) =~= ascii_bytes(s));
}

proof fn lemma_unreserved_char_byte(c: char)
    requires
        unreserved_char(c),
    ensures
        is_unreserved(c as u8),
        (c as u8) as char == c,
{
    let n = c as u32;
    assert(n < 128);
    assert((n as u8) as u32 == n);
}

proof fn lemma_unreserved_bytes_encode(s: Seq<char>)
    requires
        unreserved_text(s),
    ensures
        url_encode_bytes(ascii_bytes(s)) == s,
    decreases s.len(),
{
    if s.len() > 0 {
        let b = ascii_bytes(s);
        assert(b.drop_last() =~= ascii_bytes(s.drop_last()));
        lemma_unreserved_bytes_encode(s.drop_last());
        let c = s.last();
        lemma_unreserved_char_byte(c);
        assert(b.last() == c as u8);
        assert(s =~= s.drop_last() + seq![c]);
    } else {
        assert(ascii_bytes(s) =~= Seq::<u8>::empty());
        assert(s =~= Seq::<char>::empty());
    }
}

/// Unreserved text is its own form encoding.
pub proof fn lemma_unreserved_encodes_to_itself(s: Seq<char>)
    requires
        unreserved_text(s),
    ensures
        url_encode_spec(s) == s,
        is_ascii_chars(s),
{
    assert forall|i: int| 0 <= i < s.len() implies '\0' <= #[trigger] s[i] <= '\u{7f}' by {
        assert(unreserved_char(s[i]));
    }
    lemma_ascii_encode_utf8(s);
    lemma_unreserved_bytes_encode(s);
}

/// The form encoding never produces `&` or `=`.
pub proof fn lemma_encoded_has_no_separators(b: Seq<u8>)
    ensures
        forall|i: int|
            0 <= i < url_encode_bytes(b).len() ==> #[trigger] url_encode_bytes(b)[i] != '&'
                && url_encode_bytes(b)[i] != '=',
    decreases b.len(),
{
    if b.len() > 0 {
        lemma_encoded_has_no_separators(b.drop_last());
        let l = url_encode_bytes(b.drop_last());
        let r = encode_byte(b.last());
        let e = url_encode_bytes(b);
        assert forall|i: int| 0 <= i < e.len() implies #[trigger] e[i] != '&' && e[i] != '=' by {
            if i < l.len() {
                assert(e[i] == l[i]);
            } else {
                assert(e[i] == r[i - l.len()]);
            }
        }
    }
}

} // verus!
