//! Byte and text helpers shared by the parsers: UTF-8 decoding, owned-string
//! construction and secret wiping.

use vstd::prelude::*;
use vstd::std_specs::iter::IteratorSpec;
use vstd::utf8::{decode_utf8, valid_utf8};
use zeroize::Zeroize;

verus! {

/// `String::push` appends one character.
pub assume_specification[ std::string::String::push ](s: &mut std::string::String, ch: char)
    ensures
        final(s)@ == old(s)@.push(ch),
;

/// Calls `String::from_utf8`. The standard library documents that it
/// succeeds exactly on valid UTF-8 and yields the string those bytes encode.
#[verifier::external_body]
pub(crate) fn string_from_utf8(bytes: Vec<u8>) -> (r: Option<String>)
    ensures
        r is Some <==> valid_utf8(bytes@),
        r matches Some(s) ==> s@ == decode_utf8(bytes@),
{
    String::from_utf8(bytes).ok()
}

/// Calls `zeroize::Zeroize::zeroize` on a `String`: the crate overwrites the
/// contents with zeros and then clears the string, so it ends empty.
#[verifier::external_body]
pub(crate) fn zeroize_string(s: &mut String)
    ensures
        final(s)@ == Seq::<char>::empty(),
{
    s.zeroize();
}

/// Calls `zeroize::Zeroize::zeroize` on a byte vector: the crate overwrites the
/// elements and spare capacity with zeros and then clears the vector.
#[verifier::external_body]
pub(crate) fn zeroize_bytes(v: &mut Vec<u8>)
    ensures
        final(v)@ == Seq::<u8>::empty(),
{
    v.zeroize();
}

pub fn owned_string(s: &str) -> (r: String)
    ensures
        r@ == s@,
{
    s.to_owned()
}

pub fn string_eq_str(a: &String, b: &str) -> (r: bool)
    ensures
        r == (a@ == b@),
{
    let b_owned = owned_string(b);
    *a == b_owned
}

pub fn copy_bytes(bytes: &[u8]) -> (r: Vec<u8>)
    ensures
        r@ == bytes@,
{
    let mut out: Vec<u8> = Vec::new();
    let mut i: usize = 0;
    while i < bytes.len()
        invariant
            i <= bytes@.len(),
            out@ == bytes@.subrange(0, i as int),
        decreases bytes@.len() - i,
    {
        out.push(bytes[i]);
        i = i + 1;
        assert(out@ =~= bytes@.subrange(0, i as int));
    }
    assert(bytes@.subrange(0, bytes@.len() as int) =~= bytes@);
    out
}

/// The characters of `s`, in order.
pub fn chars_of(s: &str) -> (v: Vec<char>)
    ensures
        v@ == s@,
{
    broadcast use vstd::string::group_string_axioms;

    let mut it = s.chars();
    let mut v: Vec<char> = Vec::new();
    assert(v@ + it.remaining() =~= s@);
    loop
        invariant
            v@ + it.remaining() == s@,
        decreases s@.len() - v@.len(),
    {
        let ghost before = it.remaining();
        match it.next() {
            Some(c) => {
                v.push(c);
                assert(v@ + it.remaining() =~= s@) by {
                    assert(before == seq![c] + before.drop_first());
                }
            },
            None => {
                assert(v@ + Seq::<char>::empty() =~= v@);
                return v;
            },
        }
    }
}

/// A string holding `chars`.
pub fn string_of(chars: &[char]) -> (s: String)
    ensures
        s@ == chars@,
{
    let mut s = String::new();
    let mut i: usize = 0;
    while i < chars.len()
        invariant
            i <= chars@.len(),
            s@ == chars@.take(i as int),
        decreases chars@.len() - i,
    {
        s.push(chars[i]);
        i = i + 1;
        assert(s@ =~= chars@.take(i as int));
    }
    assert(chars@.take(chars@.len() as int) =~= chars@);
    s
}

/// Index of the first `x` in `b`, or `b.len()` when there is none.
pub open spec fn first_index_of<T>(b: Seq<T>, x: T) -> nat
    decreases b.len(),
{
    if b.len() == 0 {
        0
    } else if b[0] == x {
        0
    } else {
        1 + first_index_of(b.drop_first(), x)
    }
}

pub proof fn lemma_first_index_of<T>(b: Seq<T>, x: T, j: int)
    requires
        0 <= j <= b.len(),
        forall|k: int| 0 <= k < j ==> b[k] != x,
        j < b.len() ==> b[j] == x,
    ensures
        first_index_of(b, x) == j,
    decreases j,
{
    if j > 0 {
        lemma_first_index_of(b.drop_first(), x, j - 1);
    }
}

/// `char::is_whitespace`: the Unicode `White_Space` property.
pub open spec fn is_unicode_whitespace(c: char) -> bool {
    let n = c as u32;
    (9 <= n <= 13) || n == 32 || n == 0x85 || n == 0xa0 || n == 0x1680 || (0x2000 <= n <= 0x200a)
        || n == 0x2028 || n == 0x2029 || n == 0x202f || n == 0x205f || n == 0x3000
}

pub fn is_whitespace_char(c: char) -> (r: bool)
    ensures
        r == is_unicode_whitespace(c),
{
    let n = c as u32;
    (9 <= n && n <= 13) || n == 32 || n == 0x85 || n == 0xa0 || n == 0x1680 || (0x2000 <= n && n
        <= 0x200a) || n == 0x2028 || n == 0x2029 || n == 0x202f || n == 0x205f || n == 0x3000
}

pub open spec fn starts_with(s: Seq<char>, prefix: Seq<char>) -> bool {
    prefix.len() <= s.len() && s.take(prefix.len() as int) == prefix
}

pub fn chars_eq(a: &[char], b: &[char]) -> (r: bool)
    ensures
        r == (a@ == b@),
{
    if a.len() != b.len() {
        return false;
    }
    let mut i: usize = 0;
    while i < a.len()
        invariant
            i <= a@.len(),
            a@.len() == b@.len(),
            a@.take(i as int) == b@.take(i as int),
        decreases a@.len() - i,
    {
        if a[i] != b[i] {
            assert(a@[i as int] != b@[i as int]);
            return false;
        }
        i = i + 1;
        assert(a@.take(i as int) =~= b@.take(i as int)) by {
            assert(a@.take(i as int) =~= a@.take(i - 1).push(a@[i - 1]));
            assert(b@.take(i as int) =~= b@.take(i - 1).push(b@[i - 1]));
        }
    }
    assert(a@ =~= a@.take(i as int));
    assert(b@ =~= b@.take(i as int));
    true
}

pub fn chars_contain(a: &[char], c: char) -> (r: bool)
    ensures
        r == a@.contains(c),
{
    let mut i: usize = 0;
    while i < a.len()
        invariant
            i <= a@.len(),
            forall|k: int| 0 <= k < i ==> a@[k] != c,
        decreases a@.len() - i,
    {
        if a[i] == c {
            assert(a@[i as int] == c);
            return true;
        }
        i = i + 1;
    }
    false
}

pub fn find_char(chars: &[char], c: char) -> (j: usize)
    ensures
        j <= chars@.len(),
        j == first_index_of(chars@, c),
{
    let mut j: usize = 0;
    while j < chars.len()
        invariant
            j <= chars@.len(),
            forall|k: int| 0 <= k < j ==> chars@[k] != c,
        ensures
            j <= chars@.len(),
            forall|k: int| 0 <= k < j ==> chars@[k] != c,
            j < chars@.len() ==> chars@[j as int] == c,
        decreases chars@.len() - j,
    {
        if chars[j] == c {
            break;
        }
        j = j + 1;
    }
    proof {
        lemma_first_index_of(chars@, c, j as int);
    }
    j
}

/// A line without the carriage return that ended it.
pub open spec fn strip_line_end(line: Seq<char>) -> Seq<char> {
    if line.len() > 0 && line.last() == '\r' {
        line.drop_last()
    } else {
        line
    }
}

/// `str::lines`: the text split at each line feed, a carriage return before
/// the line feed dropped, and no empty line after a final line feed.
pub open spec fn text_lines(text: Seq<char>) -> Seq<Seq<char>>
    decreases text.len(),
{
    if text.len() == 0 {
        seq![]
    } else {
        let j = first_index_of(text, '\n');
        if j < text.len() {
            seq![strip_line_end(text.take(j as int))] + text_lines(text.skip(j + 1int))
        } else {
            seq![text]
        }
    }
}

/// The number of whitespace characters that a text starts with.
pub open spec fn leading_whitespace(s: Seq<char>) -> nat
    decreases s.len(),
{
    if s.len() > 0 && is_unicode_whitespace(s[0]) {
        1 + leading_whitespace(s.drop_first())
    } else {
        0
    }
}

/// `str::trim_start`.
pub open spec fn trim_start(s: Seq<char>) -> Seq<char> {
    s.skip(leading_whitespace(s) as int)
}

proof fn lemma_leading_whitespace(s: Seq<char>, k: int)
    requires
        0 <= k <= s.len(),
        forall|i: int| 0 <= i < k ==> is_unicode_whitespace(#[trigger] s[i]),
        k < s.len() ==> !is_unicode_whitespace(s[k]),
    ensures
        leading_whitespace(s) == k,
    decreases k,
{
    if k > 0 {
        assert forall|i: int| 0 <= i < k - 1 implies is_unicode_whitespace(
            #[trigger] s.drop_first()[i],
        ) by {
            assert(s.drop_first()[i] == s[i + 1]);
        }
        lemma_leading_whitespace(s.drop_first(), k - 1);
    }
}

/// The number of whitespace characters that `s` starts with.
pub fn leading_whitespace_len(s: &[char]) -> (k: usize)
    ensures
        k == leading_whitespace(s@),
        k <= s@.len(),
{
    let mut k: usize = 0;
    while k < s.len()
        invariant
            k <= s@.len(),
            forall|i: int| 0 <= i < k ==> is_unicode_whitespace(#[trigger] s@[i]),
        ensures
            k <= s@.len(),
            forall|i: int| 0 <= i < k ==> is_unicode_whitespace(#[trigger] s@[i]),
            k < s@.len() ==> !is_unicode_whitespace(s@[k as int]),
        decreases s@.len() - k,
    {
        if !is_whitespace_char(s[k]) {
            break;
        }
        k = k + 1;
    }
    proof {
        lemma_leading_whitespace(s@, k as int);
    }
    k
}

/// `str::contains` with a text pattern.
pub open spec fn contains_text(s: Seq<char>, pattern: Seq<char>) -> bool {
    exists|i: int|
        0 <= i && i + pattern.len() <= s.len() && #[trigger] s.subrange(i, i + pattern.len())
            == pattern
}

/// `str::ends_with` with a text pattern.
pub open spec fn ends_with_text(s: Seq<char>, pattern: Seq<char>) -> bool {
    pattern.len() <= s.len() && s.skip(s.len() - pattern.len()) == pattern
}

pub fn text_contains(s: &[char], pattern: &[char]) -> (r: bool)
    ensures
        r == contains_text(s@, pattern@),
{
    if pattern.len() > s.len() {
        return false;
    }
    let last = s.len() - pattern.len();
    let mut i: usize = 0;
    loop
        invariant
            pattern@.len() <= s@.len(),
            last == s@.len() - pattern@.len(),
            i <= last,
            s@.len() <= usize::MAX,
            forall|k: int|
                0 <= k < i ==> #[trigger] s@.subrange(k, k + pattern@.len()) != pattern@,
        decreases last - i,
    {
        let end = i + pattern.len();
        if chars_eq(&s[i..end], pattern) {
            return true;
        }
        if i == last {
            return false;
        }
        i = i + 1;
    }
}

pub fn text_ends_with(s: &[char], pattern: &[char]) -> (r: bool)
    ensures
        r == ends_with_text(s@, pattern@),
{
    if pattern.len() > s.len() {
        return false;
    }
    let r = chars_eq(&s[s.len() - pattern.len()..s.len()], pattern);
    assert(s@.subrange(s@.len() - pattern@.len(), s@.len() as int) =~= s@.skip(
        s@.len() - pattern@.len(),
    ));
    r
}

/// Appends the characters of `s` to `out`.
pub fn push_chars(out: &mut Vec<char>, s: &[char])
    ensures
        final(out)@ == old(out)@ + s@,
{
    let mut i: usize = 0;
    while i < s.len()
        invariant
            i <= s@.len(),
            out@ == old(out)@ + s@.take(i as int),
        decreases s@.len() - i,
    {
        out.push(s[i]);
        i = i + 1;
        assert(out@ =~= old(out)@ + s@.take(i as int));
    }
    assert(s@.take(s@.len() as int) =~= s@);
}

pub fn bytes_eq(a: &[u8], b: &[u8]) -> (r: bool)
    ensures
        r == (a@ == b@),
{
    if a.len() != b.len() {
        return false;
    }
    let mut i: usize = 0;
    while i < a.len()
        invariant
            i <= a@.len(),
            a@.len() == b@.len(),
            a@.take(i as int) == b@.take(i as int),
        decreases a@.len() - i,
    {
        if a[i] != b[i] {
            assert(a@[i as int] != b@[i as int]);
            return false;
        }
        i = i + 1;
        assert(a@.take(i as int) =~= b@.take(i as int)) by {
            assert(a@.take(i as int) =~= a@.take(i - 1).push(a@[i - 1]));
            assert(b@.take(i as int) =~= b@.take(i - 1).push(b@[i - 1]));
        }
    }
    assert(a@ =~= a@.take(i as int));
    assert(b@ =~= b@.take(i as int));
    true
}

} // verus!
