//! The OAuth authorization request and the loopback callback that answers it:
//! the authorization URL, query-string parsing and the decision on a
//! received callback request.

use vstd::prelude::*;
use vstd::utf8::{decode_utf8, encode_utf8, is_ascii_chars, valid_utf8};

use crate::openai_chatgpt::url_coding::{
    ascii_bytes, decode_component, lemma_ascii_encode_utf8, lemma_encoded_has_no_separators,
    lemma_encoded_is_ascii, lemma_unreserved_encodes_to_itself, lemma_url_coding_round_trip,
    unreserved_char, unreserved_text, url_decode_slice, url_decode_spec, url_encode_bytes,
    url_encode_spec, urlencoding,
};
use crate::openai_chatgpt::{AUTH_URL, CLIENT_ID, MAX_CALLBACK_REQUEST, MAX_CALLBACK_VALUE, SCOPES};
use crate::provider::PublicError;
use crate::text::{
    chars_contain, chars_eq, chars_of, copy_bytes, find_char, first_index_of, is_unicode_whitespace,
    is_whitespace_char, lemma_first_index_of, starts_with, string_eq_str, string_from_utf8, string_of,
};

verus! {

/// A parsed query string as its decoded `(key, value)` pairs in order of
/// appearance.
pub type QueryEntries = Seq<(Seq<char>, Seq<char>)>;

/// The `&`-separated parts of a query string, empty parts included.
pub open spec fn query_parts(b: Seq<u8>) -> Seq<Seq<u8>>
    decreases b.len(),
{
    let j = first_index_of(b, 38);
    if j >= b.len() {
        seq![b]
    } else {
        seq![b.take(j as int)] + query_parts(b.skip(j + 1int))
    }
}

/// The key of a query part: everything before its first `=`.
pub open spec fn part_key(part: Seq<u8>) -> Seq<u8> {
    part.take(first_index_of(part, 61) as int)
}

/// The value of a query part: everything after its first `=`, or nothing.
pub open spec fn part_value(part: Seq<u8>) -> Seq<u8> {
    let e = first_index_of(part, 61);
    if e < part.len() {
        part.skip(e + 1int)
    } else {
        seq![]
    }
}

/// The value stored under the first entry with `key`.
pub open spec fn lookup(entries: QueryEntries, key: Seq<char>) -> Option<Seq<char>>
    decreases entries.len(),
{
    if entries.len() == 0 {
        None
    } else if entries[0].0 == key {
        Some(entries[0].1)
    } else {
        lookup(entries.drop_first(), key)
    }
}

/// Adds one query part to the entries read so far: empty parts are skipped,
/// a part whose key or value does not decode, or whose key was already seen,
/// makes the whole query invalid.
pub open spec fn add_part(acc: QueryEntries, part: Seq<u8>) -> Option<QueryEntries> {
    if part.len() == 0 {
        Some(acc)
    } else {
        match (decode_component(part_key(part)), decode_component(part_value(part))) {
            (Some(k), Some(v)) => if lookup(acc, k) is Some {
                None
            } else {
                Some(acc.push((k, v)))
            },
            _ => None,
        }
    }
}

pub open spec fn add_parts(acc: QueryEntries, parts: Seq<Seq<u8>>) -> Option<QueryEntries>
    decreases parts.len(),
{
    if parts.len() == 0 {
        Some(acc)
    } else {
        match add_part(acc, parts[0]) {
            Some(next) => add_parts(next, parts.drop_first()),
            None => None,
        }
    }
}

/// The entries of a query string, or `None` when it is invalid.
pub open spec fn parse_query_spec(query: Seq<char>) -> Option<QueryEntries> {
    add_parts(seq![], query_parts(encode_utf8(query)))
}

/// Decoded query parameters.
#[derive(Debug, PartialEq, Eq)]
pub struct QueryParams {
    pairs: Vec<(String, String)>,
}

pub open spec fn entries_of(pairs: Seq<(String, String)>) -> QueryEntries {
    Seq::new(pairs.len(), |i: int| (pairs[i].0@, pairs[i].1@))
}

impl View for QueryParams {
    type V = QueryEntries;

    closed spec fn view(&self) -> QueryEntries {
        entries_of(self.pairs@)
    }
}

proof fn lemma_lookup_skip(entries: QueryEntries, key: Seq<char>, i: int)
    requires
        0 <= i < entries.len(),
        entries[i].0 != key,
    ensures
        lookup(entries.skip(i), key) == lookup(entries.skip(i + 1), key),
{
    assert(entries.skip(i).drop_first() =~= entries.skip(i + 1));
}

fn find_in(pairs: &Vec<(String, String)>, key: &String) -> (r: Option<usize>)
    ensures
        match r {
            Some(i) => i < pairs@.len() && lookup(entries_of(pairs@), key@) == Some(
                pairs@[i as int].1@,
            ),
            None => lookup(entries_of(pairs@), key@) is None,
        },
{
    let ghost entries = entries_of(pairs@);
    let mut i: usize = 0;
    assert(entries.skip(0) =~= entries);
    while i < pairs.len()
        invariant
            i <= pairs@.len(),
            entries == entries_of(pairs@),
            lookup(entries, key@) == lookup(entries.skip(i as int), key@),
        decreases pairs@.len() - i,
    {
        assert(entries.skip(i as int)[0] == entries[i as int]);
        if pairs[i].0 == *key {
            return Some(i);
        }
        proof {
            lemma_lookup_skip(entries, key@, i as int);
        }
        i = i + 1;
    }
    assert(entries.skip(i as int) =~= Seq::<(Seq<char>, Seq<char>)>::empty());
    None
}

impl QueryParams {
    /// The value of `key`.
    pub fn get(&self, key: &str) -> (r: Option<&String>)
        ensures
            match r {
                Some(v) => lookup(self@, key@) == Some(v@),
                None => lookup(self@, key@) is None,
            },
    {
        let owned = key.to_owned();
        match find_in(&self.pairs, &owned) {
            Some(i) => Some(&self.pairs[i].1),
            None => None,
        }
    }

    /// Whether `key` is present.
    pub fn contains_key(&self, key: &str) -> (r: bool)
        ensures
            r == lookup(self@, key@) is Some,
    {
        let owned = key.to_owned();
        find_in(&self.pairs, &owned).is_some()
    }

    /// The number of parameters.
    pub fn len(&self) -> (n: usize)
        ensures
            n == self@.len(),
    {
        self.pairs.len()
    }
}

/// Position of the first `x` at or after `from`, or the length when there is
/// none.
fn find_byte(bytes: &[u8], from: usize, x: u8) -> (j: usize)
    requires
        from <= bytes@.len(),
    ensures
        from <= j <= bytes@.len(),
        j - from == first_index_of(bytes@.subrange(from as int, bytes@.len() as int), x),
{
    let mut j = from;
    while j < bytes.len()
        invariant
            from <= j <= bytes@.len(),
            forall|k: int| from <= k < j ==> bytes@[k] != x,
        ensures
            from <= j <= bytes@.len(),
            forall|k: int| from <= k < j ==> bytes@[k] != x,
            j < bytes@.len() ==> bytes@[j as int] == x,
        decreases bytes@.len() - j,
    {
        if bytes[j] == x {
            break;
        }
        j = j + 1;
    }
    proof {
        lemma_first_index_of(bytes@.subrange(from as int, bytes@.len() as int), x, j - from);
    }
    j
}

fn add_query_pair(pairs: &mut Vec<(String, String)>, part: &[u8]) -> (ok: bool)
    ensures
        ok <==> add_part(entries_of(old(pairs)@), part@) is Some,
        ok ==> add_part(entries_of(old(pairs)@), part@) == Some(entries_of(final(pairs)@)),
{
    if part.len() == 0 {
        return true;
    }
    let e = find_byte(part, 0, 61u8);
    assert(part@.subrange(0, part@.len() as int) =~= part@);
    let key_bytes = &part[0..e];
    assert(key_bytes@ =~= part_key(part@));
    let key = match url_decode_slice(key_bytes) {
        Some(k) => k,
        None => return false,
    };
    let value_bytes = if e < part.len() {
        &part[e + 1..part.len()]
    } else {
        &part[e..e]
    };
    assert(value_bytes@ =~= part_value(part@));
    let value = match url_decode_slice(value_bytes) {
        Some(v) => v,
        None => return false,
    };
    if find_in(pairs, &key).is_some() {
        return false;
    }
    let ghost before = pairs@;
    pairs.push((key, value));
    assert(entries_of(pairs@) =~= entries_of(before).push((key@, value@)));
    true
}

/// Splits a query string on `&`, decodes each non-empty `key=value` pair and
/// rejects malformed escapes, non-UTF-8 components and repeated keys.
pub fn parse_query(query: &str) -> (r: Result<QueryParams, PublicError>)
    ensures
        match r {
            Ok(params) => parse_query_spec(query@) == Some(params@),
            Err(e) => e == PublicError::InvalidInput && parse_query_spec(query@) is None,
        },
{
    let bytes = query.as_bytes();
    let mut pairs: Vec<(String, String)> = Vec::new();
    let mut start: usize = 0;
    assert(bytes@.subrange(0, bytes@.len() as int) =~= bytes@);
    assert(entries_of(pairs@) =~= Seq::<(Seq<char>, Seq<char>)>::empty());
    loop
        invariant
            start <= bytes@.len(),
            bytes@ == encode_utf8(query@),
            parse_query_spec(query@) == add_parts(
                entries_of(pairs@),
                query_parts(bytes@.subrange(start as int, bytes@.len() as int)),
            ),
        decreases bytes@.len() - start,
    {
        let ghost rest = bytes@.subrange(start as int, bytes@.len() as int);
        let ghost acc = entries_of(pairs@);
        let j = find_byte(bytes, start, 38u8);
        let part = &bytes[start..j];
        assert(part@ =~= rest.take(j - start));
        let ok = add_query_pair(&mut pairs, part);
        if j == bytes.len() {
            assert(part@ =~= rest);
            assert(query_parts(rest) == seq![rest]);
            assert(seq![rest].drop_first() =~= Seq::<Seq<u8>>::empty());
            assert(seq![rest][0] == rest);
            assert(add_parts(entries_of(pairs@), Seq::<Seq<u8>>::empty()) == Some(
                entries_of(pairs@),
            ));
            if ok {
                return Ok(QueryParams { pairs });
            } else {
                return Err(PublicError::InvalidInput);
            }
        }
        let ghost tail = rest.skip(j - start + 1);
        assert(tail =~= bytes@.subrange(j + 1, bytes@.len() as int));
        assert(query_parts(rest) == seq![rest.take(j - start)] + query_parts(tail));
        assert((seq![rest.take(j - start)] + query_parts(tail))[0] == part@);
        assert((seq![rest.take(j - start)] + query_parts(tail)).drop_first() =~= query_parts(
            tail,
        ));
        if !ok {
            return Err(PublicError::InvalidInput);
        }
        start = j + 1;
    }
}

/// The authorization URL for a connect attempt: the fixed client, scopes and
/// flow flags, with the bound redirect URI, the PKCE challenge and the state
/// form-encoded.
pub open spec fn authorization_url_spec(
    redirect_uri: Seq<char>,
    challenge: Seq<char>,
    state: Seq<char>,
) -> Seq<char> {
    AUTH_URL@ + "?response_type=code&client_id="@ + url_encode_spec(CLIENT_ID@)
        + "&redirect_uri="@ + url_encode_spec(redirect_uri) + "&scope="@ + url_encode_spec(
        SCOPES@,
    ) + "&code_challenge="@ + url_encode_spec(challenge) + "&code_challenge_method=S256&state="@
        + url_encode_spec(state)
        + "&id_token_add_organizations=true&codex_cli_simplified_flow=true&originator=tule"@
}

pub fn build_authorization_url(redirect_uri: &str, challenge: &str, state: &str) -> (url: String)
    ensures
        url@ == authorization_url_spec(redirect_uri@, challenge@, state@),
{
    let mut url = String::new();
    url.append(AUTH_URL);
    url.append("?response_type=code&client_id=");
    url.append(urlencoding(CLIENT_ID).as_str());
    url.append("&redirect_uri=");
    url.append(urlencoding(redirect_uri).as_str());
    url.append("&scope=");
    url.append(urlencoding(SCOPES).as_str());
    url.append("&code_challenge=");
    url.append(urlencoding(challenge).as_str());
    url.append("&code_challenge_method=S256&state=");
    url.append(urlencoding(state).as_str());
    url.append("&id_token_add_organizations=true&codex_cli_simplified_flow=true&originator=tule");
    url
}

/// Whether text uses only the URL-safe base64 alphabet.
pub open spec fn base64url_text(s: Seq<char>) -> bool {
    forall|i: int|
        0 <= i < s.len() ==> ('A' <= #[trigger] s[i] <= 'Z' || 'a' <= s[i] <= 'z' || '0' <= s[i]
            <= '9' || s[i] == '-' || s[i] == '_')
}

/// The S256 PKCE challenge of a code verifier: the unpadded URL-safe base64
/// of the SHA-256 digest of its bytes, as `oauth2` computes it.
pub uninterp spec fn pkce_s256_challenge(verifier: Seq<char>) -> Seq<char>;

/// Calls `oauth2::PkceCodeChallenge::new_random_sha256`: a verifier of 32
/// random bytes, unpadded URL-safe base64 (43 characters), and its S256
/// challenge, likewise 43 characters. Returns (challenge, verifier); nothing
/// is promised of the random bytes.
#[verifier::external_body]
fn new_pkce_pair() -> (r: (String, String))
    ensures
        r.0@ == pkce_s256_challenge(r.1@),
        r.0@.len() == 43,
        r.1@.len() == 43,
        base64url_text(r.0@),
        base64url_text(r.1@),
{
    let (challenge, verifier) = oauth2::PkceCodeChallenge::new_random_sha256();
    (challenge.as_str().to_owned(), verifier.secret().to_owned())
}

/// Calls `oauth2::CsrfToken::new_random`: 16 random bytes, unpadded
/// URL-safe base64 (22 characters); nothing is promised of the bytes.
#[verifier::external_body]
fn new_csrf_state() -> (r: String)
    ensures
        r@.len() == 22,
        base64url_text(r@),
{
    oauth2::CsrfToken::new_random().secret().to_owned()
}

/// A browser authorization request: the URL to open, the PKCE verifier kept
/// for the code exchange and the state the callback must echo.
pub struct AuthorizationRequest {
    pub url: String,
    pub verifier: String,
    pub state: String,
}

/// Starts a browser connect: a fresh PKCE pair and CSRF state, and the
/// authorization URL bound to `redirect_uri` that carries the verifier's
/// challenge and the state.
pub fn begin_authorization(redirect_uri: &str) -> (r: AuthorizationRequest)
    ensures
        r.url@ == authorization_url_spec(redirect_uri@, pkce_s256_challenge(r.verifier@), r.state@),
        r.verifier@.len() == 43,
        base64url_text(r.verifier@),
        r.state@.len() == 22,
        base64url_text(r.state@),
{
    let (challenge, verifier) = new_pkce_pair();
    let state = new_csrf_state();
    let url = build_authorization_url(redirect_uri, challenge.as_str(), state.as_str());
    AuthorizationRequest { url, verifier, state }
}

/// One `key=value` part of a query, the value form-encoded.
pub open spec fn query_pair_text(key: Seq<char>, value: Seq<char>) -> Seq<char> {
    key + seq!['='] + url_encode_spec(value)
}

/// The query string of a sequence of pairs: their parts joined by `&`.
pub open spec fn query_text(pairs: QueryEntries) -> Seq<char>
    decreases pairs.len(),
{
    if pairs.len() == 0 {
        seq![]
    } else if pairs.len() == 1 {
        query_pair_text(pairs[0].0, pairs[0].1)
    } else {
        query_pair_text(pairs[0].0, pairs[0].1) + seq!['&'] + query_text(pairs.drop_first())
    }
}

/// Keys that survive a query round trip: non-empty, unreserved, distinct.
pub open spec fn query_keys_ok(pairs: QueryEntries) -> bool {
    &&& forall|i: int|
        0 <= i < pairs.len() ==> (#[trigger] pairs[i]).0.len() > 0 && unreserved_text(pairs[i].0)
    &&& forall|i: int, j: int|
        0 <= i < j < pairs.len() ==> (#[trigger] pairs[i]).0 != (#[trigger] pairs[j]).0
}

proof fn lemma_lookup_push(acc: QueryEntries, x: (Seq<char>, Seq<char>), key: Seq<char>)
    requires
        lookup(acc, key) is None,
        x.0 != key,
    ensures
        lookup(acc.push(x), key) is None,
    decreases acc.len(),
{
    if acc.len() > 0 {
        assert(acc.push(x)[0] == acc[0]);
        assert(acc[0].0 != key);
        assert(acc.push(x).drop_first() =~= acc.drop_first().push(x));
        lemma_lookup_push(acc.drop_first(), x, key);
    } else {
        assert(acc.push(x)[0] == x);
        assert(acc.push(x).drop_first() =~= Seq::<(Seq<char>, Seq<char>)>::empty());
        assert(lookup(acc.push(x).drop_first(), key) is None);
    }
}

proof fn lemma_no_byte<T>(b: Seq<T>, x: T)
    requires
        forall|i: int| 0 <= i < b.len() ==> b[i] != x,
    ensures
        first_index_of(b, x) == b.len(),
{
    lemma_first_index_of(b, x, b.len() as int);
}

/// The bytes of one part: ASCII, without `&`, its key ending at the first `=`,
/// and both halves decoding to the pair.
proof fn lemma_pair_part(key: Seq<char>, value: Seq<char>)
    requires
        key.len() > 0,
        unreserved_text(key),
    ensures
        is_ascii_chars(query_pair_text(key, value)),
        ({
            let p = ascii_bytes(query_pair_text(key, value));
            &&& p.len() > 0
            &&& forall|i: int| 0 <= i < p.len() ==> p[i] != 38u8
            &&& decode_component(part_key(p)) == Some(key)
            &&& decode_component(part_value(p)) == Some(value)
        }),
{
    let e = url_encode_spec(value);
    let t = query_pair_text(key, value);
    lemma_unreserved_encodes_to_itself(key);
    lemma_encoded_is_ascii(encode_utf8(value));
    lemma_encoded_has_no_separators(encode_utf8(value));
    assert(is_ascii_chars(t)) by {
        assert forall|i: int| 0 <= i < t.len() implies '\0' <= #[trigger] t[i] <= '\u{7f}' by {
            if i < key.len() {
                assert(t[i] == key[i]);
            } else if i > key.len() {
                assert(t[i] == e[i - key.len() - 1]);
            }
        }
    }
    let p = ascii_bytes(t);
    let kb = ascii_bytes(key);
    let eb = ascii_bytes(e);
    assert(p =~= kb + seq![61u8] + eb);
    assert forall|i: int| 0 <= i < p.len() implies p[i] != 38u8 by {
        if i < key.len() {
            assert(unreserved_char(key[i]));
        } else if i > key.len() {
            assert(t[i] == e[i - key.len() - 1]);
            assert(e[i - key.len() - 1] != '&');
        }
    }
    assert forall|i: int| 0 <= i < key.len() implies p[i] != 61u8 by {
        assert(unreserved_char(key[i]));
    }
    lemma_first_index_of(p, 61u8, key.len() as int);
    assert(part_key(p) =~= kb);
    assert(part_value(p) =~= eb);
    lemma_ascii_encode_utf8(key);
    lemma_url_coding_round_trip(key);
    assert(is_ascii_chars(e)) by {
        assert forall|i: int| 0 <= i < e.len() implies '\0' <= #[trigger] e[i] <= '\u{7f}' by {
            assert(t[i + key.len() + 1] == e[i]);
        }
    }
    lemma_ascii_encode_utf8(e);
    lemma_url_coding_round_trip(value);
}

proof fn lemma_query_text_ascii(pairs: QueryEntries)
    requires
        query_keys_ok(pairs),
    ensures
        is_ascii_chars(query_text(pairs)),
    decreases pairs.len(),
{
    if pairs.len() == 1 {
        lemma_pair_part(pairs[0].0, pairs[0].1);
    } else if pairs.len() > 1 {
        let rest = pairs.drop_first();
        assert(query_keys_ok(rest)) by {
            assert forall|i: int, j: int| 0 <= i < j < rest.len() implies (#[trigger] rest[i]).0
                != (#[trigger] rest[j]).0 by {
                assert(rest[i] == pairs[i + 1] && rest[j] == pairs[j + 1]);
            }
            assert forall|i: int| 0 <= i < rest.len() implies (#[trigger] rest[i]).0.len() > 0
                && unreserved_text(rest[i].0) by {
                assert(rest[i] == pairs[i + 1]);
            }
        }
        lemma_query_text_ascii(rest);
        lemma_pair_part(pairs[0].0, pairs[0].1);
        let a = query_pair_text(pairs[0].0, pairs[0].1);
        let t = query_text(pairs);
        let r = query_text(rest);
        assert(t == a + seq!['&'] + r);
        assert forall|i: int| 0 <= i < t.len() implies '\0' <= #[trigger] t[i] <= '\u{7f}' by {
            if i < a.len() {
                assert(t[i] == a[i]);
            } else if i > a.len() {
                assert(t[i] == r[i - a.len() - 1]);
            }
        }
    }
}

proof fn lemma_parse_query_text(acc: QueryEntries, pairs: QueryEntries)
    requires
        pairs.len() > 0,
        query_keys_ok(pairs),
        forall|i: int| 0 <= i < pairs.len() ==> lookup(acc, (#[trigger] pairs[i]).0) is None,
    ensures
        add_parts(acc, query_parts(ascii_bytes(query_text(pairs)))) == Some(acc + pairs),
    decreases pairs.len(),
{
    let k0 = pairs[0].0;
    let v0 = pairs[0].1;
    lemma_pair_part(k0, v0);
    let p0 = ascii_bytes(query_pair_text(k0, v0));
    let acc1 = acc.push((k0, v0));
    assert(lookup(acc, pairs[0].0) is None);
    assert(add_part(acc, p0) == Some(acc1));
    if pairs.len() == 1 {
        assert(query_text(pairs) == query_pair_text(k0, v0));
        lemma_no_byte(p0, 38u8);
        assert(query_parts(p0) =~= seq![p0]);
        assert(seq![p0][0] == p0);
        assert(seq![p0].drop_first() =~= Seq::<Seq<u8>>::empty());
        assert(add_parts(acc1, Seq::<Seq<u8>>::empty()) == Some(acc1));
        assert(add_parts(acc, seq![p0]) == add_parts(acc1, seq![p0].drop_first()));
        assert(acc + pairs =~= acc1);
    } else {
        let rest = pairs.drop_first();
        assert(query_keys_ok(rest)) by {
            assert forall|i: int, j: int| 0 <= i < j < rest.len() implies (#[trigger] rest[i]).0
                != (#[trigger] rest[j]).0 by {
                assert(rest[i] == pairs[i + 1] && rest[j] == pairs[j + 1]);
            }
            assert forall|i: int| 0 <= i < rest.len() implies (#[trigger] rest[i]).0.len() > 0
                && unreserved_text(rest[i].0) by {
                assert(rest[i] == pairs[i + 1]);
            }
        }
        assert forall|i: int| 0 <= i < rest.len() implies lookup(acc1, (#[trigger] rest[i]).0)
            is None by {
            assert(rest[i] == pairs[i + 1]);
            assert(lookup(acc, pairs[i + 1].0) is None);
            assert(pairs[0].0 != pairs[i + 1].0);
            lemma_lookup_push(acc, (k0, v0), rest[i].0);
        }
        lemma_query_text_ascii(rest);
        let r = ascii_bytes(query_text(rest));
        let b = ascii_bytes(query_text(pairs));
        assert(query_text(pairs) == query_pair_text(k0, v0) + seq!['&'] + query_text(rest));
        assert(b =~= p0 + seq![38u8] + r);
        assert forall|i: int| 0 <= i < p0.len() implies b[i] != 38u8 by {
            assert(b[i] == p0[i]);
        }
        lemma_first_index_of(b, 38u8, p0.len() as int);
        assert(b.skip(p0.len() + 1int) =~= r);
        assert(b.take(p0.len() as int) =~= p0);
        let parts = query_parts(b);
        assert(parts == seq![p0] + query_parts(r));
        assert(parts[0] == p0);
        assert(parts.drop_first() =~= query_parts(r));
        lemma_parse_query_text(acc1, rest);
        assert(add_parts(acc, parts) == add_parts(acc1, parts.drop_first()));
        assert(acc1 + rest =~= acc + pairs);
    }
}

/// Law: a query made of non-empty, unreserved, distinct keys and any
/// values, each value form-encoded, parses back to exactly its pairs in
/// order.
pub proof fn lemma_query_round_trip(pairs: QueryEntries)
    requires
        pairs.len() > 0,
        query_keys_ok(pairs),
    ensures
        parse_query_spec(query_text(pairs)) == Some(pairs),
{
    lemma_query_text_ascii(pairs);
    lemma_ascii_encode_utf8(query_text(pairs));
    lemma_parse_query_text(seq![], pairs);
    assert(Seq::<(Seq<char>, Seq<char>)>::empty() + pairs =~= pairs);
}

/// The pairs an authorization URL carries, in order.
pub open spec fn authorization_pairs(
    redirect_uri: Seq<char>,
    challenge: Seq<char>,
    state: Seq<char>,
) -> QueryEntries {
    seq![
        ("response_type"@, "code"@),
        ("client_id"@, CLIENT_ID@),
        ("redirect_uri"@, redirect_uri),
        ("scope"@, SCOPES@),
        ("code_challenge"@, challenge),
        ("code_challenge_method"@, "S256"@),
        ("state"@, state),
        ("id_token_add_organizations"@, "true"@),
        ("codex_cli_simplified_flow"@, "true"@),
        ("originator"@, "tule"@),
    ]
}

proof fn lemma_authorization_keys_ok(redirect_uri: Seq<char>, challenge: Seq<char>, state: Seq<char>)
    ensures
        query_keys_ok(authorization_pairs(redirect_uri, challenge, state)),
{
    reveal_strlit("response_type");
    reveal_strlit("client_id");
    reveal_strlit("redirect_uri");
    reveal_strlit("scope");
    reveal_strlit("code_challenge");
    reveal_strlit("code_challenge_method");
    reveal_strlit("state");
    reveal_strlit("id_token_add_organizations");
    reveal_strlit("codex_cli_simplified_flow");
    reveal_strlit("originator");
    let pairs = authorization_pairs(redirect_uri, challenge, state);
    assert forall|i: int| 0 <= i < pairs.len() implies (#[trigger] pairs[i]).0.len() > 0
        && unreserved_text(pairs[i].0) by {
        let k = pairs[i].0;
        assert forall|j: int| 0 <= j < k.len() implies unreserved_char(#[trigger] k[j]) by {}
    }
    assert forall|i: int, j: int| 0 <= i < j < pairs.len() implies (#[trigger] pairs[i]).0
        != (#[trigger] pairs[j]).0 by {
        if pairs[i].0.len() == pairs[j].0.len() {
            assert(pairs[i].0[1] != pairs[j].0[1]);
        }
    }
}

proof fn lemma_fixed_values_encode()
    ensures
        url_encode_spec("code"@) == "code"@,
        url_encode_spec("S256"@) == "S256"@,
        url_encode_spec("true"@) == "true"@,
        url_encode_spec("tule"@) == "tule"@,
{
    reveal_strlit("code");
    reveal_strlit("S256");
    reveal_strlit("true");
    reveal_strlit("tule");
    assert(unreserved_text("code"@));
    assert(unreserved_text("S256"@));
    assert(unreserved_text("true"@));
    assert(unreserved_text("tule"@));
    lemma_unreserved_encodes_to_itself("code"@);
    lemma_unreserved_encodes_to_itself("S256"@);
    lemma_unreserved_encodes_to_itself("true"@);
    lemma_unreserved_encodes_to_itself("tule"@);
}

proof fn lemma_query_text_cons(pairs: QueryEntries)
    requires
        pairs.len() >= 2,
    ensures
        query_text(pairs) == query_pair_text(pairs[0].0, pairs[0].1) + seq!['&'] + query_text(
            pairs.drop_first(),
        ),
{
}

proof fn lemma_query_text_step(sep: char, pairs: QueryEntries, w: Seq<char>)
    requires
        pairs.len() >= 2,
        seq!['&'] + query_text(pairs.drop_first()) == w,
    ensures
        seq![sep] + query_text(pairs) == (seq![sep] + pairs[0].0 + seq!['=']) + url_encode_spec(
            pairs[0].1,
        ) + w,
{
    lemma_query_text_cons(pairs);
    let k = pairs[0].0;
    let e = url_encode_spec(pairs[0].1);
    let r = query_text(pairs.drop_first());
    assert(seq![sep] + query_text(pairs) =~= (seq![sep] + k + seq!['=']) + e + (seq!['&'] + r));
}

proof fn lemma_query_text_last(sep: char, pairs: QueryEntries)
    requires
        pairs.len() == 1,
    ensures
        seq![sep] + query_text(pairs) == (seq![sep] + pairs[0].0 + seq!['=']) + url_encode_spec(
            pairs[0].1,
        ),
{
    assert(seq![sep] + query_text(pairs) =~= (seq![sep] + pairs[0].0 + seq!['=']) + url_encode_spec(
        pairs[0].1,
    ));
}

proof fn lemma_regroup(
    a: Seq<char>,
    l1: Seq<char>,
    x1: Seq<char>,
    l2: Seq<char>,
    x2: Seq<char>,
    l3: Seq<char>,
    x3: Seq<char>,
    l4: Seq<char>,
    x4: Seq<char>,
    l5: Seq<char>,
    x5: Seq<char>,
    l6: Seq<char>,
)
    ensures
        a + l1 + x1 + l2 + x2 + l3 + x3 + l4 + x4 + l5 + x5 + l6 == a + (l1 + x1 + (l2 + x2 + (l3
            + x3 + (l4 + x4 + (l5 + x5 + l6))))),
{
    assert(a + l1 + x1 + l2 + x2 + l3 + x3 + l4 + x4 + l5 + x5 + l6 =~= a + (l1 + x1 + (l2 + x2 + (
    l3 + x3 + (l4 + x4 + (l5 + x5 + l6))))));
}

proof fn lemma_authorization_tail(pairs: QueryEntries)
    requires
        pairs.len() == 5,
        pairs[0] == ("code_challenge_method"@, "S256"@),
        pairs[1].0 == "state"@,
        pairs[2] == ("id_token_add_organizations"@, "true"@),
        pairs[3] == ("codex_cli_simplified_flow"@, "true"@),
        pairs[4] == ("originator"@, "tule"@),
    ensures
        seq!['&'] + query_text(pairs) == "&code_challenge_method=S256&state="@ + url_encode_spec(
            pairs[1].1,
        ) + "&id_token_add_organizations=true&codex_cli_simplified_flow=true&originator=tule"@,
{
    lemma_fixed_values_encode();
    let p4 = pairs.skip(4);
    let p3 = pairs.skip(3);
    let p2 = pairs.skip(2);
    let p1 = pairs.skip(1);
    assert(p3.drop_first() =~= p4);
    assert(p2.drop_first() =~= p3);
    assert(p1.drop_first() =~= p2);
    assert(pairs.drop_first() =~= p1);
    lemma_query_text_last('&', p4);
    let w4 = seq!['&'] + query_text(p4);
    lemma_query_text_step('&', p3, w4);
    let w3 = seq!['&'] + query_text(p3);
    lemma_query_text_step('&', p2, w3);
    let w2 = seq!['&'] + query_text(p2);
    reveal_strlit("&id_token_add_organizations=true&codex_cli_simplified_flow=true&originator=tule");
    reveal_strlit("id_token_add_organizations");
    reveal_strlit("codex_cli_simplified_flow");
    reveal_strlit("originator");
    reveal_strlit("true");
    reveal_strlit("tule");
    assert(w2 =~= "&id_token_add_organizations=true&codex_cli_simplified_flow=true&originator=tule"@);
    lemma_query_text_step('&', p1, w2);
    let w1 = seq!['&'] + query_text(p1);
    lemma_query_text_step('&', pairs, w1);
    reveal_strlit("&code_challenge_method=S256&state=");
    reveal_strlit("code_challenge_method");
    reveal_strlit("S256");
    reveal_strlit("state");
    let e = url_encode_spec(pairs[1].1);
    assert(seq!['&'] + query_text(pairs) =~= "&code_challenge_method=S256&state="@ + e
        + "&id_token_add_organizations=true&codex_cli_simplified_flow=true&originator=tule"@);
}

proof fn lemma_authorization_url_shape(redirect_uri: Seq<char>, challenge: Seq<char>, state: Seq<char>)
    ensures
        authorization_url_spec(redirect_uri, challenge, state) == AUTH_URL@ + seq!['?'] + query_text(
            authorization_pairs(redirect_uri, challenge, state),
        ),
{
    let pairs = authorization_pairs(redirect_uri, challenge, state);
    let ec = url_encode_spec(CLIENT_ID@);
    let er = url_encode_spec(redirect_uri);
    let es = url_encode_spec(SCOPES@);
    let ech = url_encode_spec(challenge);
    let est = url_encode_spec(state);
    let l1 = "?response_type=code&client_id="@;
    let l2 = "&redirect_uri="@;
    let l3 = "&scope="@;
    let l4 = "&code_challenge="@;
    let l5 = "&code_challenge_method=S256&state="@;
    let l6 = "&id_token_add_organizations=true&codex_cli_simplified_flow=true&originator=tule"@;
    let p5 = pairs.skip(5);
    let p4 = pairs.skip(4);
    let p3 = pairs.skip(3);
    let p2 = pairs.skip(2);
    let p1 = pairs.skip(1);
    assert(p4.drop_first() =~= p5);
    assert(p3.drop_first() =~= p4);
    assert(p2.drop_first() =~= p3);
    assert(p1.drop_first() =~= p2);
    assert(pairs.drop_first() =~= p1);
    lemma_authorization_tail(p5);
    let w5 = l5 + est + l6;
    lemma_query_text_step('&', p4, w5);
    let w4 = l4 + ech + w5;
    assert(seq!['&'] + query_text(p4) == w4) by {
        reveal_strlit("&code_challenge=");
        reveal_strlit("code_challenge");
        assert(seq!['&'] + "code_challenge"@ + seq!['='] =~= l4);
    }
    lemma_query_text_step('&', p3, w4);
    let w3 = l3 + es + w4;
    assert(seq!['&'] + query_text(p3) == w3) by {
        reveal_strlit("&scope=");
        reveal_strlit("scope");
        assert(seq!['&'] + "scope"@ + seq!['='] =~= l3);
    }
    lemma_query_text_step('&', p2, w3);
    let w2 = l2 + er + w3;
    assert(seq!['&'] + query_text(p2) == w2) by {
        reveal_strlit("&redirect_uri=");
        reveal_strlit("redirect_uri");
        assert(seq!['&'] + "redirect_uri"@ + seq!['='] =~= l2);
    }
    lemma_query_text_step('&', p1, w2);
    let w1 = seq!['&'] + "client_id"@ + seq!['='] + ec + w2;
    lemma_query_text_step('?', pairs, w1);
    lemma_fixed_values_encode();
    assert(seq!['?'] + query_text(pairs) == l1 + ec + w2) by {
        reveal_strlit("?response_type=code&client_id=");
        reveal_strlit("response_type");
        reveal_strlit("client_id");
        reveal_strlit("code");
        let c1 = seq!['?'] + "response_type"@ + seq!['='];
        let c2 = seq!['&'] + "client_id"@ + seq!['='];
        assert(c1 + "code"@ + c2 =~= l1);
        assert(c1 + "code"@ + (c2 + ec + w2) =~= c1 + "code"@ + c2 + ec + w2);
    }
    lemma_regroup(AUTH_URL@, l1, ec, l2, er, l3, es, l4, ech, l5, est, l6);
    vstd::seq_lib::lemma_concat_associative(AUTH_URL@, seq!['?'], query_text(pairs));
    assert(l1 + ec + w2 =~= l1 + ec + (l2 + er + (l3 + es + (l4 + ech + (l5 + est + l6)))));
}

/// Law: an authorization URL is the authorize endpoint, a `?`, and a query
/// that parses back to exactly the bound redirect URI, the challenge, the
/// state and the fixed client, scope and flow parameters.
pub proof fn lemma_authorization_url_round_trip(
    redirect_uri: Seq<char>,
    challenge: Seq<char>,
    state: Seq<char>,
)
    ensures
        !AUTH_URL@.contains('?'),
        authorization_url_spec(redirect_uri, challenge, state) == AUTH_URL@ + seq!['?'] + query_text(
            authorization_pairs(redirect_uri, challenge, state),
        ),
        parse_query_spec(query_text(authorization_pairs(redirect_uri, challenge, state))) == Some(
            authorization_pairs(redirect_uri, challenge, state),
        ),
{
    reveal_strlit("https://auth.openai.com/oauth/authorize");
    assert(!AUTH_URL@.contains('?')) by {
        if AUTH_URL@.contains('?') {
            let i = choose|i: int| 0 <= i < AUTH_URL@.len() && AUTH_URL@[i] == '?';
        }
    }
    lemma_authorization_keys_ok(redirect_uri, challenge, state);
    lemma_query_round_trip(authorization_pairs(redirect_uri, challenge, state));
    lemma_authorization_url_shape(redirect_uri, challenge, state);
}

proof fn lemma_lookup_distinct_key(entries: QueryEntries, i: int)
    requires
        0 <= i < entries.len(),
        forall|a: int, b: int|
            0 <= a < b < entries.len() ==> (#[trigger] entries[a]).0 != (#[trigger] entries[b]).0,
    ensures
        lookup(entries, entries[i].0) == Some(entries[i].1),
    decreases i,
{
    if i > 0 {
        assert(entries[0].0 != entries[i].0);
        let rest = entries.drop_first();
        assert forall|a: int, b: int| 0 <= a < b < rest.len() implies (#[trigger] rest[a]).0 != (
        #[trigger] rest[b]).0 by {
            assert(rest[a] == entries[a + 1]);
            assert(rest[b] == entries[b + 1]);
        }
        assert(rest[i - 1] == entries[i]);
        lemma_lookup_distinct_key(rest, i - 1);
    }
}

/// Law: the query of an authorization URL, read back with [`parse_query`],
/// gives the redirect URI, the PKCE challenge and the state it was built
/// with, beside the fixed client, scope, response type and challenge method.
pub proof fn lemma_authorization_query_lookups(
    redirect_uri: Seq<char>,
    challenge: Seq<char>,
    state: Seq<char>,
)
    ensures
        ({
            let q = query_text(authorization_pairs(redirect_uri, challenge, state));
            &&& parse_query_spec(q) matches Some(m) && {
                &&& lookup(m, "redirect_uri"@) == Some(redirect_uri)
                &&& lookup(m, "code_challenge"@) == Some(challenge)
                &&& lookup(m, "state"@) == Some(state)
                &&& lookup(m, "client_id"@) == Some(CLIENT_ID@)
                &&& lookup(m, "scope"@) == Some(SCOPES@)
                &&& lookup(m, "response_type"@) == Some("code"@)
                &&& lookup(m, "code_challenge_method"@) == Some("S256"@)
            }
        }),
{
    let pairs = authorization_pairs(redirect_uri, challenge, state);
    lemma_authorization_url_round_trip(redirect_uri, challenge, state);
    lemma_authorization_keys_ok(redirect_uri, challenge, state);
    lemma_lookup_distinct_key(pairs, 0);
    lemma_lookup_distinct_key(pairs, 1);
    lemma_lookup_distinct_key(pairs, 2);
    lemma_lookup_distinct_key(pairs, 3);
    lemma_lookup_distinct_key(pairs, 4);
    lemma_lookup_distinct_key(pairs, 5);
    lemma_lookup_distinct_key(pairs, 6);
}

/// The maximal runs of non-whitespace characters, in order.
pub open spec fn whitespace_tokens(s: Seq<char>) -> Seq<Seq<char>>
    decreases s.len(),
{
    if s.len() == 0 {
        seq![]
    } else {
        let prev = whitespace_tokens(s.drop_last());
        let c = s.last();
        if is_unicode_whitespace(c) {
            prev
        } else if s.len() >= 2 && !is_unicode_whitespace(s[s.len() - 2]) {
            prev.drop_last().push(prev.last().push(c))
        } else {
            prev.push(seq![c])
        }
    }
}

/// The first line of a text: up to the first line feed, without the carriage
/// return that precedes it; the whole text when it holds no line feed.
pub open spec fn first_line(text: Seq<char>) -> Seq<char> {
    let j = first_index_of(text, '\n');
    if j < text.len() {
        let line = text.take(j as int);
        if line.len() > 0 && line.last() == '\r' {
            line.drop_last()
        } else {
            line
        }
    } else {
        text
    }
}

/// The request target of an acceptable callback request line: exactly three
/// whitespace-separated fields, method `GET`, an `HTTP/1.` version and no
/// fragment in the target.
pub open spec fn callback_target(text: Seq<char>) -> Option<Seq<char>> {
    let fields = whitespace_tokens(first_line(text));
    if text.len() > 0 && fields.len() == 3 && fields[0] == "GET"@ && starts_with(
        fields[2],
        "HTTP/1."@,
    ) && !fields[1].contains('#') {
        Some(fields[1])
    } else {
        None
    }
}

/// The path of a request target: everything before its first `?`.
pub open spec fn target_path(target: Seq<char>) -> Seq<char> {
    target.take(first_index_of(target, '?') as int)
}

/// The query of a request target: everything after its first `?`, or nothing.
pub open spec fn target_query(target: Seq<char>) -> Seq<char> {
    let q = first_index_of(target, '?');
    if q < target.len() {
        target.skip(q + 1int)
    } else {
        seq![]
    }
}

/// What the loopback listener writes back before it closes the connection.
#[derive(Clone, Copy, Debug, PartialEq, Eq, Structural)]
pub enum CallbackReply {
    Silent,
    PayloadTooLarge,
    BadRequest,
    SignInDeclined,
    Returned,
}

/// The HTTP response written for each reply.
pub open spec fn reply_text(reply: CallbackReply) -> Seq<char> {
    match reply {
        CallbackReply::Silent => ""@,
        CallbackReply::PayloadTooLarge => "HTTP/1.1 413 Payload Too Large\r\nContent-Length: 0\r\n\r\n"@,
        CallbackReply::BadRequest => "HTTP/1.1 400 Bad Request\r\nContent-Length: 0\r\n\r\n"@,
        CallbackReply::SignInDeclined => "HTTP/1.1 200 OK\r\nContent-Length: 16\r\n\r\nSign-in declined"@,
        CallbackReply::Returned => "HTTP/1.1 200 OK\r\nContent-Type: text/plain\r\nContent-Length: 48\r\n\r\nYou can return to TULE. This window may be closed."@,
    }
}

impl CallbackReply {
    /// The HTTP response that the reply stands for; empty for `Silent`.
    pub fn http_response(&self) -> (s: &'static str)
        ensures
            s@ == reply_text(*self),
    {
        match self {
            CallbackReply::Silent => "",
            CallbackReply::PayloadTooLarge => "HTTP/1.1 413 Payload Too Large\r\nContent-Length: 0\r\n\r\n",
            CallbackReply::BadRequest => "HTTP/1.1 400 Bad Request\r\nContent-Length: 0\r\n\r\n",
            CallbackReply::SignInDeclined => "HTTP/1.1 200 OK\r\nContent-Length: 16\r\n\r\nSign-in declined",
            CallbackReply::Returned => "HTTP/1.1 200 OK\r\nContent-Type: text/plain\r\nContent-Length: 48\r\n\r\nYou can return to TULE. This window may be closed.",
        }
    }
}

/// The result of a callback request and the reply written for it.
#[derive(Debug)]
pub struct CallbackOutcome {
    pub result: Result<String, PublicError>,
    pub reply: CallbackReply,
}

pub open spec fn invalid_callback() -> (Result<Seq<char>, PublicError>, CallbackReply) {
    (Err(PublicError::InvalidInput), CallbackReply::Silent)
}

/// The decision on the decoded parameters of a callback to the right path:
/// the state must be present, bounded and equal to the expected one, a
/// provider `error` declines the sign-in, and a bounded non-empty code is the
/// result.
pub open spec fn callback_params_outcome(entries: QueryEntries, expected_state: Seq<char>) -> (
    Result<Seq<char>, PublicError>,
    CallbackReply,
) {
    match lookup(entries, "state"@) {
        None => invalid_callback(),
        Some(state) => if encode_utf8(state).len() > MAX_CALLBACK_VALUE || state != expected_state {
            (Err(PublicError::InvalidInput), CallbackReply::BadRequest)
        } else if lookup(entries, "error"@) is Some {
            (Err(PublicError::AuthenticationRequired), CallbackReply::SignInDeclined)
        } else {
            match lookup(entries, "code"@) {
                None => invalid_callback(),
                Some(code) => if code.len() == 0 || encode_utf8(code).len() > MAX_CALLBACK_VALUE {
                    invalid_callback()
                } else {
                    (Ok(code), CallbackReply::Returned)
                },
            }
        },
    }
}

/// The decision on a complete callback request received for `expected_state`.
pub open spec fn callback_outcome_spec(request: Seq<u8>, expected_state: Seq<char>) -> (
    Result<Seq<char>, PublicError>,
    CallbackReply,
) {
    if !valid_utf8(request) {
        invalid_callback()
    } else {
        match callback_target(decode_utf8(request)) {
            None => invalid_callback(),
            Some(target) => if target_path(target) != "/auth/callback"@ {
                invalid_callback()
            } else {
                match parse_query_spec(target_query(target)) {
                    None => invalid_callback(),
                    Some(entries) => callback_params_outcome(entries, expected_state),
                }
            },
        }
    }
}

pub open spec fn outcome_matches(
    outcome: CallbackOutcome,
    expected: (Result<Seq<char>, PublicError>, CallbackReply),
) -> bool {
    &&& outcome.reply == expected.1
    &&& match outcome.result {
        Ok(code) => expected.0 == Ok::<Seq<char>, PublicError>(code@),
        Err(e) => expected.0 == Err::<Seq<char>, PublicError>(e),
    }
}

fn invalid_outcome() -> (outcome: CallbackOutcome)
    ensures
        outcome_matches(outcome, invalid_callback()),
{
    CallbackOutcome { result: Err(PublicError::InvalidInput), reply: CallbackReply::Silent }
}

fn first_line_of(text: &[char]) -> (line: Vec<char>)
    ensures
        line@ == first_line(text@),
{
    let j = find_char(text, '\n');
    if j < text.len() {
        let mut end = j;
        if j > 0 && text[j - 1] == '\r' {
            end = j - 1;
        }
        let line = vstd::slice::slice_to_vec(&text[0..end]);
        assert(line@ =~= first_line(text@));
        line
    } else {
        vstd::slice::slice_to_vec(text)
    }
}

pub open spec fn token_views(tokens: Seq<Vec<char>>) -> Seq<Seq<char>> {
    Seq::new(tokens.len(), |i: int| tokens[i]@)
}

fn whitespace_split(line: &[char]) -> (tokens: Vec<Vec<char>>)
    ensures
        token_views(tokens@) == whitespace_tokens(line@),
{
    let mut tokens: Vec<Vec<char>> = Vec::new();
    let mut current: Vec<char> = Vec::new();
    let mut in_token = false;
    let mut i: usize = 0;
    assert(line@.take(0) =~= Seq::<char>::empty());
    assert(token_views(tokens@) =~= Seq::<Seq<char>>::empty());
    while i < line.len()
        invariant
            i <= line@.len(),
            in_token == (i > 0 && !is_unicode_whitespace(line@[i - 1])),
            whitespace_tokens(line@.take(i as int)) == (if in_token {
                token_views(tokens@).push(current@)
            } else {
                token_views(tokens@)
            }),
        decreases line@.len() - i,
    {
        let c = line[i];
        let ghost prefix = line@.take(i + 1);
        assert(prefix.drop_last() =~= line@.take(i as int));
        assert(prefix.last() == c);
        if is_whitespace_char(c) {
            if in_token {
                let ghost before = tokens@;
                tokens.push(current);
                current = Vec::new();
                assert(token_views(tokens@) =~= token_views(before).push(
                    token_views(tokens@)[before.len() as int],
                ));
            }
            in_token = false;
        } else if in_token {
            assert(prefix[prefix.len() - 2] == line@[i - 1]);
            current.push(c);
            assert(whitespace_tokens(prefix) =~= token_views(tokens@).push(current@));
            in_token = true;
        } else {
            current = Vec::new();
            current.push(c);
            assert(current@ =~= seq![c]);
            assert(i > 0 ==> prefix[prefix.len() - 2] == line@[i - 1]);
            in_token = true;
        }
        i = i + 1;
        assert(line@.take(i as int) == prefix);
    }
    assert(line@.take(line@.len() as int) =~= line@);
    if in_token {
        let ghost before = tokens@;
        tokens.push(current);
        assert(token_views(tokens@) =~= token_views(before).push(
            token_views(tokens@)[before.len() as int],
        ));
    }
    tokens
}

fn callback_params_decision(params: &QueryParams, expected_state: &str) -> (outcome:
    CallbackOutcome)
    ensures
        outcome_matches(outcome, callback_params_outcome(params@, expected_state@)),
{
    let state = match params.get("state") {
        Some(state) => state,
        None => return invalid_outcome(),
    };
    if state.as_str().as_bytes().len() > MAX_CALLBACK_VALUE || !string_eq_str(state, expected_state) {
        return CallbackOutcome {
            result: Err(PublicError::InvalidInput),
            reply: CallbackReply::BadRequest,
        };
    }
    if params.contains_key("error") {
        return CallbackOutcome {
            result: Err(PublicError::AuthenticationRequired),
            reply: CallbackReply::SignInDeclined,
        };
    }
    let code = match params.get("code") {
        Some(code) => code,
        None => return invalid_outcome(),
    };
    if code.as_str().is_empty() || code.as_str().as_bytes().len() > MAX_CALLBACK_VALUE {
        return invalid_outcome();
    }
    CallbackOutcome { result: Ok(code.clone()), reply: CallbackReply::Returned }
}

/// Decides a complete callback request received while waiting for
/// `expected_state`.
pub fn evaluate_callback_request(request: &[u8], expected_state: &str) -> (outcome:
    CallbackOutcome)
    ensures
        outcome_matches(outcome, callback_outcome_spec(request@, expected_state@)),
{
    let text = match string_from_utf8(copy_bytes(request)) {
        Some(text) => text,
        None => return invalid_outcome(),
    };
    let chars = chars_of(text.as_str());
    if chars.len() == 0 {
        return invalid_outcome();
    }
    let line = first_line_of(&chars);
    let fields = whitespace_split(&line);
    if fields.len() != 3 {
        return invalid_outcome();
    }
    let get = chars_of("GET");
    let version_prefix = chars_of("HTTP/1.");
    let version = &fields[2];
    if !chars_eq(&fields[0], &get) || version.len() < version_prefix.len() || !chars_eq(
        &version[0..version_prefix.len()],
        &version_prefix,
    ) || chars_contain(&fields[1], '#') {
        return invalid_outcome();
    }
    let target = &fields[1];
    let q = find_char(target, '?');
    let callback_path = chars_of("/auth/callback");
    if !chars_eq(&target[0..q], &callback_path) {
        return invalid_outcome();
    }
    let query_chars = if q < target.len() {
        &target[q + 1..target.len()]
    } else {
        &target[q..q]
    };
    assert(query_chars@ =~= target_query(target@));
    let query = string_of(query_chars);
    let params = match parse_query(query.as_str()) {
        Ok(params) => params,
        Err(_) => return invalid_outcome(),
    };
    callback_params_decision(&params, expected_state)
}

/// How far reading a callback request has come.
#[derive(Clone, Copy, Debug, PartialEq, Eq, Structural)]
pub enum CallbackRead {
    NeedMore,
    HeadComplete,
    TooLarge,
}

pub open spec fn has_head_terminator(received: Seq<u8>) -> bool {
    exists|i: int|
        0 <= i && i + 4 <= received.len() && #[trigger] received.subrange(i, i + 4) == seq![
            13u8,
            10u8,
            13u8,
            10u8,
        ]
}

/// The decision after each read of a callback request: more than the request
/// limit is refused, a blank line ends the head, anything else needs more.
pub fn callback_read_progress(received: &[u8]) -> (r: CallbackRead)
    ensures
        r == (if received@.len() > MAX_CALLBACK_REQUEST {
            CallbackRead::TooLarge
        } else if has_head_terminator(received@) {
            CallbackRead::HeadComplete
        } else {
            CallbackRead::NeedMore
        }),
{
    if received.len() > MAX_CALLBACK_REQUEST {
        return CallbackRead::TooLarge;
    }
    let mut i: usize = 0;
    while 4 <= received.len() - i
        invariant
            i <= received@.len(),
            received@.len() <= MAX_CALLBACK_REQUEST,
            forall|k: int|
                0 <= k < i && k + 4 <= received@.len() ==> #[trigger] received@.subrange(k, k + 4)
                    != seq![13u8, 10u8, 13u8, 10u8],
        decreases received@.len() - i,
    {
        if received[i] == 13u8 && received[i + 1] == 10u8 && received[i + 2] == 13u8 && received[i
            + 3] == 10u8 {
            assert(received@.subrange(i as int, i + 4) =~= seq![13u8, 10u8, 13u8, 10u8]);
            return CallbackRead::HeadComplete;
        }
        assert(received@.subrange(i as int, i + 4) != seq![13u8, 10u8, 13u8, 10u8]) by {
            let w = received@.subrange(i as int, i + 4);
            if w == seq![13u8, 10u8, 13u8, 10u8] {
                assert(w[0] == received@[i as int]);
                assert(w[1] == received@[i + 1]);
                assert(w[2] == received@[i + 2]);
                assert(w[3] == received@[i + 3]);
            }
        }
        i = i + 1;
    }
    CallbackRead::NeedMore
}

} // verus!
