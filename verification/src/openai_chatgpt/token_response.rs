//! Token-endpoint requests and responses: request bodies, bounded body
//! reads, the token set a response carries and the account claim of its ID
//! token.

use vstd::prelude::*;
use vstd::utf8::encode_utf8;

use crate::json::{
    get_in, json_document, json_get, json_i64, json_str, parse_json, str_in, JsonValue,
};
use crate::openai_chatgpt::credential_lifecycle::{TokenBundle, TokenPersistence, TokenValues};
use crate::openai_chatgpt::url_coding::{url_encode_spec, urlencoding};
use crate::openai_chatgpt::{CLIENT_ID, MAX_PROVIDER_BODY};
use crate::provider::PublicError;
use crate::text::{
    chars_of, find_char, first_index_of, string_eq_str, string_of, zeroize_bytes, zeroize_string,
};

verus! {

/// The form body of an authorization-code exchange.
pub open spec fn token_exchange_body_spec(
    redirect_uri: Seq<char>,
    verifier: Seq<char>,
    code: Seq<char>,
) -> Seq<char> {
    "grant_type=authorization_code&client_id="@ + url_encode_spec(CLIENT_ID@) + "&code="@
        + url_encode_spec(code) + "&redirect_uri="@ + url_encode_spec(redirect_uri)
        + "&code_verifier="@ + url_encode_spec(verifier)
}

pub fn token_exchange_body(redirect_uri: &str, verifier: &str, code: &str) -> (body: String)
    ensures
        body@ == token_exchange_body_spec(redirect_uri@, verifier@, code@),
{
    let mut body = String::new();
    body.append("grant_type=authorization_code&client_id=");
    body.append(urlencoding(CLIENT_ID).as_str());
    body.append("&code=");
    body.append(urlencoding(code).as_str());
    body.append("&redirect_uri=");
    body.append(urlencoding(redirect_uri).as_str());
    body.append("&code_verifier=");
    body.append(urlencoding(verifier).as_str());
    body
}

/// The form body of a refresh-token exchange.
pub open spec fn refresh_request_body_spec(refresh: Seq<char>) -> Seq<char> {
    "grant_type=refresh_token&client_id="@ + url_encode_spec(CLIENT_ID@) + "&refresh_token="@
        + url_encode_spec(refresh)
}

pub fn refresh_request_body(refresh: &str) -> (body: String)
    ensures
        body@ == refresh_request_body_spec(refresh@),
{
    let mut body = String::new();
    body.append("grant_type=refresh_token&client_id=");
    body.append(urlencoding(CLIENT_ID).as_str());
    body.append("&refresh_token=");
    body.append(urlencoding(refresh).as_str());
    body
}

/// Whether a declared content length fits the body limit.
pub fn content_length_acceptable(length: Option<u64>, limit: usize) -> (r: bool)
    ensures
        r == !(length matches Some(l) && l > limit),
{
    match length {
        Some(l) => l <= limit as u64,
        None => true,
    }
}

/// Appends a received chunk to a bounded body; a chunk that would take the
/// body past `limit` wipes what was read and refuses the body.
pub fn accept_body_chunk(body: &mut Vec<u8>, chunk: &[u8], limit: usize) -> (r: Result<
    (),
    PublicError,
>)
    ensures
        old(body)@.len() + chunk@.len() > limit ==> r == Err::<(), PublicError>(
            PublicError::InvalidInput,
        ) && final(body)@ == Seq::<u8>::empty(),
        old(body)@.len() + chunk@.len() <= limit ==> r is Ok && final(body)@ == old(body)@
            + chunk@,
{
    if chunk.len() > limit || body.len() > limit - chunk.len() {
        zeroize_bytes(body);
        return Err(PublicError::InvalidInput);
    }
    let mut i: usize = 0;
    while i < chunk.len()
        invariant
            i <= chunk@.len(),
            body@ == old(body)@ + chunk@.take(i as int),
        decreases chunk@.len() - i,
    {
        body.push(chunk[i]);
        i = i + 1;
        assert(body@ =~= old(body)@ + chunk@.take(i as int));
    }
    assert(chunk@.take(chunk@.len() as int) =~= chunk@);
    Ok(())
}

/// What `base64::Engine::decode` gives for `input` with the URL-safe
/// alphabet, with (`URL_SAFE`) or without (`URL_SAFE_NO_PAD`) padding;
/// `None` where decoding fails.
pub uninterp spec fn base64_url_decoded(padded: bool, input: Seq<u8>) -> Option<Seq<u8>>;

/// Calls `base64::Engine::decode` on the `URL_SAFE` or `URL_SAFE_NO_PAD`
/// engine. The contract names the result as a function of the input and the
/// engine, and says nothing more of it.
#[verifier::external_body]
fn base64_url_decode(padded: bool, input: &[u8]) -> (r: Option<Vec<u8>>)
    ensures
        match r {
            Some(v) => base64_url_decoded(padded, input@) == Some(v@),
            None => base64_url_decoded(padded, input@) is None,
        },
{
    let engine = if padded {
        &base64::engine::general_purpose::URL_SAFE
    } else {
        &base64::engine::general_purpose::URL_SAFE_NO_PAD
    };
    base64::Engine::decode(engine, input).ok()
}

/// The second `.`-separated segment of a JWT, its payload.
pub open spec fn jwt_payload(token: Seq<char>) -> Option<Seq<char>> {
    let first = first_index_of(token, '.');
    if first < token.len() {
        let rest = token.skip(first + 1int);
        Some(rest.take(first_index_of(rest, '.') as int))
    } else {
        None
    }
}

/// The account claim of a decoded ID-token payload: the namespaced
/// `chatgpt_account_id`, else a top-level `chatgpt_account_id`, else `sub`.
pub open spec fn account_claim(claims: JsonValue) -> Result<Seq<char>, PublicError> {
    let v = Some(claims);
    match json_str(json_get(json_get(v, "https://api.openai.com/auth"@), "chatgpt_account_id"@)) {
        Some(a) => Ok(a),
        None => match json_str(json_get(v, "chatgpt_account_id"@)) {
            Some(a) => Ok(a),
            None => match json_str(json_get(v, "sub"@)) {
                Some(a) => Ok(a),
                None => Err(PublicError::ProviderUnavailable),
            },
        },
    }
}

/// The account identifier that an ID token carries.
pub open spec fn account_id_spec(id_token: Seq<char>) -> Result<Seq<char>, PublicError> {
    match jwt_payload(id_token) {
        None => Err(PublicError::ProviderUnavailable),
        Some(payload) => {
            let bytes = encode_utf8(payload);
            let decoded = match base64_url_decoded(false, bytes) {
                Some(d) => Some(d),
                None => base64_url_decoded(true, bytes),
            };
            match decoded {
                None => Err(PublicError::ProviderUnavailable),
                Some(d) => if d.len() > MAX_PROVIDER_BODY {
                    Err(PublicError::InvalidInput)
                } else {
                    match json_document(d) {
                        None => Err(PublicError::ProviderUnavailable),
                        Some(claims) => account_claim(claims),
                    }
                },
            }
        },
    }
}

/// Reads the account claim out of a parsed ID-token payload.
pub fn account_claim_of(claims: &JsonValue) -> (r: Result<String, PublicError>)
    ensures
        match r {
            Ok(a) => account_claim(*claims) == Ok::<Seq<char>, PublicError>(a@),
            Err(e) => account_claim(*claims) == Err::<Seq<char>, PublicError>(e),
        },
{
    if let Some(a) = str_in(get_in(claims.get("https://api.openai.com/auth"), "chatgpt_account_id")) {
        return Ok(a.clone());
    }
    if let Some(a) = str_in(claims.get("chatgpt_account_id")) {
        return Ok(a.clone());
    }
    match str_in(claims.get("sub")) {
        Some(a) => Ok(a.clone()),
        None => Err(PublicError::ProviderUnavailable),
    }
}

/// Reads the account identifier out of an ID token.
pub fn extract_account_id(id_token: &str) -> (r: Result<String, PublicError>)
    ensures
        match r {
            Ok(a) => account_id_spec(id_token@) == Ok::<Seq<char>, PublicError>(a@),
            Err(e) => account_id_spec(id_token@) == Err::<Seq<char>, PublicError>(e),
        },
{
    let chars = chars_of(id_token);
    let first = find_char(&chars, '.');
    if first >= chars.len() {
        return Err(PublicError::ProviderUnavailable);
    }
    let rest = &chars[first + 1..chars.len()];
    assert(rest@ =~= chars@.skip(first + 1int));
    let end = find_char(rest, '.');
    let payload = string_of(&rest[0..end]);
    assert(payload@ =~= jwt_payload(id_token@)->0);
    let bytes = payload.as_str().as_bytes();
    let decoded = match base64_url_decode(false, bytes) {
        Some(d) => d,
        None => match base64_url_decode(true, bytes) {
            Some(d) => d,
            None => return Err(PublicError::ProviderUnavailable),
        },
    };
    if decoded.len() > MAX_PROVIDER_BODY {
        return Err(PublicError::InvalidInput);
    }
    let claims = match parse_json(decoded.as_slice()) {
        Some(claims) => claims,
        None => return Err(PublicError::ProviderUnavailable),
    };
    account_claim_of(&claims)
}

/// The token set as contracts speak of it.
pub struct TokenFields {
    pub access: Seq<char>,
    pub refresh: Seq<char>,
    pub account: Seq<char>,
    pub expires_at_unix_ms: Option<i64>,
    pub preserve_refresh: bool,
}

pub open spec fn token_fields(values: TokenValues) -> TokenFields {
    TokenFields {
        access: values.access@,
        refresh: values.refresh@,
        account: values.account@,
        expires_at_unix_ms: values.expires_at_unix_ms,
        preserve_refresh: values.preserve_refresh,
    }
}

/// The default lifetime of an access token whose response names none.
pub const DEFAULT_EXPIRES_IN_SECS: i64 = 3600;

/// When an access token issued at `now` expires, in milliseconds; the
/// arithmetic wraps as the release build does.
pub open spec fn expiry_ms(now_unix_ms: Option<i64>, expires_in: i64) -> Option<i64> {
    match now_unix_ms {
        Some(now) => Some(now.wrapping_add(expires_in.wrapping_mul(1000))),
        None => None,
    }
}

/// The token set that a successful token-endpoint body carries. The access
/// token is required, a missing refresh token keeps the stored one on a
/// rotation and is refused on an initial connection, and the account comes
/// from the ID token.
pub open spec fn token_response_spec(
    body: Seq<u8>,
    persistence: TokenPersistence,
    now_unix_ms: Option<i64>,
) -> Result<TokenFields, PublicError> {
    match json_document(body) {
        None => Err(PublicError::ProviderUnavailable),
        Some(document) => token_document_spec(document, persistence, now_unix_ms),
    }
}

/// The token set that a parsed token-endpoint document carries.
pub open spec fn token_document_spec(
    document: JsonValue,
    persistence: TokenPersistence,
    now_unix_ms: Option<i64>,
) -> Result<TokenFields, PublicError> {
    let v = Some(document);
    match json_str(json_get(v, "access_token"@)) {
        None => Err(PublicError::ProviderUnavailable),
        Some(access) => {
            let refresh = match json_str(json_get(v, "refresh_token"@)) {
                Some(r) => r,
                None => Seq::<char>::empty(),
            };
            let id_token = match json_str(json_get(v, "id_token"@)) {
                Some(t) => t,
                None => Seq::<char>::empty(),
            };
            match account_id_spec(id_token) {
                Err(e) => Err(e),
                Ok(account) => {
                    let expires_in = match json_i64(json_get(v, "expires_in"@)) {
                        Some(n) => n,
                        None => DEFAULT_EXPIRES_IN_SECS,
                    };
                    let expires_at_unix_ms = expiry_ms(now_unix_ms, expires_in);
                    if refresh.len() == 0 {
                        if persistence == TokenPersistence::Initial {
                            Err(PublicError::ProviderUnavailable)
                        } else {
                            Ok(
                                TokenFields {
                                    access,
                                    refresh: Seq::<char>::empty(),
                                    account,
                                    expires_at_unix_ms,
                                    preserve_refresh: true,
                                },
                            )
                        }
                    } else {
                        Ok(
                            TokenFields {
                                access,
                                refresh,
                                account,
                                expires_at_unix_ms,
                                preserve_refresh: false,
                            },
                        )
                    }
                },
            }
        },
    }
}

/// Reads the token set out of a successful token-endpoint body.
pub fn parse_token_response(
    body: &[u8],
    persistence: TokenPersistence,
    now_unix_ms: Option<i64>,
) -> (r: Result<TokenBundle, PublicError>)
    ensures
        match r {
            Ok(TokenBundle::Success(values)) => token_response_spec(body@, persistence, now_unix_ms)
                == Ok::<TokenFields, PublicError>(token_fields(values)),
            Ok(TokenBundle::InvalidGrant) => false,
            Err(e) => token_response_spec(body@, persistence, now_unix_ms) == Err::<
                TokenFields,
                PublicError,
            >(e),
        },
{
    match parse_json(body) {
        Some(document) => token_response_from_document(&document, persistence, now_unix_ms),
        None => Err(PublicError::ProviderUnavailable),
    }
}

/// Reads the token set out of a parsed token-endpoint document.
pub fn token_response_from_document(
    document: &JsonValue,
    persistence: TokenPersistence,
    now_unix_ms: Option<i64>,
) -> (r: Result<TokenBundle, PublicError>)
    ensures
        match r {
            Ok(TokenBundle::Success(values)) => token_document_spec(*document, persistence, now_unix_ms)
                == Ok::<TokenFields, PublicError>(token_fields(values)),
            Ok(TokenBundle::InvalidGrant) => false,
            Err(e) => token_document_spec(*document, persistence, now_unix_ms) == Err::<
                TokenFields,
                PublicError,
            >(e),
        },
{
    let mut access = match str_in(document.get("access_token")) {
        Some(access) => access.clone(),
        None => return Err(PublicError::ProviderUnavailable),
    };
    let refresh = match str_in(document.get("refresh_token")) {
        Some(refresh) => refresh.clone(),
        None => String::new(),
    };
    let mut id_token = match str_in(document.get("id_token")) {
        Some(id_token) => id_token.clone(),
        None => String::new(),
    };
    let account_result = extract_account_id(id_token.as_str());
    zeroize_string(&mut id_token);
    let mut account = match account_result {
        Ok(account) => account,
        Err(e) => return Err(e),
    };
    let expires_in = match document.get("expires_in") {
        Some(n) => match n.as_i64() {
            Some(n) => n,
            None => DEFAULT_EXPIRES_IN_SECS,
        },
        None => DEFAULT_EXPIRES_IN_SECS,
    };
    let expires_at_unix_ms = match now_unix_ms {
        Some(now) => Some(now.wrapping_add(expires_in.wrapping_mul(1000))),
        None => None,
    };
    if refresh.as_str().is_empty() {
        if persistence == TokenPersistence::Initial {
            zeroize_string(&mut access);
            zeroize_string(&mut account);
            return Err(PublicError::ProviderUnavailable);
        }
        return Ok(
            TokenBundle::Success(
                TokenValues {
                    access,
                    refresh: String::new(),
                    account,
                    expires_at_unix_ms,
                    preserve_refresh: true,
                },
            ),
        );
    }
    Ok(
        TokenBundle::Success(
            TokenValues { access, refresh, account, expires_at_unix_ms, preserve_refresh: false },
        ),
    )
}

/// Whether a refused refresh names an invalid grant.
pub open spec fn names_invalid_grant(body: Seq<u8>) -> bool {
    match json_document(body) {
        Some(document) => json_str(json_get(Some(document), "error"@)) == Some("invalid_grant"@),
        None => false,
    }
}

/// The outcome of a refresh that the token endpoint refused with a bad
/// request: an invalid grant, or the provider unavailable.
pub fn refresh_rejection(body: &[u8]) -> (r: Result<TokenBundle, PublicError>)
    ensures
        names_invalid_grant(body@) ==> r matches Ok(TokenBundle::InvalidGrant),
        !names_invalid_grant(body@) ==> r == Err::<TokenBundle, PublicError>(
            PublicError::ProviderUnavailable,
        ),
{
    let invalid_grant = match parse_json(body) {
        Some(document) => match str_in(document.get("error")) {
            Some(error) => string_eq_str(error, "invalid_grant"),
            None => false,
        },
        None => false,
    };
    if invalid_grant {
        Ok(TokenBundle::InvalidGrant)
    } else {
        Err(PublicError::ProviderUnavailable)
    }
}

/// The current time in milliseconds since the Unix epoch; `Err` where the
/// clock is before the epoch or the value does not fit. Calls
/// `std::time::SystemTime::now`; of the value only that it is not negative
/// (a duration since the epoch) is promised.
#[verifier::external_body]
pub fn unix_now_ms() -> (r: Result<i64, ()>)
    ensures
        r matches Ok(v) ==> v >= 0,
{
    let duration = std::time::SystemTime::now()
        .duration_since(std::time::UNIX_EPOCH)
        .map_err(|_| ())?;
    i64::try_from(duration.as_millis()).map_err(|_| ())
}

/// Law: a token document that carries a non-empty refresh token hands on
/// exactly that refresh token, and never asks to keep the stored one,
/// whether it answers a first connection or a refresh; its access token and
/// account go along with it.
pub proof fn lemma_new_refresh_token_replaces_the_stored_one(
    document: JsonValue,
    persistence: TokenPersistence,
    now_unix_ms: Option<i64>,
    access: Seq<char>,
    refresh: Seq<char>,
    id_token: Seq<char>,
    account: Seq<char>,
)
    requires
        json_str(json_get(Some(document), "access_token"@)) == Some(access),
        json_str(json_get(Some(document), "refresh_token"@)) == Some(refresh),
        refresh.len() > 0,
        json_str(json_get(Some(document), "id_token"@)) == Some(id_token),
        account_id_spec(id_token) == Ok::<Seq<char>, PublicError>(account),
    ensures
        token_document_spec(document, persistence, now_unix_ms) matches Ok(f) && f.refresh
            == refresh && !f.preserve_refresh && f.access == access && f.account == account,
{
}

/// Law: a token document without a refresh token, or with an empty one,
/// keeps the stored refresh token on a refresh and is refused for a first
/// connection.
pub proof fn lemma_missing_refresh_token_keeps_the_stored_one(
    document: JsonValue,
    now_unix_ms: Option<i64>,
)
    requires
        json_str(json_get(Some(document), "refresh_token"@)) matches Some(r) ==> r.len() == 0,
    ensures
        token_document_spec(document, TokenPersistence::Initial, now_unix_ms) is Err,
        token_document_spec(document, TokenPersistence::Rotation, now_unix_ms) matches Ok(f) ==> f.preserve_refresh
            && f.refresh.len() == 0,
{
}

} // verus!
