use vstd::prelude::*;
use vstd::utf8::{decode_utf8, encode_utf8, valid_utf8};

use base64::Engine;

use crate::text::{find_run, first_run, starts_with, text_starts_with, CharClass};

verus! {

/// What base64's `STANDARD` engine decodes `text` to; `None` where it reports an error.
pub uninterp spec fn base64_standard_decoded(text: Seq<u8>) -> Option<Seq<u8>>;

/// What base64's `STANDARD_NO_PAD` engine encodes `data` to.
pub uninterp spec fn base64_unpadded(data: Seq<u8>) -> Seq<char>;

/// Relies on `Engine::decode` of base64's `STANDARD` engine: the bytes that `text` encodes,
/// or an error; the outcome depends on `text` alone.
#[verifier::external_body]
fn decode_standard(text: &str) -> (r: Option<Vec<u8>>)
    ensures
        match r {
            Some(v) => base64_standard_decoded(encode_utf8(text@)) == Some(v@),
            None => base64_standard_decoded(encode_utf8(text@)) is None,
        },
{
    match base64::engine::general_purpose::STANDARD.decode(text) {
        Ok(v) => Some(v),
        Err(_) => None,
    }
}

/// Relies on `Engine::encode` of base64's `STANDARD_NO_PAD` engine, which depends on the bytes
/// alone and panics only where the length of its output overflows a `usize`.
#[verifier::external_body]
fn encode_unpadded(data: &str) -> (r: String)
    requires
        encode_utf8(data@).len() <= isize::MAX,
    ensures
        r@ == base64_unpadded(encode_utf8(data@)),
{
    base64::engine::general_purpose::STANDARD_NO_PAD.encode(data)
}

/// Relies on `String::from_utf8`: the text that `bytes` encode when they are valid UTF-8,
/// an error otherwise.
#[verifier::external_body]
fn utf8_text(bytes: Vec<u8>) -> (r: Option<String>)
    ensures
        r is Some <==> valid_utf8(bytes@),
        r matches Some(s) ==> s@ == decode_utf8(bytes@),
{
    match String::from_utf8(bytes) {
        Ok(s) => Some(s),
        Err(_) => None,
    }
}

pub open spec fn session_marker() -> Seq<char> {
    seq!['S', 'e', 's', 's', 'i', 'o', 'n', '=']
}

pub open spec fn db_tag() -> Seq<char> {
    seq![';', ' ', 'd', 'b', '=']
}

pub open spec fn cookie_texts(cookies: Seq<String>) -> Seq<Seq<char>> {
    cookies.map_values(|c: String| c@)
}

/// The first cookie header that opens a session.
pub open spec fn session_cookie(cs: Seq<Seq<char>>) -> Option<Seq<char>>
    decreases cs.len(),
{
    if cs.len() == 0 {
        None
    } else if starts_with(cs[0], session_marker()) {
        Some(cs[0])
    } else {
        session_cookie(cs.drop_first())
    }
}

/// The letters and digits that follow the first `; db=` of the session cookie.
pub open spec fn session_token(cs: Seq<Seq<char>>) -> Option<Seq<char>> {
    match session_cookie(cs) {
        Some(c) => first_run(c, db_tag(), CharClass::Alphanumeric),
        None => None,
    }
}

/// The stored todo list that a request carries in its cookies.
#[derive(Debug, PartialEq, Eq, Clone)]
pub enum SessionData {
    /// No session cookie, or one without stored data.
    Absent,
    /// The stored data: the JSON text of the store.
    Json(String),
    /// Stored data that is not base64 of UTF-8 text.
    Corrupt,
}

/// The letters and digits after the first `; db=` of the first cookie header value that
/// starts with `Session=`.
pub fn session_token_of(cookies: &Vec<String>) -> (r: Option<&str>)
    ensures
        match r {
            Some(t) => session_token(cookie_texts(cookies@)) == Some(t@),
            None => session_token(cookie_texts(cookies@)) is None,
        },
{
    let marker = "Session=";
    let tag = "; db=";
    proof {
        reveal_strlit("Session=");
        reveal_strlit("; db=");
    }
    assert(marker@ =~= session_marker());
    assert(tag@ =~= db_tag());
    let ghost cs = cookie_texts(cookies@);
    let mut i: usize = 0;
    assert(cs.subrange(0, cs.len() as int) =~= cs);
    while i < cookies.len()
        invariant
            i <= cookies@.len(),
            cs == cookie_texts(cookies@),
            cs.len() == cookies@.len(),
            marker@ == session_marker(),
            tag@ == db_tag(),
            session_cookie(cs) == session_cookie(cs.subrange(i as int, cs.len() as int)),
        decreases cookies@.len() - i,
    {
        let c: &str = cookies[i].as_str();
        let ghost rest = cs.subrange(i as int, cs.len() as int);
        assert(rest[0] == c@);
        assert(rest.drop_first() =~= cs.subrange(i + 1, cs.len() as int));
        if text_starts_with(c, marker) {
            return match find_run(c, tag, CharClass::Alphanumeric) {
                Some((a, b)) => Some(c.substring_char(a, b)),
                None => None,
            };
        }
        i = i + 1;
    }
    None
}

/// Finds the stored todo list in the values of a request's cookie headers: the first value
/// that starts with `Session=` is read, and the base64 after its first `; db=` is decoded.
pub fn session_json(cookies: &Vec<String>) -> (r: SessionData)
    ensures
        match r {
            SessionData::Absent => session_token(cookie_texts(cookies@)) is None,
            SessionData::Json(s) => {
                &&& session_token(cookie_texts(cookies@)) is Some
                &&& base64_standard_decoded(
                    encode_utf8(session_token(cookie_texts(cookies@))->0),
                ) matches Some(b)
                &&& valid_utf8(b)
                &&& s@ == decode_utf8(b)
            },
            SessionData::Corrupt => {
                &&& session_token(cookie_texts(cookies@)) is Some
                &&& match base64_standard_decoded(
                    encode_utf8(session_token(cookie_texts(cookies@))->0),
                ) {
                    Some(b) => !valid_utf8(b),
                    None => true,
                }
            },
        },
{
    match session_token_of(cookies) {
        Some(token) => match decode_standard(token) {
            Some(bytes) => match utf8_text(bytes) {
                Some(s) => SessionData::Json(s),
                None => SessionData::Corrupt,
            },
            None => SessionData::Corrupt,
        },
        None => SessionData::Absent,
    }
}

pub open spec fn cookie_attributes() -> Seq<char> {
    seq![
        ';', ' ', 'S', 'a', 'm', 'e', 'S', 'i', 't', 'e', '=', 'S', 't', 'r', 'i', 'c', 't', ';', ' ',
        'P', 'a', 't', 'h', '=', '/',
    ]
}

/// The `Set-Cookie` value that stores the JSON text of a todo list in the session.
pub fn session_set_cookie(json: &str) -> (r: String)
    requires
        encode_utf8(json@).len() <= isize::MAX,
    ensures
        r@ == seq!['d', 'b', '='] + base64_unpadded(encode_utf8(json@)) + cookie_attributes(),
{
    let head = "db=";
    let tail = "; SameSite=Strict; Path=/";
    proof {
        reveal_strlit("db=");
        reveal_strlit("; SameSite=Strict; Path=/");
    }
    let encoded = encode_unpadded(json);
    let mut r = head.to_owned();
    r.append(encoded.as_str());
    r.append(tail);
    assert(r@ =~= seq!['d', 'b', '='] + base64_unpadded(encode_utf8(json@))
        + cookie_attributes());
    r
}

} // verus!
