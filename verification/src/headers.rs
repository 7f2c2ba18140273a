//! What the headers of an HTTP request say.

use vstd::prelude::*;
use vstd::slice::slice_subrange;

use crate::text::{
    all_of, chars_of, equal, first_piece, is_white_space, lemma_first_piece, lemma_first_piece_ends,
    lemma_first_piece_len, lower, lower_text, lowered_text, occurs, opt_text, split, text_of, trim,
    trim_keeps_the_middle, trimmed, CharClass,
};

verus! {

/// `http::HeaderMap`, a map from header names to lists of values.
#[verifier::external_type_specification]
#[verifier::external_body]
#[verifier::reject_recursive_types(T)]
pub struct ExHeaderMap<T>(http::HeaderMap<T>);

/// `http::HeaderValue`, the bytes of a header's value.
#[verifier::external_type_specification]
#[verifier::external_body]
pub struct ExHeaderValue(http::HeaderValue);

/// The headers in a map: under each name, in lower case, the values that it
/// has, in order.
pub uninterp spec fn header_values(headers: http::HeaderMap<http::HeaderValue>) -> Map<
    Seq<char>,
    Seq<Seq<u8>>,
>;

/// The bytes that a header value shown as text consists of: the printable ASCII
/// characters and the tab.
pub open spec fn is_printable(b: u8) -> bool {
    b == 9 || 32 <= b < 127
}

/// The first value of a header, as text: none where the header is absent or
/// where a byte of that value is not printable.
pub open spec fn header_text(values: Map<Seq<char>, Seq<Seq<u8>>>, name: Seq<char>) -> Option<
    Seq<char>,
> {
    if values.contains_key(name) && values[name].len() > 0 && values[name][0].all(
        |b: u8| is_printable(b),
    ) {
        Some(values[name][0].map_values(|b: u8| b as char))
    } else {
        None
    }
}

/// Is this the name of a header, in lower case?
pub open spec fn is_header_name(name: Seq<char>) -> bool {
    name.all(|c: char| 'a' <= c <= 'z' || c == '-')
}

/// `http::HeaderMap::get` and `http::HeaderValue::to_str`: the first value of a
/// header, where it has one and its bytes are printable. The map compares names
/// in lower case, so the name is to be given so.
#[verifier::external_body]
pub(crate) fn first_value(headers: &http::HeaderMap<http::HeaderValue>, name: &str) -> (r: Option<String>)
    requires
        is_header_name(name@),
    ensures
        opt_text(r) == header_text(header_values(*headers), name@),
{
    headers.get(name).and_then(|v| v.to_str().ok()).map(|s| s.to_string())
}

/// The token in an `Authorization` header. What stands before the first space
/// is the scheme, which is to be `bearer` in any letter case; the token is the
/// rest without white space around it, and is not empty.
pub open spec fn bearer(value: Seq<char>) -> Option<Seq<char>> {
    let scheme = split(value, ' ')[0];
    let token = trim(value.skip(scheme.len() as int + 1), CharClass::Space);
    if value.contains(' ') && lower_text(scheme) == "bearer"@ && token.len() > 0 {
        Some(token)
    } else {
        None
    }
}

/// The token in an `Authorization` header.
pub fn bearer_token(value: &str) -> (r: Option<String>)
    ensures
        opt_text(r) == bearer(value@),
{
    let v = chars_of(value);
    if !occurs(v.as_slice(), ' ') {
        return None;
    }
    let end: usize = v.len();
    let scheme = first_piece(v.as_slice(), ' ');
    proof {
        let i = choose|i: int| 0 <= i < v@.len() && v@[i] == ' ';
        lemma_first_piece_len(v@, ' ', i);
    }
    let word = chars_of("bearer");
    let rest = slice_subrange(v.as_slice(), scheme.len() + 1, end);
    assert(rest@ =~= value@.skip(scheme@.len() as int + 1));
    let token = trimmed(rest, CharClass::Space);
    if equal(lowered_text(scheme).as_slice(), word.as_slice()) && token.len() > 0 {
        Some(text_of(token))
    } else {
        None
    }
}

/// The token for a request: the caller's own where the `Authorization` header
/// holds one, else the fallback.
pub open spec fn token_for(authorization: Option<Seq<char>>, fallback: Seq<char>) -> Seq<char> {
    match authorization {
        Some(value) => match bearer(value) {
            Some(token) => token,
            None => fallback,
        },
        None => fallback,
    }
}

/// The token for a request with the given `Authorization` header.
pub fn token_from(authorization: Option<String>, fallback: &str) -> (r: String)
    ensures
        r@ == token_for(opt_text(authorization), fallback@),
{
    match authorization {
        Some(value) => match bearer_token(value.as_str()) {
            Some(token) => token,
            None => fallback.to_owned(),
        },
        None => fallback.to_owned(),
    }
}

/// Caller identity for one request: the client's own `Authorization: Bearer`
/// token when present, else the server-wide fallback.
pub fn request_token(headers: &http::HeaderMap<http::HeaderValue>, fallback: &str) -> (r: String)
    ensures
        r@ == token_for(header_text(header_values(*headers), "authorization"@), fallback@),
{
    proof {
        reveal_strlit("authorization");
    }
    token_from(first_value(headers, "authorization"), fallback)
}

// ---------- laws ----------

/// A caller's token wins over any fallback, and without one the fallback
/// stands, whatever else the header holds.
pub proof fn caller_token_wins(authorization: Option<Seq<char>>, fallback: Seq<char>)
    ensures
        authorization matches Some(value) && bearer(value) is Some ==> token_for(
            authorization,
            fallback,
        ) == bearer(authorization->0)->0,
        authorization is None || bearer(authorization->0) is None ==> token_for(
            authorization,
            fallback,
        ) == fallback,
{
}

/// A header with another scheme, or with no token, falls back.
pub proof fn malformed_authorization_falls_back(value: Seq<char>, fallback: Seq<char>)
    requires
        lower_text(split(value, ' ')[0]) != "bearer"@ || !value.contains(' ') || trim(
            value.skip(split(value, ' ')[0].len() as int),
            CharClass::Space,
        ).len() == 0,
    ensures
        token_for(Some(value), fallback) == fallback,
{
    let scheme = split(value, ' ')[0];
    if value.contains(' ') {
        let i = choose|i: int| 0 <= i < value.len() && value[i] == ' ';
        lemma_first_piece_len(value, ' ', i);
        lemma_first_piece_ends(value, ' ');
        let rest = value.skip(scheme.len() as int);
        assert(rest.drop_first() =~= value.skip(scheme.len() as int + 1));
        assert(is_white_space(rest[0]));
    }
}

/// A token from the header is never empty, so an empty token means that neither
/// the caller nor the fallback gave one.
pub proof fn empty_token_is_the_fallback(authorization: Option<Seq<char>>, fallback: Seq<char>)
    requires
        token_for(authorization, fallback).len() == 0,
    ensures
        fallback.len() == 0,
        authorization is None || bearer(authorization->0) is None,
{
}

/// `Bearer`, a space and a token without white space at its ends is read as that
/// token, in whatever letter case the scheme is written.
pub proof fn bearer_reads_back(scheme: Seq<char>, token: Seq<char>)
    requires
        lower_text(scheme) == "bearer"@,
        token.len() > 0,
        trim(token, CharClass::Space) == token,
    ensures
        bearer(scheme.push(' ') + token) == Some(token),
{
    let value = scheme.push(' ') + token;
    reveal_strlit("bearer");
    assert(lower_text(scheme).len() == 6);
    assert(!"bearer"@.contains(' '));
    assert(value[scheme.len() as int] == ' ');
    assert forall|j: int| 0 <= j < scheme.len() implies value[j] != ' ' by {
        assert("bearer"@[j] == lower(scheme[j]));
        assert(value[j] == scheme[j]);
    }
    lemma_first_piece(value, ' ', scheme.len() as int);
    assert(value.take(scheme.len() as int) =~= scheme);
    assert(value.skip(scheme.len() as int + 1) =~= token);
}

/// The text of a header is its first value, byte for byte, where all its bytes are
/// printable ASCII characters or tabs; otherwise, or without a value, there is none.
pub proof fn header_texts_are_first_values(
    values: Map<Seq<char>, Seq<Seq<u8>>>,
    name: Seq<char>,
)
    ensures
        header_text(values, name) is Some <==> values.contains_key(name) && values[name].len() > 0
            && forall|i: int|
            0 <= i < values[name][0].len() ==> (#[trigger] values[name][0][i]) == 9 || 32
                <= values[name][0][i] <= 126,
        header_text(values, name) matches Some(text) ==> text.len() == values[name][0].len()
            && forall|i: int|
            0 <= i < text.len() ==> (#[trigger] text[i]) as int == values[name][0][i] as int,
{
    if values.contains_key(name) && values[name].len() > 0 {
        let first = values[name][0];
        let pred = |b: u8| is_printable(b);
        if forall|i: int|
            0 <= i < first.len() ==> (#[trigger] first[i]) == 9 || 32 <= first[i] <= 126 {
            assert forall|i: int| 0 <= i < first.len() implies #[trigger] pred(first[i]) by {}
            assert(first.all(pred));
        }
        if first.all(pred) {
            assert forall|i: int| 0 <= i < first.len() implies (#[trigger] first[i]) == 9 || 32
                <= first[i] <= 126 by {
                assert(pred(first[i]));
            }
        }
    }
}

/// A caller's token is passed on character for character: after the scheme `bearer` in
/// any letter case and a space, with or without white space around the token,
/// whatever the fallback.
pub proof fn caller_tokens_are_kept(
    scheme: Seq<char>,
    front: Seq<char>,
    token: Seq<char>,
    back: Seq<char>,
    fallback: Seq<char>,
)
    requires
        lower_text(scheme) == "bearer"@,
        all_of(front, CharClass::Space),
        all_of(back, CharClass::Space),
        token.len() > 0,
        !is_white_space(token[0]),
        !is_white_space(token.last()),
    ensures
        token_for(Some(scheme + seq![' '] + front + token + back), fallback) == token,
{
    let rest = front + token + back;
    let value = scheme.push(' ') + rest;
    assert(scheme + seq![' '] + front + token + back =~= value);
    reveal_strlit("bearer");
    assert(lower_text(scheme).len() == 6);
    assert(value[scheme.len() as int] == ' ');
    assert forall|j: int| 0 <= j < scheme.len() implies value[j] != ' ' by {
        assert("bearer"@[j] == lower(scheme[j]));
        assert(value[j] == scheme[j]);
    }
    lemma_first_piece(value, ' ', scheme.len() as int);
    assert(value.take(scheme.len() as int) =~= scheme);
    assert(value.skip(scheme.len() as int + 1) =~= rest);
    trim_keeps_the_middle(front, token, back, CharClass::Space);
}

/// Without the header the fallback stands.
pub proof fn absent_authorization_falls_back(fallback: Seq<char>)
    ensures
        token_for(None, fallback) == fallback,
{
}

} // verus!
