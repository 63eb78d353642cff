//! The headers of every request.
use crate::config::SystemSettings;
use vstd::prelude::*;

verus! {

/// A table of headers, of the HTTP library.
#[verifier::external_type_specification]
#[verifier::external_body]
#[verifier::reject_recursive_types(T)]
pub struct ExHeaderMap<T>(http::HeaderMap<T>);

/// The value of a header, of the HTTP library.
#[verifier::external_type_specification]
#[verifier::external_body]
pub struct ExHeaderValue(http::HeaderValue);

/// What a table of headers holds: for each name, in lower case, its value.
pub uninterp spec fn headers_held(headers: http::HeaderMap<http::HeaderValue>) -> Map<
    Seq<char>,
    Seq<char>,
>;

/// Whether a character may stand in the value of a header.
pub open spec fn is_value_char(c: char) -> bool {
    c == '\t' || (c >= ' ' && c != '\u{7f}')
}

/// Whether a text may be the value of a header.
pub open spec fn is_header_value(text: Seq<char>) -> bool {
    forall|i: int| 0 <= i < text.len() ==> is_value_char(#[trigger] text[i])
}

/// Whether a character may stand in the name of a header, as far as this library uses them.
pub open spec fn is_name_char(c: char) -> bool {
    'a' <= c <= 'z' || 'A' <= c <= 'Z' || c == '-'
}

/// A character in lower case.
pub open spec fn lower(c: char) -> char {
    if 'A' <= c <= 'Z' {
        (c as u32 + 32) as char
    } else {
        c
    }
}

/// A text in lower case.
pub open spec fn lowered(text: Seq<char>) -> Seq<char> {
    text.map_values(|c: char| lower(c))
}

/// Calls `http::HeaderMap::new`, which gives a table that holds nothing.
#[verifier::external_body]
fn new_headers() -> (headers: http::HeaderMap<http::HeaderValue>)
    ensures
        headers_held(headers).is_empty(),
{
    http::HeaderMap::new()
}

/// Calls `http::HeaderMap::insert`, with the value that `http::HeaderValue::from_str` makes of
/// a text. A text with control characters other than the tab is refused, always with the same
/// words, and the table stays as it is. Any other text becomes the one value under the name,
/// which is kept in lower case. The name has to be short and made of letters and hyphens, and
/// the table small, since the call panics on names that are none and on tables that are full.
#[verifier::external_body]
fn insert_header(
    headers: &mut http::HeaderMap<http::HeaderValue>,
    name: &'static str,
    value: &str,
) -> (res: Result<(), String>)
    requires
        0 < name@.len() <= 64,
        forall|i: int| 0 <= i < name@.len() ==> is_name_char(#[trigger] name@[i]),
        headers_held(*old(headers)).dom().finite(),
        headers_held(*old(headers)).dom().len() < 1000,
    ensures
        res is Ok <==> is_header_value(value@),
        res is Ok ==> headers_held(*final(headers)) == headers_held(*old(headers)).insert(
            lowered(name@),
            value@,
        ),
        res is Err ==> headers_held(*final(headers)) == headers_held(*old(headers)),
        res is Err ==> res->Err_0@ == "failed to parse header value"@,
{
    let value = http::HeaderValue::from_str(value).map_err(|error| error.to_string())?;
    headers.insert(name, value);
    Ok(())
}

/// The headers of every request: who asks, and with which right. Where one of the two cannot
/// be a header, the text says so.
pub fn default_headers(config: &SystemSettings) -> (res: Result<
    http::HeaderMap<http::HeaderValue>,
    String,
>)
    ensures
        res is Ok <==> is_header_value(config.user_agent@) && is_header_value(
            config.discord_token@,
        ),
        res is Ok ==> headers_held(res->Ok_0) == Map::<Seq<char>, Seq<char>>::empty().insert(
            "user-agent"@,
            config.user_agent@,
        ).insert("authorization"@, config.discord_token@),
        res is Err ==> res->Err_0@ == "failed to parse header value"@,
{
    proof {
        reveal_strlit("User-Agent");
        reveal_strlit("user-agent");
        reveal_strlit("Authorization");
        reveal_strlit("authorization");
        assert(lowered("User-Agent"@) =~= "user-agent"@);
        assert(lowered("Authorization"@) =~= "authorization"@);
    }
    let mut headers = new_headers();
    insert_header(&mut headers, "User-Agent", config.user_agent.as_str())?;
    insert_header(&mut headers, "Authorization", config.discord_token.as_str())?;
    Ok(headers)
}

} // verus!
