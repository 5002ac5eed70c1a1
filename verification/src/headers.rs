//! The headers of a response, as the `http` crate holds them.

use vstd::prelude::*;

verus! {

/// `http::HeaderMap`, whose contents `header_fields` names.
#[verifier::external_type_specification]
#[verifier::external_body]
#[verifier::reject_recursive_types(T)]
pub struct ExHeaderMap<T>(http::HeaderMap<T>);

/// `http::HeaderValue`, whose contents `header_bytes` names.
#[verifier::external_type_specification]
#[verifier::external_body]
pub struct ExHeaderValue(http::HeaderValue);

/// `http::header::ToStrError`, which says only that a value is no visible text.
#[verifier::external_type_specification]
#[verifier::external_body]
pub struct ExToStrError(http::header::ToStrError);

/// The fields of a header map: for each name in lower case, its values in order.
pub uninterp spec fn header_fields(headers: http::HeaderMap) -> Map<Seq<char>, Seq<Seq<u8>>>;

/// The bytes of a header value.
pub uninterp spec fn header_bytes(value: http::HeaderValue) -> Seq<u8>;

/// The first value of a field.
pub open spec fn first_value(fields: Map<Seq<char>, Seq<Seq<u8>>>, name: Seq<char>) -> Option<
    Seq<u8>,
> {
    if fields.contains_key(name) && fields[name].len() > 0 {
        Some(fields[name][0])
    } else {
        None
    }
}

/// Whether bytes are visible ASCII text: printable characters and tabs.
pub open spec fn visible_ascii(bytes: Seq<u8>) -> bool {
    forall|i: int| 0 <= i < bytes.len() ==> 32 <= #[trigger] bytes[i] < 127 || bytes[i] == 9
}

/// The characters of ASCII text.
pub open spec fn ascii_chars(bytes: Seq<u8>) -> Seq<char> {
    bytes.map_values(|byte: u8| byte as char)
}

/// The text of a header value, where it is visible ASCII.
pub open spec fn header_text(bytes: Seq<u8>) -> Option<Seq<char>> {
    if visible_ascii(bytes) {
        Some(ascii_chars(bytes))
    } else {
        None
    }
}

/// The entity tag of a response: the first value of `etag`, where it is text.
pub open spec fn etag_text(fields: Map<Seq<char>, Seq<Seq<u8>>>) -> Option<Seq<char>> {
    match first_value(fields, "etag"@) {
        Some(bytes) => header_text(bytes),
        None => None,
    }
}

/// `http::HeaderMap::get` with `http::header::ETAG`: the first value of the field
/// `etag`, or `None` where there is none.
#[verifier::external_body]
fn etag_value(headers: &http::HeaderMap) -> (value: Option<&http::HeaderValue>)
    ensures
        match value {
            Some(found) => first_value(header_fields(*headers), "etag"@) == Some(
                header_bytes(*found),
            ),
            None => first_value(header_fields(*headers), "etag"@) is None,
        },
{
    headers.get(http::header::ETAG)
}

/// `http::HeaderValue::to_str`: the text of the value where all its bytes are
/// visible ASCII, and an error otherwise.
pub assume_specification[ http::HeaderValue::to_str ](value: &http::HeaderValue) -> (text: Result<
    &str,
    http::header::ToStrError,
>)
    ensures
        match text {
            Ok(chars) => header_text(header_bytes(*value)) == Some(chars@),
            Err(_) => header_text(header_bytes(*value)) is None,
        },
;

/// The entity tag of a response, where it has one that is text.
pub fn response_etag(headers: &http::HeaderMap) -> (etag: Option<String>)
    ensures
        match etag {
            Some(text) => etag_text(header_fields(*headers)) == Some(text@),
            None => etag_text(header_fields(*headers)) is None,
        },
{
    match etag_value(headers) {
        Some(value) => match value.to_str() {
            Ok(text) => Some(text.to_string()),
            Err(_) => None,
        },
        None => None,
    }
}

/// The entity tag is the first value of the field `etag`, character by character,
/// where it is there and all its bytes are printable ASCII or tabs; otherwise there
/// is none.
pub proof fn law_etag(fields: Map<Seq<char>, Seq<Seq<u8>>>)
    ensures
        ({
            let values = fields["etag"@];
            let readable = fields.contains_key("etag"@) && values.len() > 0 && forall|i: int|
                0 <= i < values[0].len() ==> #[trigger] values[0][i] == 9 || 32 <= values[0][i]
                    <= 126;
            &&& etag_text(fields) is Some <==> readable
            &&& readable ==> {
                &&& etag_text(fields)->0.len() == values[0].len()
                &&& forall|i: int|
                    0 <= i < values[0].len() ==> #[trigger] etag_text(fields)->0[i]
                        == values[0][i] as char
            }
        }),
{
}

} // verus!
