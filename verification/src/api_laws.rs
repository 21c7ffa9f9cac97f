//! What requests are answered, told on their headers and bodies.

use vstd::prelude::*;
use vstd::utf8::{encode_utf8, encode_utf8_decode_utf8, encode_utf8_valid_utf8, valid_utf8};

use axum::http::{HeaderMap, HeaderValue};

use crate::api::{
    added, ascii_text, carries_token, first_values, format_of, header_text, is_visible, limit_for,
    low_bits, planned, refusal, unauthorized, AddRequest, Added, ApiError, BodyFormat,
};
use crate::store::AddPlan;
use crate::text::{starts_with, utf8_error};
use crate::text_laws::{
    is_bare, is_blank, law_blank_is_trimmed_away, law_starts_with, law_trim_takes_blank_off,
};

verus! {

/// Whether the first value of the header `name` is `text`, all in visible ASCII
/// characters, spaces and tabs.
pub open spec fn has_header(
    headers: HeaderMap<HeaderValue>,
    name: Seq<char>,
    text: Seq<char>,
) -> bool {
    &&& first_values(headers).contains_key(name)
    &&& first_values(headers)[name].len() == text.len()
    &&& forall|i: int|
        0 <= i < text.len() ==> {
            let byte = first_values(headers)[name][i];
            (32 <= byte < 127 || byte == 9) && byte as int == #[trigger] text[i] as int
        }
}

proof fn lemma_header_text(headers: HeaderMap<HeaderValue>, name: Seq<char>, text: Seq<char>)
    ensures
        has_header(headers, name, text) <==> header_text(headers, name) == Some(text),
{
    let bytes = first_values(headers)[name];
    if has_header(headers, name, text) {
        assert forall|i: int| 0 <= i < bytes.len() implies 32 <= #[trigger] bytes[i] < 127
            || bytes[i] == 9 by {
            assert(text[i] as int == bytes[i] as int);
        }
        assert forall|i: int| 0 <= i < bytes.len() implies #[trigger] ascii_text(bytes)[i]
            == text[i] by {
            assert(text[i] as int == bytes[i] as int);
        }
        assert(ascii_text(bytes) =~= text);
    }
    if header_text(headers, name) == Some(text) {
        assert forall|i: int| 0 <= i < text.len() implies (32 <= bytes[i] < 127 || bytes[i] == 9)
            && bytes[i] as int == #[trigger] text[i] as int by {
            assert(ascii_text(bytes)[i] == text[i]);
            assert(is_visible(bytes));
        }
    }
}

/// A request carries the token exactly if one of two headers holds it: the one
/// behind the word `Bearer` and a space, the other alone.
pub proof fn law_token_is_in_either_header(headers: HeaderMap<HeaderValue>, token: Seq<char>)
    ensures
        carries_token(headers, token) <==> has_header(
            headers,
            "authorization"@,
            "Bearer "@ + token,
        ) || has_header(headers, "x-pwsh-history-token"@, token),
{
    lemma_header_text(headers, "authorization"@, "Bearer "@ + token);
    lemma_header_text(headers, "x-pwsh-history-token"@, token);
}

/// Whether the content type of a request begins with the one of JSON.
pub open spec fn is_json(headers: HeaderMap<HeaderValue>) -> bool {
    exists|rest: Seq<char>| #[trigger]
        has_header(headers, "content-type"@, "application/json"@ + rest)
}

pub proof fn lemma_format(headers: HeaderMap<HeaderValue>)
    ensures
        format_of(header_text(headers, "content-type"@)) == if is_json(headers) {
            BodyFormat::Json
        } else {
            BodyFormat::Text
        },
{
    let name = "content-type"@;
    let start = "application/json"@;
    if is_json(headers) {
        let rest = choose|rest: Seq<char>| #[trigger] has_header(headers, name, start + rest);
        lemma_header_text(headers, name, start + rest);
        law_starts_with(start, rest, start + rest);
    } else {
        if let Some(text) = header_text(headers, name) {
            if starts_with(text, start) {
                law_starts_with(start, text, text);
                let rest = text.skip(start.len() as int);
                lemma_header_text(headers, name, start + rest);
                assert(has_header(headers, name, start + rest));
            }
        }
    }
}

/// A request without the token is refused, whatever else it holds.
pub proof fn law_request_without_token_is_refused(
    headers: HeaderMap<HeaderValue>,
    token: Seq<char>,
    bytes: Seq<u8>,
    json: Result<AddRequest, String>,
)
    requires
        !has_header(headers, "authorization"@, "Bearer "@ + token),
        !has_header(headers, "x-pwsh-history-token"@, token),
    ensures
        added(headers, token, bytes, json) == Err::<Added, (u16, Seq<char>)>(
            (401u16, "unauthorized"@),
        ),
{
    law_token_is_in_either_header(headers, token);
}

/// A command that is sent as JSON is added without the white space around it,
/// with the directory as it was sent. A blank one, and a body that cannot be
/// read, are refused.
pub proof fn law_json_request(
    headers: HeaderMap<HeaderValue>,
    token: Seq<char>,
    bytes: Seq<u8>,
    json: Result<AddRequest, String>,
    a: Seq<char>,
    command: Seq<char>,
    b: Seq<char>,
)
    requires
        has_header(headers, "authorization"@, "Bearer "@ + token) || has_header(
            headers,
            "x-pwsh-history-token"@,
            token,
        ),
        is_json(headers),
        is_blank(a),
        is_bare(command),
        is_blank(b),
    ensures
        json matches Ok(request) ==> {
            let res = added(headers, token, bytes, json);
            &&& request.command@ == a + command + b ==> {
                &&& res matches Ok(new) && new.command == command && (new.cwd is None
                    <==> request.cwd is None) && (request.cwd matches Some(dir) ==> new.cwd == Some(
                    dir@,
                ))
            }
            &&& is_blank(request.command@) ==> res == Err::<Added, (u16, Seq<char>)>(
                (400u16, "command is empty"@),
            )
        },
        json matches Err(reason) ==> added(headers, token, bytes, json) == Err::<
            Added,
            (u16, Seq<char>),
        >((400u16, "invalid json body: "@ + reason@)),
{
    law_token_is_in_either_header(headers, token);
    lemma_format(headers);
    law_trim_takes_blank_off(a, command, b);
    if let Ok(request) = json {
        if is_blank(request.command@) {
            law_blank_is_trimmed_away(request.command@);
        }
    }
}

/// A command that is sent as text is added without the white space around it,
/// and without a directory. A blank one, and a body that is not in UTF-8, are
/// refused.
pub proof fn law_text_request(
    headers: HeaderMap<HeaderValue>,
    token: Seq<char>,
    bytes: Seq<u8>,
    json: Result<AddRequest, String>,
    a: Seq<char>,
    command: Seq<char>,
    b: Seq<char>,
)
    requires
        has_header(headers, "authorization"@, "Bearer "@ + token) || has_header(
            headers,
            "x-pwsh-history-token"@,
            token,
        ),
        !is_json(headers),
        is_blank(a),
        is_bare(command),
        is_blank(b),
    ensures
        added(headers, token, encode_utf8(a + command + b), json) == Ok::<Added, (u16, Seq<char>)>(
            Added { command, cwd: None },
        ),
        added(headers, token, encode_utf8(a), json) == Err::<Added, (u16, Seq<char>)>(
            (400u16, "command is empty"@),
        ),
        !valid_utf8(bytes) ==> added(headers, token, bytes, json) == Err::<
            Added,
            (u16, Seq<char>),
        >((400u16, "request body is not utf-8: "@ + utf8_error(bytes))),
{
    law_token_is_in_either_header(headers, token);
    lemma_format(headers);
    law_trim_takes_blank_off(a, command, b);
    law_blank_is_trimmed_away(a);
    encode_utf8_valid_utf8(a + command + b);
    encode_utf8_decode_utf8(a + command + b);
    encode_utf8_valid_utf8(a);
    encode_utf8_decode_utf8(a);
}

/// A plan holds the command, the directory and the milliseconds of the clock as
/// they are, the latter as a signed number of 64 bits. A clock that does not
/// tell the time is the server's error.
pub proof fn law_plan_holds_what_is_added(
    new: Added,
    clock: Result<u128, String>,
    res: Result<AddPlan, ApiError>,
)
    requires
        planned(new, clock, res),
    ensures
        clock matches Ok(millis) ==> {
            &&& res matches Ok(plan) && plan.command@ == new.command && (plan.cwd is None
                <==> new.cwd is None) && (plan.cwd matches Some(dir) ==> new.cwd == Some(dir@)) && (
            millis - plan.now) % 0x1_0000_0000_0000_0000 == 0 && (millis < 0x8000_0000_0000_0000
                ==> plan.now == millis)
        },
        clock matches Err(reason) ==> res matches Err(error) && error.status == 500
            && error.message@ == reason@,
{
    if let Ok(millis) = clock {
        law_low_bits(millis);
    }
}

/// The low bits of a number differ from it by a multiple of two to the power of
/// 64, and are the number itself where it fits.
pub proof fn law_low_bits(n: u128)
    ensures
        -0x8000_0000_0000_0000 <= low_bits(n) < 0x8000_0000_0000_0000,
        (n - low_bits(n)) % 0x1_0000_0000_0000_0000 == 0,
        n < 0x8000_0000_0000_0000 ==> low_bits(n) == n,
{
}

/// The status and the message of an error are those that it holds.
pub proof fn law_refusal(error: ApiError)
    ensures
        refusal(error).0 == error.status,
        refusal(error).1 == error.message@,
{
}

/// A limit that is asked for is kept where it lies from 1 to 500; beyond, the
/// nearer end is taken, and 100 where none is asked for.
pub proof fn law_limits(n: i64)
    ensures
        limit_for(None) == 100,
        1 <= n <= 500 ==> limit_for(Some(n)) == n,
        n < 1 ==> limit_for(Some(n)) == 1,
        n > 500 ==> limit_for(Some(n)) == 500,
{
}

} // verus!
