//! What the HTTP interface accepts and what it answers.

use vstd::prelude::*;
use vstd::utf8::{
    decode_utf8, encode_utf8, encode_utf8_decode_utf8, encode_utf8_valid_utf8, valid_utf8,
};

use axum::http::{HeaderMap, HeaderValue};

use crate::config::opt_text;
use crate::store::{add_plan, search_plan, searches, AddPlan, SearchPlan, ADD_COMMAND};
use crate::text::{
    begins, law_trim_twice, same, starts_with, text_from_utf8, trim, trimmed, utf8_error,
};

verus! {

/// The answer to a request that failed: an HTTP status and a message.
#[derive(Debug)]
pub struct ApiError {
    pub status: u16,
    pub message: String,
}

/// A command to add, and the directory that it was run from, if that is known.
#[derive(Debug)]
pub struct AddRequest {
    pub command: String,
    pub cwd: Option<String>,
}

/// A search for commands: how they begin, how many of them, and the directory
/// that they were last run from, if only those of one directory are wanted.
#[derive(Debug)]
pub struct SearchQuery {
    pub prefix: String,
    pub limit: Option<i64>,
    pub cwd: Option<String>,
}

/// How the body of a request is to be read.
#[derive(Debug, PartialEq, Eq, Structural, Clone, Copy)]
pub enum BodyFormat {
    /// An object with the member `command` and, if it likes, `cwd`.
    Json,
    /// The command itself, in UTF-8.
    Text,
}

/// The map of headers of a request.
#[verifier::external_type_specification]
#[verifier::external_body]
#[verifier::reject_recursive_types(T)]
pub struct ExHeaderMap<T>(HeaderMap<T>);

/// The value of a header.
#[verifier::external_type_specification]
#[verifier::external_body]
pub struct ExHeaderValue(HeaderValue);

/// The headers that a map holds: for each name, in lower case, the bytes of the
/// first value.
pub uninterp spec fn first_values(headers: HeaderMap<HeaderValue>) -> Map<Seq<char>, Seq<u8>>;

/// The bytes of a header's value.
pub uninterp spec fn value_bytes(value: HeaderValue) -> Seq<u8>;

/// Whether `name` is written with lower-case letters and hyphens only, and no
/// longer than 64 characters.
pub open spec fn is_header_name(name: Seq<char>) -> bool {
    &&& 0 < name.len() <= 64
    &&& forall|i: int| 0 <= i < name.len() ==> 'a' <= #[trigger] name[i] <= 'z' || name[i] == '-'
}

/// Whether all of `bytes` are visible ASCII characters, spaces or tabs.
pub open spec fn is_visible(bytes: Seq<u8>) -> bool {
    forall|i: int| 0 <= i < bytes.len() ==> 32 <= #[trigger] bytes[i] < 127 || bytes[i] == 9
}

/// ASCII bytes as characters.
pub open spec fn ascii_text(bytes: Seq<u8>) -> Seq<char> {
    Seq::new(bytes.len(), |i: int| bytes[i] as char)
}

/// The header `name` as text, if it is there and visible.
pub open spec fn header_text(headers: HeaderMap<HeaderValue>, name: Seq<char>) -> Option<Seq<char>> {
    let values = first_values(headers);
    if values.contains_key(name) && is_visible(values[name]) {
        Some(ascii_text(values[name]))
    } else {
        None
    }
}

/// `HeaderMap::get`: the first value of the header `name`, if it has any. Names
/// are kept and looked up in lower case.
#[verifier::external_body]
fn get_header<'a>(headers: &'a HeaderMap<HeaderValue>, name: &str) -> (res: Option<&'a HeaderValue>)
    requires
        is_header_name(name@),
    ensures
        match res {
            Some(value) => first_values(*headers).contains_key(name@) && first_values(
                *headers,
            )[name@] == value_bytes(*value),
            None => !first_values(*headers).contains_key(name@),
        },
{
    headers.get(name)
}

/// `HeaderValue::to_str`: the value as text if all its bytes are visible ASCII
/// characters, spaces or tabs, and an error, here `None`, otherwise.
#[verifier::external_body]
fn value_text(value: &HeaderValue) -> (res: Option<&str>)
    ensures
        match res {
            Some(text) => is_visible(value_bytes(*value)) && text@ == ascii_text(
                value_bytes(*value),
            ),
            None => !is_visible(value_bytes(*value)),
        },
{
    value.to_str().ok()
}

/// `SystemTime::elapsed` of the Unix epoch: the milliseconds since then, or
/// why the clock does not tell. Nothing is said of either.
#[verifier::external_body]
fn clock_millis() -> (res: Result<u128, String>) {
    match std::time::UNIX_EPOCH.elapsed() {
        Ok(elapsed) => Ok(elapsed.as_millis()),
        Err(error) => Err(error.to_string()),
    }
}

/// The text that an optional string slice holds.
pub open spec fn opt_str(value: Option<&str>) -> Option<Seq<char>> {
    match value {
        Some(s) => Some(s@),
        None => None,
    }
}

/// Whether one of two headers carries `token`: `Authorization` behind the word
/// `Bearer`, or `X-Pwsh-History-Token` alone.
pub open spec fn is_authorized(
    authorization: Option<Seq<char>>,
    custom: Option<Seq<char>>,
    token: Seq<char>,
) -> bool {
    authorization == Some("Bearer "@ + token) || custom == Some(token)
}

/// Whether a request with `headers` carries `token`.
pub open spec fn carries_token(headers: HeaderMap<HeaderValue>, token: Seq<char>) -> bool {
    is_authorized(
        header_text(headers, "authorization"@),
        header_text(headers, "x-pwsh-history-token"@),
        token,
    )
}

/// The format that a content type stands for. Only what begins with
/// `application/json` is JSON.
pub open spec fn format_of(content_type: Option<Seq<char>>) -> BodyFormat {
    match content_type {
        Some(s) if starts_with(s, "application/json"@) => BodyFormat::Json,
        _ => BodyFormat::Text,
    }
}

/// What an answer comes down to: a text, or a status and a message.
pub open spec fn outcome(res: Result<String, ApiError>) -> Result<Seq<char>, (u16, Seq<char>)> {
    match res {
        Ok(text) => Ok(text@),
        Err(error) => Err(refusal(error)),
    }
}

/// A command and the directory that it was run from.
pub struct Added {
    pub command: Seq<char>,
    pub cwd: Option<Seq<char>>,
}

impl View for AddRequest {
    type V = Added;

    open spec fn view(&self) -> Added {
        Added { command: self.command@, cwd: opt_text(self.cwd) }
    }
}

/// What an answer to a request to add comes down to.
pub open spec fn add_outcome(res: Result<AddRequest, ApiError>) -> Result<Added, (u16, Seq<char>)> {
    match res {
        Ok(request) => Ok(request@),
        Err(error) => Err(refusal(error)),
    }
}

/// The status and the message of an error.
pub open spec fn refusal(error: ApiError) -> (u16, Seq<char>) {
    (error.status, error.message@)
}

/// The answer to a request without the token.
pub open spec fn unauthorized() -> (u16, Seq<char>) {
    (401u16, "unauthorized"@)
}

/// What a body asks to add. `json` is what the body holds as JSON, or the
/// reason why it holds nothing; it counts only for a body in that format. A
/// body in plain text is a command without a directory.
pub open spec fn body_request(
    format: BodyFormat,
    bytes: Seq<u8>,
    json: Result<AddRequest, String>,
) -> Result<Added, (u16, Seq<char>)> {
    match format {
        BodyFormat::Json => match json {
            Ok(request) => Ok(request@),
            Err(reason) => Err((400u16, "invalid json body: "@ + reason@)),
        },
        BodyFormat::Text => if valid_utf8(bytes) {
            Ok(Added { command: decode_utf8(bytes), cwd: None })
        } else {
            Err((400u16, "request body is not utf-8: "@ + utf8_error(bytes)))
        },
    }
}

/// The command in a text: the text without the white space around it. A blank
/// text holds none.
pub open spec fn command_in(text: Seq<char>) -> Result<Seq<char>, (u16, Seq<char>)> {
    if trimmed(text).len() == 0 {
        Err((400u16, "command is empty"@))
    } else {
        Ok(trimmed(text))
    }
}

/// What a request adds to the history: a command without the white space
/// around it, and the directory as it was sent.
pub open spec fn added(
    headers: HeaderMap<HeaderValue>,
    token: Seq<char>,
    bytes: Seq<u8>,
    json: Result<AddRequest, String>,
) -> Result<Added, (u16, Seq<char>)> {
    if carries_token(headers, token) {
        match body_request(format_of(header_text(headers, "content-type"@)), bytes, json) {
            Ok(request) => match command_in(request.command) {
                Ok(command) => Ok(Added { command, cwd: request.cwd }),
                Err(error) => Err(error),
            },
            Err(error) => Err(error),
        }
    } else {
        Err(unauthorized())
    }
}

/// A command in the history never is empty, nor does white space stand around
/// it.
pub proof fn law_added_command_is_trimmed(
    headers: HeaderMap<HeaderValue>,
    token: Seq<char>,
    bytes: Seq<u8>,
    json: Result<AddRequest, String>,
)
    ensures
        added(headers, token, bytes, json) matches Ok(new) ==> new.command.len() > 0 && trimmed(
            new.command,
        ) == new.command,
{
    if let Ok(request) = body_request(
        format_of(header_text(headers, "content-type"@)),
        bytes,
        json,
    ) {
        law_trim_twice(request.command);
    }
}

/// A body in UTF-8 is read as the text that it encodes.
pub proof fn law_text_body_is_read_back(text: Seq<char>, json: Result<AddRequest, String>)
    ensures
        body_request(BodyFormat::Text, encode_utf8(text), json) == Ok::<Added, (u16, Seq<char>)>(
            Added { command: text, cwd: None },
        ),
{
    encode_utf8_valid_utf8(text);
    encode_utf8_decode_utf8(text);
}

/// The number of commands to search for: 100 unless asked otherwise, and
/// always from 1 to 500.
pub open spec fn limit_for(limit: Option<i64>) -> i64 {
    match limit {
        None => 100,
        Some(n) => if n < 1 {
            1
        } else if n > 500 {
            500
        } else {
            n
        },
    }
}

/// The low 64 bits of `n` as a signed number.
pub open spec fn low_bits(n: u128) -> int {
    let low = n as int % 0x1_0000_0000_0000_0000;
    if low < 0x8000_0000_0000_0000 {
        low
    } else {
        low - 0x1_0000_0000_0000_0000
    }
}

/// Whether the system's clock, when it is read, can tell `clock`.
pub closed spec fn told_by_clock(clock: Result<u128, String>) -> bool {
    call_ensures(clock_millis, (), clock)
}

/// Whether `res` is the plan to add `new` at the time that `clock` tells, or
/// the answer to a clock that does not tell it.
pub open spec fn planned(
    new: Added,
    clock: Result<u128, String>,
    res: Result<AddPlan, ApiError>,
) -> bool {
    match clock {
        Ok(millis) => res matches Ok(plan) && plan.statement@ == ADD_COMMAND@ && plan.command@
            == new.command && opt_text(plan.cwd) == new.cwd && plan.now == low_bits(millis),
        Err(reason) => res matches Err(error) && refusal(error) == (500u16, reason@),
    }
}

impl ApiError {
    /// An error with the given status.
    pub fn new(status: u16, message: &str) -> (res: ApiError)
        ensures
            refusal(res) == (status, message@),
            res.status == status && res.message@ == message@,
    {
        ApiError { status, message: message.to_owned() }
    }

    /// An error that the request is to blame for.
    pub fn bad_request(message: &str) -> (res: ApiError)
        ensures
            refusal(res) == (400u16, message@),
            res.status == 400u16 && res.message@ == message@,
    {
        ApiError::new(400, message)
    }

    /// An error that the server is to blame for.
    pub fn internal(message: &str) -> (res: ApiError)
        ensures
            refusal(res) == (500u16, message@),
            res.status == 500u16 && res.message@ == message@,
    {
        ApiError::new(500, message)
    }
}

/// The answer of the health check.
pub fn healthz() -> (res: &'static str)
    ensures
        res@ == "ok\n"@,
{
    "ok\n"
}

/// The header `name` as text, if it is there and visible.
fn header<'a>(headers: &'a HeaderMap<HeaderValue>, name: &str) -> (res: Option<&'a str>)
    requires
        is_header_name(name@),
    ensures
        opt_str(res) == header_text(*headers, name@),
{
    match get_header(headers, name) {
        Some(value) => value_text(value),
        None => None,
    }
}

/// Lets a request pass if one of its two headers carries `token`.
pub fn check_token(authorization: Option<&str>, custom: Option<&str>, token: &str) -> (res: Result<
    (),
    ApiError,
>)
    ensures
        if is_authorized(opt_str(authorization), opt_str(custom), token@) {
            res is Ok
        } else {
            res matches Err(error) && refusal(error) == unauthorized()
        },
{
    let bearer = match authorization {
        Some(value) => same(value, "Bearer ".to_owned().concat(token).as_str()),
        None => false,
    };
    let own = match custom {
        Some(value) => same(value, token),
        None => false,
    };
    if bearer || own {
        Ok(())
    } else {
        Err(ApiError::new(401, "unauthorized"))
    }
}

/// Lets a request pass if it carries `token`.
pub fn require_auth(headers: &HeaderMap<HeaderValue>, token: &str) -> (res: Result<(), ApiError>)
    ensures
        if carries_token(*headers, token@) {
            res is Ok
        } else {
            res matches Err(error) && refusal(error) == unauthorized()
        },
{
    proof {
        reveal_strlit("authorization");
        reveal_strlit("x-pwsh-history-token");
    }
    check_token(header(headers, "authorization"), header(headers, "x-pwsh-history-token"), token)
}

/// The format that a content type stands for.
pub fn body_format(content_type: Option<&str>) -> (res: BodyFormat)
    ensures
        res == format_of(opt_str(content_type)),
{
    match content_type {
        Some(value) => if begins(value, "application/json") {
            BodyFormat::Json
        } else {
            BodyFormat::Text
        },
        None => BodyFormat::Text,
    }
}

/// The format of the body behind `headers`.
pub fn add_body_format(headers: &HeaderMap<HeaderValue>) -> (res: BodyFormat)
    ensures
        res == format_of(header_text(*headers, "content-type"@)),
{
    proof {
        reveal_strlit("content-type");
    }
    body_format(header(headers, "content-type"))
}

/// What a body in the given format asks to add. `json` is what it holds as
/// JSON, or the reason why it holds nothing.
pub fn read_body(format: BodyFormat, body: Vec<u8>, json: Result<AddRequest, String>) -> (res:
    Result<AddRequest, ApiError>)
    ensures
        add_outcome(res) == body_request(format, body@, json),
{
    match format {
        BodyFormat::Json => match json {
            Ok(request) => Ok(request),
            Err(reason) => {
                let message = "invalid json body: ".to_owned().concat(reason.as_str());
                Err(ApiError::bad_request(message.as_str()))
            },
        },
        BodyFormat::Text => match text_from_utf8(body) {
            Ok(text) => Ok(AddRequest { command: text, cwd: None }),
            Err(reason) => {
                let message = "request body is not utf-8: ".to_owned().concat(reason.as_str());
                Err(ApiError::bad_request(message.as_str()))
            },
        },
    }
}

/// What the body behind `headers` asks to add.
pub fn parse_add_body(
    headers: &HeaderMap<HeaderValue>,
    body: Vec<u8>,
    json: Result<AddRequest, String>,
) -> (res: Result<AddRequest, ApiError>)
    ensures
        add_outcome(res) == body_request(
            format_of(header_text(*headers, "content-type"@)),
            body@,
            json,
        ),
{
    read_body(add_body_format(headers), body, json)
}

/// The command in `text`.
pub fn clean_command(text: &str) -> (res: Result<String, ApiError>)
    ensures
        outcome(res) == command_in(text@),
{
    let command = trim(text);
    if command.as_str().is_empty() {
        Err(ApiError::bad_request("command is empty"))
    } else {
        Ok(command)
    }
}

/// What a request adds to the history. `json` is what the body holds as JSON,
/// or the reason why it holds nothing.
pub fn accept_command(
    headers: &HeaderMap<HeaderValue>,
    token: &str,
    body: Vec<u8>,
    json: Result<AddRequest, String>,
) -> (res: Result<AddRequest, ApiError>)
    ensures
        add_outcome(res) == added(*headers, token@, body@, json),
        !carries_token(*headers, token@) ==> add_outcome(res) == Err::<Added, (u16, Seq<char>)>(
            unauthorized(),
        ),
{
    match require_auth(headers, token) {
        Ok(()) => match parse_add_body(headers, body, json) {
            Ok(request) => match clean_command(request.command.as_str()) {
                Ok(command) => Ok(AddRequest { command, cwd: request.cwd }),
                Err(error) => Err(error),
            },
            Err(error) => Err(error),
        },
        Err(error) => Err(error),
    }
}

/// What to ask the database for a command that was run from `cwd` at the time
/// that the clock tells. A clock that does not tell it is the server's error.
pub fn plan_add(command: String, cwd: Option<String>, clock: Result<u128, String>) -> (res: Result<
    AddPlan,
    ApiError,
>)
    ensures
        planned(Added { command: command@, cwd: opt_text(cwd) }, clock, res),
{
    match timestamp(clock) {
        Ok(now) => Ok(add_plan(command, cwd, now)),
        Err(error) => Err(error),
    }
}

/// What a request to add a command asks the database to do. `json` is what the
/// body holds as JSON, or the reason why it holds nothing. The time of the use
/// is what the clock tells, of which nothing is said.
pub fn add_history(
    headers: &HeaderMap<HeaderValue>,
    token: &str,
    body: Vec<u8>,
    json: Result<AddRequest, String>,
) -> (res: Result<AddPlan, ApiError>)
    ensures
        match added(*headers, token@, body@, json) {
            Ok(new) => exists|clock: Result<u128, String>|
                told_by_clock(clock) && #[trigger] planned(new, clock, res),
            Err(refused) => res matches Err(error) && refusal(error) == refused,
        },
{
    match accept_command(headers, token, body, json) {
        Ok(request) => {
            let clock = clock_millis();
            let ghost told = clock;
            let res = plan_add(request.command, request.cwd, clock);
            assert(planned(request@, told, res));
            assert(told_by_clock(told));
            res
        },
        Err(error) => Err(error),
    }
}

/// The number of commands to search for.
pub fn search_limit(limit: Option<i64>) -> (res: i64)
    ensures
        res == limit_for(limit),
        limit is None ==> res == 100,
        limit matches Some(n) ==> (1 <= n <= 500 ==> res == n) && (n < 1 ==> res == 1) && (n > 500
            ==> res == 500),
        1 <= res <= 500,
{
    match limit {
        None => 100,
        Some(n) => if n < 1 {
            1
        } else if n > 500 {
            500
        } else {
            n
        },
    }
}

/// What a request to search asks the database for.
pub fn search_history(headers: &HeaderMap<HeaderValue>, token: &str, query: &SearchQuery) -> (res:
    Result<SearchPlan, ApiError>)
    ensures
        if carries_token(*headers, token@) {
            res matches Ok(plan) && searches(plan, *query)
        } else {
            res matches Err(error) && refusal(error) == unauthorized()
        },
        res matches Ok(plan) ==> {
            &&& query.limit is None ==> plan.limit == 100
            &&& query.limit matches Some(n) ==> (1 <= n <= 500 ==> plan.limit == n) && (n < 1
                ==> plan.limit == 1) && (n > 500 ==> plan.limit == 500)
            &&& plan.cwd is None <==> query.cwd is None
            &&& plan.cwd matches Some(dir) ==> query.cwd matches Some(wanted) && dir@ == wanted@
        },
        res matches Err(error) ==> error.status == 401 && error.message@ == "unauthorized"@,
{
    match require_auth(headers, token) {
        Ok(()) => Ok(search_plan(query)),
        Err(error) => Err(error),
    }
}

/// The milliseconds since the Unix epoch that the clock tells, as a number that
/// the database can hold, or what the clock says instead.
pub fn timestamp(clock: Result<u128, String>) -> (res: Result<i64, ApiError>)
    ensures
        match clock {
            Ok(millis) => res matches Ok(time) && time == low_bits(millis),
            Err(reason) => res matches Err(error) && refusal(error) == (500u16, reason@),
        },
{
    match clock {
        Ok(millis) => {
            let time: i64 = #[verifier::truncate] (millis as i64);
            assert(millis % 0x1_0000_0000_0000_0000 < 0x8000_0000_0000_0000 ==> millis as i64
                == millis % 0x1_0000_0000_0000_0000) by (bit_vector);
            assert(millis % 0x1_0000_0000_0000_0000 >= 0x8000_0000_0000_0000 ==> millis as i64
                == millis % 0x1_0000_0000_0000_0000 - 0x1_0000_0000_0000_0000) by (bit_vector);
            Ok(time)
        },
        Err(reason) => Err(ApiError::internal(reason.as_str())),
    }
}

/// The milliseconds since the Unix epoch.
pub fn now_millis() -> (res: Result<i64, ApiError>)
    ensures
        res matches Err(error) ==> error.status == 500,
        exists|clock: Result<u128, String>| #[trigger]
            told_by_clock(clock) && match clock {
                Ok(millis) => res matches Ok(time) && time == low_bits(millis),
                Err(reason) => res matches Err(error) && refusal(error) == (500u16, reason@),
            },
{
    let clock = clock_millis();
    assert(told_by_clock(clock));
    timestamp(clock)
}

} // verus!
