use axum::http::header::{AUTHORIZATION, CONTENT_TYPE};
use axum::http::{HeaderMap, HeaderValue};
use pwsh_history_server::api::{
    accept_command, add_body_format, add_history, body_format, check_token, clean_command, healthz,
    now_millis, parse_add_body, plan_add, read_body, require_auth, search_history, timestamp,
    AddRequest, ApiError, BodyFormat, SearchQuery,
};

fn refused<T>(res: Result<T, ApiError>) -> (u16, String) {
    match res {
        Ok(_) => panic!("not refused"),
        Err(error) => (error.status, error.message),
    }
}

fn bearer(value: &'static str) -> HeaderMap {
    let mut headers = HeaderMap::new();
    headers.insert(AUTHORIZATION, HeaderValue::from_static(value));
    headers
}

fn custom(value: &'static str) -> HeaderMap {
    let mut headers = HeaderMap::new();
    headers.insert("X-Pwsh-History-Token", HeaderValue::from_static(value));
    headers
}

fn typed(value: &'static str) -> HeaderMap {
    let mut headers = custom("secret");
    headers.insert(CONTENT_TYPE, HeaderValue::from_static(value));
    headers
}

fn none() -> Result<AddRequest, String> {
    Err("no json".to_string())
}

fn json(command: &str, cwd: Option<&str>) -> Result<AddRequest, String> {
    Ok(AddRequest {
        command: command.to_string(),
        cwd: cwd.map(str::to_string),
    })
}

fn parts(request: AddRequest) -> (String, Option<String>) {
    (request.command, request.cwd)
}

const UNAUTHORIZED: (u16, &str) = (401, "unauthorized");

#[test]
fn either_header_authorizes() {
    assert!(require_auth(&bearer("Bearer secret"), "secret").is_ok());
    assert!(require_auth(&custom("secret"), "secret").is_ok());
    let mut both = bearer("Bearer wrong");
    both.insert("x-pwsh-history-token", HeaderValue::from_static("secret"));
    assert!(require_auth(&both, "secret").is_ok());
}

#[test]
fn anything_else_is_unauthorized() {
    for headers in [
        HeaderMap::new(),
        bearer("secret"),
        bearer("bearer secret"),
        bearer("Bearer  secret"),
        bearer("Bearer secret2"),
        bearer("Bearer "),
        custom("Bearer secret"),
        custom("SECRET"),
    ] {
        let (status, message) = refused(require_auth(&headers, "secret"));
        assert_eq!((status, message.as_str()), UNAUTHORIZED);
    }
}

#[test]
fn only_the_first_value_of_a_header_counts() {
    let mut headers = custom("wrong");
    headers.append("x-pwsh-history-token", HeaderValue::from_static("secret"));
    assert!(require_auth(&headers, "secret").is_err());
    let mut headers = custom("secret");
    headers.append("x-pwsh-history-token", HeaderValue::from_static("wrong"));
    assert!(require_auth(&headers, "secret").is_ok());
}

#[test]
fn invisible_header_values_do_not_count() {
    let mut headers = HeaderMap::new();
    headers.insert(
        "x-pwsh-history-token",
        HeaderValue::from_bytes("sécret".as_bytes()).unwrap(),
    );
    assert!(require_auth(&headers, "sécret").is_err());
    let mut headers = HeaderMap::new();
    headers.insert("x-pwsh-history-token", HeaderValue::from_static("a\tb c~"));
    assert!(require_auth(&headers, "a\tb c~").is_ok());
}

#[test]
fn tokens_are_checked_on_plain_values() {
    assert!(check_token(Some("Bearer t"), None, "t").is_ok());
    assert!(check_token(None, Some("t"), "t").is_ok());
    assert!(check_token(Some("Bearer "), None, "").is_ok());
    let (status, message) = refused(check_token(Some("t"), Some("Bearer t"), "t"));
    assert_eq!((status, message.as_str()), UNAUTHORIZED);
}

#[test]
fn format_is_told_by_the_content_type() {
    assert_eq!(body_format(None), BodyFormat::Text);
    assert_eq!(body_format(Some("")), BodyFormat::Text);
    assert_eq!(body_format(Some("text/plain")), BodyFormat::Text);
    assert_eq!(body_format(Some("Application/json")), BodyFormat::Text);
    assert_eq!(body_format(Some("application/jso")), BodyFormat::Text);
    assert_eq!(body_format(Some("application/json")), BodyFormat::Json);
    assert_eq!(
        body_format(Some("application/json; charset=utf-8")),
        BodyFormat::Json
    );
    assert_eq!(add_body_format(&HeaderMap::new()), BodyFormat::Text);
    assert_eq!(add_body_format(&typed("application/json")), BodyFormat::Json);
    assert_eq!(add_body_format(&typed("text/plain")), BodyFormat::Text);
}

#[test]
fn json_bodies_are_what_the_reader_says() {
    let headers = typed("application/json");
    let body = b"{\"command\":\"git status\"}".to_vec();
    let read = parse_add_body(&headers, body.clone(), json("git status", Some("/a"))).unwrap();
    assert_eq!(parts(read), ("git status".to_string(), Some("/a".to_string())));
    let read = parse_add_body(&headers, body.clone(), json("git status", None)).unwrap();
    assert_eq!(parts(read), ("git status".to_string(), None));
    assert_eq!(
        refused(parse_add_body(&headers, body, Err("expected value".to_string()))),
        (400, "invalid json body: expected value".to_string())
    );
}

#[test]
fn text_bodies_are_utf8() {
    let headers = typed("text/plain");
    let read = parse_add_body(&headers, "écho €".as_bytes().to_vec(), none()).unwrap();
    assert_eq!(parts(read), ("écho €".to_string(), None));
    let read = read_body(BodyFormat::Text, vec![], json("x", Some("/a"))).unwrap();
    assert_eq!(parts(read), (String::new(), None));
    assert_eq!(
        refused(parse_add_body(&headers, vec![b'a', 0xff], none())),
        (
            400,
            "request body is not utf-8: invalid utf-8 sequence of 1 bytes from index 1".to_string()
        )
    );
    for bytes in [
        vec![0xc0, 0x80],
        vec![0xed, 0xa0, 0x80],
        vec![0xf4, 0x90, 0x80, 0x80],
        vec![0xe2, 0x82],
    ] {
        assert_eq!(refused(read_body(BodyFormat::Text, bytes, none())).0, 400);
    }
}

#[test]
fn commands_are_trimmed_and_not_empty() {
    assert_eq!(clean_command("  git status\r\n").unwrap(), "git status");
    for blank in ["", " ", "\n\t\u{a0}"] {
        assert_eq!(
            refused(clean_command(blank)),
            (400, "command is empty".to_string())
        );
    }
}

#[test]
fn add_checks_the_token_before_the_body() {
    let mut headers = typed("application/json");
    headers.remove("x-pwsh-history-token");
    let (status, message) = refused(accept_command(&headers, "secret", vec![0xff], none()));
    assert_eq!((status, message.as_str()), UNAUTHORIZED);
    let (status, message) = refused(add_history(&headers, "secret", vec![0xff], none()));
    assert_eq!((status, message.as_str()), UNAUTHORIZED);
}

#[test]
fn add_plans_the_trimmed_command() {
    let headers = typed("text/plain");
    let accepted = accept_command(&headers, "secret", b" ls \n".to_vec(), none()).unwrap();
    assert_eq!(parts(accepted), ("ls".to_string(), None));
    let plan = add_history(&headers, "secret", b" ls \n".to_vec(), none()).unwrap();
    assert_eq!(plan.command, "ls");
    assert!(plan.now > 1_600_000_000_000);
    assert_eq!(
        refused(add_history(&headers, "secret", b" \n".to_vec(), none())),
        (400, "command is empty".to_string())
    );
    let headers = typed("application/json");
    let plan = add_history(&headers, "secret", vec![], json("dir ", None)).unwrap();
    assert_eq!(plan.command, "dir");
    assert_eq!(plan.cwd, None);
}

#[test]
fn add_plans_the_directory_as_it_was_sent() {
    let headers = typed("application/json");
    let cwd = "/absolute/resolved/project/path ";
    let plan = add_history(&headers, "secret", vec![], json(" git status", Some(cwd))).unwrap();
    assert_eq!(plan.command, "git status");
    assert_eq!(plan.cwd.as_deref(), Some(cwd));
}

#[test]
fn plan_is_for_the_time_of_the_clock() {
    let plan = plan_add("ls".to_string(), Some("/a".to_string()), Ok(1779330000000)).unwrap();
    assert!(plan.statement.starts_with("INSERT INTO history("));
    assert_eq!(plan.command, "ls");
    assert_eq!(plan.cwd.as_deref(), Some("/a"));
    assert_eq!(plan.now, 1779330000000);
    assert_eq!(
        refused(plan_add("ls".to_string(), None, Err("clock".to_string()))),
        (500, "clock".to_string())
    );
}

#[test]
fn search_needs_the_token() {
    let query = SearchQuery {
        prefix: "git%".to_string(),
        limit: Some(1000),
        cwd: Some("/a".to_string()),
    };
    let (status, message) = refused(search_history(&HeaderMap::new(), "secret", &query));
    assert_eq!((status, message.as_str()), UNAUTHORIZED);
    let plan = search_history(&custom("secret"), "secret", &query).unwrap();
    assert_eq!(plan.pattern, r"git\%%");
    assert_eq!(plan.cwd.as_deref(), Some("/a"));
    assert_eq!(plan.limit, 500);
}

#[test]
fn time_is_in_milliseconds() {
    assert_eq!(timestamp(Ok(1779330000000)).unwrap(), 1779330000000);
    assert_eq!(timestamp(Ok(i64::MAX as u128)).unwrap(), i64::MAX);
    assert_eq!(timestamp(Ok(1u128 << 63)).unwrap(), i64::MIN);
    assert_eq!(timestamp(Ok((1u128 << 64) + 5)).unwrap(), 5);
    assert_eq!(
        refused(timestamp(Err("clock".to_string()))),
        (500, "clock".to_string())
    );
    let first = now_millis().unwrap();
    let second = now_millis().unwrap();
    assert!(first > 1_600_000_000_000);
    assert!(second - first < 60_000);
}

#[test]
fn errors_carry_status_and_message() {
    let error = ApiError::new(418, "teapot");
    assert_eq!((error.status, error.message.as_str()), (418, "teapot"));
    let error = ApiError::bad_request("bad");
    assert_eq!((error.status, error.message.as_str()), (400, "bad"));
    let error = ApiError::internal("broken");
    assert_eq!((error.status, error.message.as_str()), (500, "broken"));
}

#[test]
fn health_check_says_ok() {
    assert_eq!(healthz(), "ok\n");
}
