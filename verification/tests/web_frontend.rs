use obs_rs::web::{
    authorized, declared_content_length, header_end, hex_token, parse_web_arguments,
    presented_token, request_complete, response, tokens_match, WebCommand, WebRequestError,
    DEFAULT_BIND_ADDRESS,
};

fn args(values: &[&str]) -> Vec<String> {
    values.iter().map(|value| (*value).to_owned()).collect()
}

#[test]
fn tokens_match_only_identical_tokens() {
    assert!(tokens_match("abc123", "abc123"));
    assert!(!tokens_match("abc123", "abc124"));
    assert!(!tokens_match("abc123", "abc12"));
    assert!(tokens_match("", ""));
}

#[test]
fn session_tokens_are_lowercase_hex() {
    assert_eq!(hex_token(&[0x00, 0x0f, 0xa5, 0xff]), "000fa5ff");
    assert_eq!(hex_token(&[]), "");
}

#[test]
fn tokens_are_read_from_the_bearer_header_first() {
    let request = "GET /?token=query HTTP/1.1\r\nHost: x\r\nAUTHORIZATION:  Bearer  secret \r\n\r\n";
    assert_eq!(presented_token(request), Some("secret"));
    let request = "GET /snapshot?view=1&token=abc&token=def HTTP/1.1\r\nHost: x\r\n\r\n";
    assert_eq!(presented_token(request), Some("abc"));
    let request = "GET / HTTP/1.1\r\nAuthorization: Basic zzz\r\n\r\n";
    assert_eq!(presented_token(request), None);
    let request = "GET /?tok=1 HTTP/1.1\r\n\r\nAuthorization: Bearer late\r\n";
    assert_eq!(presented_token(request), None);
    assert_eq!(presented_token("GET"), None);
    assert_eq!(presented_token("GET /?token= HTTP/1.1"), Some(""));
}

#[test]
fn requests_without_the_session_token_are_refused() {
    let request = b"GET /?token=s3cret HTTP/1.1\r\n\r\n";
    assert!(authorized(request, Some("s3cret")));
    assert!(!authorized(request, Some("other")));
    assert!(authorized(b"\xff\xfe", None));
    assert!(!authorized(b"\xff\xfe", Some("s3cret")));
}

#[test]
fn header_end_follows_the_first_blank_line() {
    assert_eq!(header_end(b"GET / HTTP/1.1\r\n\r\nbody"), Some(18));
    assert_eq!(header_end(b"GET / HTTP/1.1\r\n"), None);
    assert_eq!(header_end(b"\r\n\r\n\r\n\r\n"), Some(4));
}

#[test]
fn content_length_is_read_from_the_header() {
    assert_eq!(declared_content_length(b"POST / HTTP/1.1\r\nHost: x\r\ncontent-LENGTH: 12 \r\n\r\n"), Ok(12));
    assert_eq!(declared_content_length(b"POST / HTTP/1.1\r\nHost: x\r\n\r\n"), Ok(0));
    assert_eq!(
        declared_content_length(b"POST / HTTP/1.1\r\nbroken\r\n\r\n"),
        Err(WebRequestError::Malformed)
    );
    assert_eq!(
        declared_content_length(b"POST / HTTP/1.1\r\nContent-Length: -1\r\n\r\n"),
        Err(WebRequestError::InvalidContentLength)
    );
    assert_eq!(declared_content_length(b"POST / HTTP/1.1\r\n\xff: 1\r\n"), Err(WebRequestError::NotUtf8));
    assert_eq!(
        declared_content_length(b"POST\r\nContent-Length: 18446744073709551615\r\n\r\n"),
        Ok(usize::MAX)
    );
}

#[test]
fn requests_are_complete_once_the_declared_body_arrived() {
    let head = b"POST /command HTTP/1.1\r\nContent-Length: 4\r\n\r\n";
    assert_eq!(request_complete(&head[..10], 1024), Ok(false));
    assert_eq!(request_complete(head, 1024), Ok(false));
    let mut full = head.to_vec();
    full.extend_from_slice(b"show");
    assert_eq!(request_complete(&full, 1024), Ok(true));
    assert_eq!(request_complete(&full, 10), Err(WebRequestError::TooLarge));
    assert_eq!(WebRequestError::TooLarge.message(), "HTTP request exceeds the configured limit");
}

#[test]
fn responses_declare_the_body_length_in_bytes() {
    assert_eq!(
        response("200 OK", "text/plain; charset=utf-8", "héllo"),
        "HTTP/1.1 200 OK\r\nContent-Type: text/plain; charset=utf-8\r\nContent-Length: 6\r\nCache-Control: no-store\r\nConnection: close\r\n\r\nhéllo"
    );
}

#[test]
fn web_arguments_select_address_and_modes() {
    assert_eq!(
        parse_web_arguments(&args(&[])),
        Ok(WebCommand::Serve { bind_address: DEFAULT_BIND_ADDRESS.to_owned(), once: false, authenticate: true })
    );
    assert_eq!(
        parse_web_arguments(&args(&["--once", "--bind", "0.0.0.0:9", "--no-auth"])),
        Ok(WebCommand::Serve { bind_address: "0.0.0.0:9".to_owned(), once: true, authenticate: false })
    );
    assert_eq!(parse_web_arguments(&args(&["-h", "--bogus"])), Ok(WebCommand::Help));
    assert_eq!(parse_web_arguments(&args(&["--bind"])), Err("--bind requires an address".to_owned()));
    assert_eq!(parse_web_arguments(&args(&["--fast"])), Err("unknown argument --fast".to_owned()));
}

#[test]
fn help_texts_list_the_commands() {
    assert!(obs_rs::web::help_text().starts_with("Commands:\n  show | snapshot\n"));
    assert!(obs_rs::web::help_text().ends_with("  stream start|stop\n  help"));
    let lines = obs_rs::web::console_help_lines();
    assert_eq!(lines.len(), 12);
    assert_eq!(lines[11], "  help | quit");
}
