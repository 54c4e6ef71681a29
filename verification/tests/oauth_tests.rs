use mailwind::oauth::{
    find_value, judge_request, judge_request_bytes, oauth_authorization_url, oauth_redirect_uri,
    oauth_response, parse_oauth_callback_path, path_query, query_param, request_path, OAuthWait,
};

#[test]
fn the_browser_is_sent_to_google() {
    let uri = oauth_redirect_uri(8080);
    assert_eq!(uri, "http://127.0.0.1:8080/callback");
    assert_eq!(
        oauth_authorization_url("id 1", &uri, "s&t"),
        "https://accounts.google.com/o/oauth2/v2/auth?client_id=id%201\
         &redirect_uri=http%3A%2F%2F127.0.0.1%3A8080%2Fcallback&response_type=code\
         &scope=https%3A%2F%2Fwww.googleapis.com%2Fauth%2Fgmail.modify%20\
         https%3A%2F%2Fwww.googleapis.com%2Fauth%2Fgmail.send\
         &access_type=offline&prompt=consent&state=s%26t"
    );
}

#[test]
fn queries_of_paths_are_read() {
    assert_eq!(path_query("/callback?a=b#c"), Some("a=b".to_string()));
    assert_eq!(path_query("/callback"), None);
    assert_eq!(path_query("/x?a?b"), Some("a?b".to_string()));
    assert_eq!(query_param("/callback?code=a%2Fb+c&code=d", "code"), Some("a/b c".to_string()));
    assert_eq!(query_param("/callback?code", "code"), Some(String::new()));
    assert_eq!(query_param("/callback?state=x", "code"), None);
    assert_eq!(query_param("/callback", "code"), None);
}

#[test]
fn the_first_value_of_a_name_counts() {
    let pair = |a: &str, b: &str| (a.to_string(), b.to_string());
    let pairs = vec![pair("a", "1"), pair("b", "2"), pair("a", "3")];
    assert_eq!(find_value(&pairs, "a"), Some("1".to_string()));
    assert_eq!(find_value(&pairs, "c"), None);
}

#[test]
fn callbacks_hold_code_and_state() {
    let ok = parse_oauth_callback_path("/callback?state=s&code=c").ok().unwrap();
    assert_eq!((ok.code.as_str(), ok.state.as_str()), ("c", "s"));
    assert_eq!(
        parse_oauth_callback_path("/callback?state=s").err(),
        Some("OAuth callback missing code".to_string())
    );
    assert_eq!(
        parse_oauth_callback_path("/callback?code=c").err(),
        Some("OAuth callback missing state".to_string())
    );
}

#[test]
fn the_path_is_the_second_word_of_the_first_line() {
    assert_eq!(request_path("GET /a HTTP/1.1\r\nHost: x"), Ok("/a".to_string()));
    assert_eq!(request_path("GET"), Err("Bad OAuth callback".to_string()));
    assert_eq!(request_path("GET\n/a"), Err("Bad OAuth callback".to_string()));
    assert_eq!(request_path(""), Err("Bad OAuth callback".to_string()));
}

#[test]
fn answers_are_pages() {
    assert_eq!(
        oauth_response("200 OK", "\u{e9}"),
        "HTTP/1.1 200 OK\r\nContent-Type: text/html; charset=utf-8\r\nContent-Length: 37\r\n\r\n\
         <html><body><h2>\u{e9}</h2></body></html>"
    );
}

#[test]
fn only_the_right_state_is_accepted() {
    let ok = judge_request("GET /callback?code=c&state=s HTTP/1.1", "s");
    assert_eq!(ok.code, Ok("c".to_string()));
    assert!(ok.response.unwrap().starts_with("HTTP/1.1 200 OK\r\n"));
    let bad = judge_request("GET /callback?code=c&state=x HTTP/1.1", "s");
    assert_eq!(bad.code, Err("OAuth state mismatch".to_string()));
    assert!(bad.response.unwrap().starts_with("HTTP/1.1 400 Bad Request\r\n"));
    let none = judge_request("GET /callback HTTP/1.1", "s");
    assert_eq!(none.code, Err("OAuth callback missing code".to_string()));
    assert_eq!(none.response, None);
}

#[test]
fn requests_may_hold_any_bytes() {
    let ok = judge_request_bytes(b"GET /callback?code=c&state=s HTTP/1.1\r\n\xff", "s");
    assert_eq!(ok.code, Ok("c".to_string()));
    assert_eq!(judge_request_bytes(&[0xff], "s").code, Err("Bad OAuth callback".to_string()));
}

#[test]
fn waiting_comes_to_an_end() {
    let mut wait = OAuthWait::new();
    let mut looks = 0;
    let error = loop {
        match wait.look() {
            Ok(()) => looks += 1,
            Err(e) => break e,
        }
    };
    assert_eq!(looks, 1800);
    assert_eq!(error, "Timed out waiting for Google OAuth callback");
}
