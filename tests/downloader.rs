use crawler::{make_request, Next, ReadEvent, Request, Response, Stage};

fn headers(pairs: &[(&str, &str)]) -> Vec<(String, String)> {
    pairs.iter().map(|(n, v)| (n.to_string(), v.to_string())).collect()
}

#[test]
fn request_carries_connection_close_and_user_agent() {
    let mut handler = make_request(Request::from_str("http://a.com/"), 30, "bot/1.0");
    assert_eq!(handler.stage(), Stage::AwaitingRequestWrite);
    let (sent, next) = handler.on_request();
    assert_eq!(sent, headers(&[("Connection", "close"), ("User-Agent", "bot/1.0")]));
    assert_eq!(next, Next::Read(30));
    assert_eq!(handler.on_request_writable(), Next::Read(30));
    assert_eq!(handler.stage(), Stage::AwaitingResponse);
}

#[test]
fn non_html_ok_response_ends_without_body() {
    let mut handler = make_request(Request::from_str("http://a.com/i.png"), 30, "bot");
    handler.on_request();
    let next = handler.on_response(200, headers(&[("Content-Type", "image/png")]));
    assert_eq!(next, Next::End);
    assert_eq!(handler.stage(), Stage::Done);
    let (request, response) = handler.into_result();
    assert_eq!(request.url.as_str(), "http://a.com/i.png");
    let response = response.unwrap();
    assert_eq!(response.status, 200);
    assert_eq!(response.body, None);
}

#[test]
fn html_ok_response_is_read_to_completion() {
    let mut handler = make_request(Request::from_str("http://a.com/"), 7, "bot");
    handler.on_request();
    let next = handler.on_response(200, headers(&[("content-type", "text/html; charset=utf-8")]));
    assert_eq!(next, Next::Read(7));
    assert_eq!(handler.stage(), Stage::ReadingBody);
    assert_eq!(handler.on_response_readable(ReadEvent::Data(b"<html>".to_vec())), Next::Read(7));
    assert_eq!(handler.on_response_readable(ReadEvent::WouldBlock), Next::ReadAgain);
    assert_eq!(handler.on_response_readable(ReadEvent::Data(b"</html>".to_vec())), Next::Read(7));
    assert_eq!(handler.on_response_readable(ReadEvent::Eof), Next::End);
    assert_eq!(handler.stage(), Stage::Done);
    let (_, response) = handler.into_result();
    assert_eq!(response.unwrap().body, Some(b"<html></html>".to_vec()));
}

#[test]
fn uppercase_media_type_counts_as_html() {
    let mut handler = make_request(Request::from_str("http://a.com/"), 7, "bot");
    let next = handler.on_response(200, headers(&[("CONTENT-TYPE", "TEXT/HTML")]));
    assert_eq!(next, Next::Read(7));
}

#[test]
fn immediate_end_of_stream_gives_an_empty_body() {
    let mut handler = make_request(Request::from_str("http://a.com/"), 7, "bot");
    handler.on_response(200, headers(&[("Content-Type", "text/html")]));
    assert_eq!(handler.on_response_readable(ReadEvent::Eof), Next::End);
    let (_, response) = handler.into_result();
    assert_eq!(response.unwrap().body, Some(Vec::new()));
}

#[test]
fn read_failure_keeps_the_partial_body() {
    let mut handler = make_request(Request::from_str("http://a.com/"), 7, "bot");
    handler.on_response(200, headers(&[("Content-Type", "text/html")]));
    handler.on_response_readable(ReadEvent::Data(b"<p>par".to_vec()));
    assert_eq!(handler.on_response_readable(ReadEvent::Failed), Next::End);
    let (_, response) = handler.into_result();
    assert_eq!(response.unwrap().body, Some(b"<p>par".to_vec()));
}

#[test]
fn redirect_status_ends_at_headers() {
    let mut handler = make_request(Request::from_str("http://a.com/"), 7, "bot");
    let next = handler.on_response(301, headers(&[("Location", "http://b.com/"), ("Content-Type", "text/html")]));
    assert_eq!(next, Next::End);
    let (_, response) = handler.into_result();
    let response: Response = response.unwrap();
    assert_eq!(response.status, 301);
    assert_eq!(response.header("LOCATION"), Some("http://b.com/"));
}

#[test]
fn transport_error_ends_with_no_response() {
    let mut handler = make_request(Request::from_str("http://a.com/"), 7, "bot");
    handler.on_request();
    handler.on_response(200, headers(&[("Content-Type", "text/html")]));
    assert_eq!(handler.on_error(), Next::Remove);
    assert_eq!(handler.stage(), Stage::Done);
    let (request, response) = handler.into_result();
    assert_eq!(request.url.as_str(), "http://a.com/");
    assert_eq!(response, None);
}

#[test]
fn non_ascii_media_type_parameter_is_ignored() {
    let mut handler = make_request(Request::from_str("http://a.com/"), 7, "bot");
    let next = handler.on_response(200, headers(&[("Content-Type", "text/html; foo=\"a\u{e9}\"")]));
    assert_eq!(next, Next::Read(7));
    let mut other = make_request(Request::from_str("http://a.com/"), 7, "bot");
    let next = other.on_response(200, headers(&[("Content-Type", "image/png; name=\"\u{e9}t\u{e9}\"")]));
    assert_eq!(next, Next::End);
}

#[test]
fn malformed_media_type_is_not_html() {
    let mut handler = make_request(Request::from_str("http://a.com/"), 7, "bot");
    let next = handler.on_response(200, headers(&[("Content-Type", "t\u{e9}xt/html")]));
    assert_eq!(next, Next::End);
}
