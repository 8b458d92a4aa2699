use mini_async_http::request::{RawHead, RawHeader, RequestParser};
use mini_async_http::{Method, ParseError, Request, Version};

fn http_request() -> Vec<u8> {
    b"GET / HTTP/1.1\r\nHost: localhost:8080\r\nUser-Agent: curl/7.54.0\r\nAccept: */*\r\n\r\n"
        .to_vec()
}

fn http_body() -> Vec<u8> {
    b"POST / HTTP/1.1\r\nHost: localhost:8080\r\nUser-Agent: curl/7.54.0\r\nAccept: */*\r\nContent-Length: 16\r\n\r\nteststststststst"
        .to_vec()
}

fn head(method: &str, path: &str, headers: Vec<(&str, &[u8])>, consumed: usize) -> RawHead {
    RawHead {
        method: Some(String::from(method)),
        path: Some(String::from(path)),
        version: Some(1),
        headers: headers
            .into_iter()
            .map(|(name, value)| RawHeader { name: String::from(name), value: value.to_vec() })
            .collect(),
        consumed,
    }
}

#[test]
fn print() {
    let parser = RequestParser::new();
    let input = http_request();
    let (a, _) = parser.parse_u8(&input).expect("Error when parsing");

    let reader = a.to_string().as_bytes().to_vec();

    let (b, _) = parser.parse_u8(&reader).expect("Error when parsing");

    assert_eq!(a, b);
}

#[test]
fn print_with_body() {
    let parser = RequestParser::new();
    let input = http_body();
    let (a, _) = parser.parse_u8(&input).expect("Error when parsing");

    let reader = a.to_string().as_bytes().to_vec();

    let (b, _) = parser.parse_u8(&reader).expect("Error when parsing");

    assert_eq!(a, b);
    assert_eq!(a.body_as_string().unwrap(), String::from("teststststststst"));
}

#[test]
fn from_u8() {
    let parser = RequestParser::new();
    let input = http_request();
    let (request, n) = parser.parse_u8(&input).expect("Error when parsing");

    assert_eq!(78, n);
    assert_eq!(*request.method(), Method::GET);
    assert_eq!(request.path().as_str(), "/");
    assert_eq!(*request.version(), Version::HTTP11);

    assert_eq!(
        request.headers().get_header(&String::from("host")).unwrap().as_str(),
        "localhost:8080"
    );
    assert_eq!(request.headers().get_header(&String::from("Accept")).unwrap().as_str(), "*/*");
    assert_eq!(
        request.headers().get_header(&String::from("user-agent")).unwrap().as_str(),
        "curl/7.54.0"
    );

    match request.body() {
        Some(_) => panic!(),
        _ => {}
    }
}

#[test]
fn partial() {
    let input = http_body();
    let parser = RequestParser::new();
    let mut body = Vec::new();

    for byte in 0..input.len() - 1 {
        body.push(input[byte]);

        match parser.parse_u8(&body) {
            Ok(_) => panic!("Should not be ok"),
            Err(ParseError::UnexpectedEnd) => {}
            Err(e) => panic!("Wrong error kind {:?}", e),
        }
    }

    body.push(input[input.len() - 1]);

    match parser.parse_u8(&body) {
        Ok(_) => {}
        Err(e) => panic!("Should be ok got error {:?}", e),
    }
}

#[test]
fn first_line_error() {
    let input = b"zaezaexq\r\n";
    let parser = RequestParser::new();

    match parser.parse_u8(input) {
        Ok(_) => panic!("Should have first line error"),
        Err(_) => {}
    }
}

#[test]
fn a_complete_request_is_read_whatever_follows_it() {
    let parser = RequestParser::new();
    let message = http_body();
    let (alone, n) = parser.parse_u8(&message).unwrap();
    assert_eq!(n, message.len());
    for extra in [&b"G"[..], &b"GET / HT"[..], &b"\r\n\r\nxyz"[..]] {
        let mut longer = message.clone();
        longer.extend_from_slice(extra);
        let (again, m) = parser.parse_u8(&longer).unwrap();
        assert_eq!(m, message.len());
        assert_eq!(again, alone);
    }
}

#[test]
fn the_bytes_taken_are_the_head_and_the_declared_length() {
    let parser = RequestParser::new();
    let input = b"POST /x HTTP/1.1\r\nContent-Length: 11\r\n\r\nRequestBody";
    let head_len = b"POST /x HTTP/1.1\r\nContent-Length: 11\r\n\r\n".len();
    let (request, n) = parser.parse_u8(input).unwrap();
    assert_eq!(n, head_len + 11);
    assert_eq!(request.body().unwrap(), b"RequestBody");
    assert_eq!(*request.method(), Method::POST);
    assert_eq!(request.path(), "/x");
}

#[test]
fn repeated_headers_keep_the_last_value() {
    let parser = RequestParser::new();
    let input = b"GET / HTTP/1.1\r\nX-A: one\r\nx-a: Two\r\n\r\n";
    let (request, _) = parser.parse_u8(input).unwrap();
    assert_eq!(request.headers().get_header("X-A").unwrap(), "Two");
    assert_eq!(request.headers().len(), 1);
}

#[test]
fn unknown_methods_and_versions_are_refused() {
    let parser = RequestParser::new();
    assert_eq!(
        parser.parse_u8(b"PATCH / HTTP/1.1\r\n\r\n").unwrap_err(),
        ParseError::WrongMethod
    );
    assert_eq!(parser.parse_u8(b"GET / HTTP/1.0\r\n\r\n").unwrap_err(), ParseError::WrongVersion);
}

#[test]
fn scanner_errors_keep_their_names() {
    let parser = RequestParser::new();
    assert_eq!(parser.parse_u8(b"GET / HTTP/2.0\r\n\r\n").unwrap_err(), ParseError::Version);
    assert_eq!(parser.parse_u8(b"G\x01T / HTTP/1.1\r\n\r\n").unwrap_err(), ParseError::Token);
    assert_eq!(
        parser.parse_u8(b"GET / HTTP/1.1\r\nbad name: x\r\n\r\n").unwrap_err(),
        ParseError::HeaderName
    );
    assert_eq!(
        parser.parse_u8(b"GET / HTTP/1.1\r\nname: \x00\r\n\r\n").unwrap_err(),
        ParseError::HeaderValue
    );
    assert_eq!(parser.parse_u8(b"GET / HTTP/1.1\rX").unwrap_err(), ParseError::NewLine);
    let mut many = b"GET / HTTP/1.1\r\n".to_vec();
    for i in 0..65 {
        many.extend_from_slice(format!("h{}: v\r\n", i).as_bytes());
    }
    many.extend_from_slice(b"\r\n");
    assert_eq!(parser.parse_u8(&many).unwrap_err(), ParseError::TooManyHeaders);
}

#[test]
fn a_length_that_is_no_number_is_refused() {
    let parser = RequestParser::new();
    for bad in ["abc", "", "-1", "1 2", "18446744073709551616", "++1"] {
        let input = format!("POST / HTTP/1.1\r\nContent-Length: {}\r\n\r\n", bad);
        assert_eq!(parser.parse_u8(input.as_bytes()).unwrap_err(), ParseError::LengthParse);
    }
    let signed = b"POST / HTTP/1.1\r\nContent-Length: +2\r\n\r\nab";
    let (request, n) = parser.parse_u8(signed).unwrap();
    assert_eq!(request.body().unwrap(), b"ab");
    assert_eq!(n, 17 + 20 + 2 + 2);
    let huge = b"POST / HTTP/1.1\r\nContent-Length: 18446744073709551615\r\n\r\nab";
    assert_eq!(parser.parse_u8(huge).unwrap_err(), ParseError::UnexpectedEnd);
}

#[test]
fn a_header_value_that_is_not_text_is_refused() {
    let parser = RequestParser::new();
    let input = b"GET / HTTP/1.1\r\nX-Raw: \xff\xfe\r\n\r\n";
    assert_eq!(parser.parse_u8(input).unwrap_err(), ParseError::HeaderValue);
}

#[test]
fn assemble_takes_the_body_that_follows_the_head() {
    let bytes = b"0123456789abcdef";
    let (request, n) =
        RequestParser::assemble(head("PUT", "/p", vec![("Content-Length", b"4")], 10), bytes)
            .unwrap();
    assert_eq!(n, 14);
    assert_eq!(request.body().unwrap(), b"abcd");
    assert_eq!(*request.method(), Method::PUT);
    assert_eq!(request.path(), "/p");
    let (request, n) = RequestParser::assemble(head("DELETE", "/p", vec![], 10), bytes).unwrap();
    assert_eq!(n, 10);
    assert!(request.body().is_none());
}

#[test]
fn assemble_asks_for_more_until_the_body_is_there() {
    let bytes = b"0123456789abc";
    let need = RequestParser::assemble(head("PUT", "/p", vec![("content-length", b"4")], 10), bytes);
    assert_eq!(need.unwrap_err(), ParseError::UnexpectedEnd);
    let beyond = RequestParser::assemble(head("PUT", "/p", vec![], 14), bytes);
    assert_eq!(beyond.unwrap_err(), ParseError::UnexpectedEnd);
}

#[test]
fn assemble_refuses_a_head_without_a_request_line() {
    let bytes = b"0123456789";
    assert_eq!(
        RequestParser::assemble(head("GET", "/", vec![], 0), bytes).unwrap_err(),
        ParseError::FirstLine
    );
    let mut no_method = head("GET", "/", vec![], 4);
    no_method.method = None;
    assert_eq!(RequestParser::assemble(no_method, bytes).unwrap_err(), ParseError::FirstLine);
    let mut no_path = head("GET", "/", vec![], 4);
    no_path.path = None;
    assert_eq!(RequestParser::assemble(no_path, bytes).unwrap_err(), ParseError::FirstLine);
    let mut old = head("GET", "/", vec![], 4);
    old.version = Some(0);
    assert_eq!(RequestParser::assemble(old, bytes).unwrap_err(), ParseError::WrongVersion);
    assert_eq!(
        RequestParser::assemble(head("BREW", "/", vec![], 4), bytes).unwrap_err(),
        ParseError::WrongMethod
    );
}

#[test]
fn parse_error_from_keeps_the_kind() {
    assert_eq!(ParseError::from(httparse::Error::HeaderName), ParseError::HeaderName);
    assert_eq!(ParseError::from(httparse::Error::HeaderValue), ParseError::HeaderValue);
    assert_eq!(ParseError::from(httparse::Error::NewLine), ParseError::NewLine);
    assert_eq!(ParseError::from(httparse::Error::Status), ParseError::Status);
    assert_eq!(ParseError::from(httparse::Error::Token), ParseError::Token);
    assert_eq!(ParseError::from(httparse::Error::TooManyHeaders), ParseError::TooManyHeaders);
    assert_eq!(ParseError::from(httparse::Error::Version), ParseError::Version);
}

#[test]
fn request_text_has_the_request_line_the_headers_and_the_body() {
    let parser = RequestParser::new();
    let (request, _): (Request, usize) =
        parser.parse_u8(b"POST /a HTTP/1.1\r\nHost: X\r\nContent-Length: 2\r\n\r\nhi").unwrap();
    assert_eq!(
        request.to_string(),
        "POST /a HTTP/1.1\r\nHost: X\r\nContent-Length: 2\r\n\r\nhi"
    );
}

#[test]
fn a_request_is_made_of_bytes() {
    let request = Request::try_from(&b"DELETE /item HTTP/1.1\r\nHost: x\r\n\r\n"[..]).unwrap();
    assert_eq!(*request.method(), Method::DELETE);
    assert_eq!(request.path(), "/item");
    assert_eq!(Request::try_from(&b"DELETE /item"[..]).unwrap_err(), ParseError::UnexpectedEnd);
}
