use mini_async_http::http::text::{decimal_string, parse_length, signed_decimal_string};
use mini_async_http::{
    BuildError, Headers, Method, Reason, RequestBuilder, Response, ResponseBuilder, Version,
};

#[test]
fn a_response_is_written_as_status_line_headers_and_body() {
    let response = ResponseBuilder::empty_200()
        .body(b"GET")
        .content_type("text/plain")
        .build()
        .unwrap();
    assert_eq!(
        response.to_string(),
        "HTTP/1.1 200 Ok\r\nContent-Type: text/plain\r\nContent-Length: 3\r\n\r\nGET"
    );
}

#[test]
fn the_text_of_a_response_does_not_depend_on_how_it_was_built() {
    let text = "HTTP/1.1 200 Ok\r\nContent-Type: text/plain\r\nContent-Length: 3\r\n\r\nGET";
    let type_first =
        ResponseBuilder::empty_200().content_type("text/plain").body(b"GET").build().unwrap();
    assert_eq!(type_first.to_string(), text);
    let by_hand = ResponseBuilder::empty_200()
        .body(b"GET")
        .header("Content-Type", "text/plain")
        .header("Content-Length", "3")
        .build()
        .unwrap();
    assert_eq!(by_hand.to_string(), text);
}

#[test]
fn the_length_of_the_body_is_written_behind_the_other_headers() {
    let response = ResponseBuilder::empty_200()
        .header("content-length", "0")
        .header("Server", "Mini")
        .body(b"four")
        .header("Date", "today")
        .build()
        .unwrap();
    assert_eq!(
        response.to_string(),
        "HTTP/1.1 200 Ok\r\nServer: Mini\r\nDate: today\r\nContent-Length: 4\r\n\r\nfour"
    );
}

#[test]
fn a_response_without_body_ends_with_the_empty_line() {
    let response = ResponseBuilder::empty_404().build().unwrap();
    assert_eq!(response.to_string(), "HTTP/1.1 404 Not Found\r\n\r\n");
    assert!(response.body().is_none());
    assert!(response.body_as_string().is_none());
}

#[test]
fn a_body_that_is_not_text_is_left_out_of_the_text() {
    let response = ResponseBuilder::empty_200().body(&[0xff, 0xfe]).build().unwrap();
    assert_eq!(response.to_string(), "HTTP/1.1 200 Ok\r\nContent-Length: 2\r\n\r\n");
    assert_eq!(response.body().unwrap(), &vec![0xff, 0xfe]);
    assert!(response.body_as_string().is_none());
}

#[test]
fn the_statuses_have_their_codes_and_phrases() {
    assert_eq!(Reason::OK200.code(), 200);
    assert_eq!(Reason::BADREQUEST400.code(), 400);
    assert_eq!(Reason::NOTFOUND404.code(), 404);
    assert_eq!(Reason::INTERNAL500.code(), 500);
    assert_eq!(Reason::OK200.reason(), "Ok");
    assert_eq!(Reason::BADREQUEST400.reason(), "Bad Request");
    assert_eq!(Reason::NOTFOUND404.reason(), "Not Found");
    assert_eq!(Reason::INTERNAL500.reason(), "Internal Server Error");
}

#[test]
fn the_ready_made_builders_hold_their_status() {
    let r500 = ResponseBuilder::empty_500().build().unwrap();
    assert_eq!((r500.code(), r500.reason().as_str()), (500, "Internal Server Error"));
    let r400 = ResponseBuilder::empty_400().build().unwrap();
    assert_eq!((r400.code(), r400.reason().as_str()), (400, "Bad Request"));
    let r200 = ResponseBuilder::empty_200().build().unwrap();
    assert_eq!((r200.code(), r200.reason().as_str()), (200, "Ok"));
    assert_eq!(*r200.version(), Version::HTTP11);
    assert_eq!(r200.headers().len(), 0);
}

#[test]
fn a_response_needs_a_code_and_a_reason() {
    assert_eq!(ResponseBuilder::new().build().unwrap_err(), BuildError::Incomplete);
    assert_eq!(ResponseBuilder::new().code(200).build().unwrap_err(), BuildError::Incomplete);
    assert_eq!(
        ResponseBuilder::new().reason(String::from("Ok")).build().unwrap_err(),
        BuildError::Incomplete
    );
    let built: Response =
        ResponseBuilder::default().code(204).reason(String::from("No Content")).build().unwrap();
    assert_eq!(built.to_string(), "HTTP/1.1 204 No Content\r\n\r\n");
    let status = ResponseBuilder::new().status(Reason::NOTFOUND404).build().unwrap();
    assert_eq!(status.code(), 404);
}

#[test]
fn response_headers_can_be_given_whole_or_one_by_one() {
    let mut headers = Headers::new();
    headers.set_header("Server", "Mini");
    let response = ResponseBuilder::empty_200()
        .headers(headers)
        .header("X-Trace", "ABC")
        .header("server", "other")
        .version(Version::HTTP11)
        .build()
        .unwrap();
    assert_eq!(response.headers().get_header("server").unwrap(), "other");
    assert_eq!(response.headers().get_header("x-trace").unwrap(), "ABC");
    assert_eq!(response.to_string(), "HTTP/1.1 200 Ok\r\nserver: other\r\nX-Trace: ABC\r\n\r\n");
    let given = ResponseBuilder::empty_200().header("Accept", "Text/HTML").build().unwrap();
    assert_eq!(given.headers().get_header("accept").unwrap(), "Text/HTML");
}

#[test]
fn a_negative_code_is_written_with_its_sign() {
    let response = ResponseBuilder::new().code(-7).reason(String::from("x")).build().unwrap();
    assert_eq!(response.to_string(), "HTTP/1.1 -7 x\r\n\r\n");
    assert_eq!(signed_decimal_string(i32::MIN), "-2147483648");
    assert_eq!(signed_decimal_string(i32::MAX), "2147483647");
    assert_eq!(signed_decimal_string(0), "0");
}

#[test]
fn a_request_needs_method_path_and_version() {
    assert!(RequestBuilder::new().build().is_err());
    assert_eq!(
        RequestBuilder::new().method(Method::GET).build().unwrap_err(),
        BuildError::Incomplete
    );
    assert!(RequestBuilder::new().method(Method::GET).path(String::from("/")).build().is_err());
    assert!(RequestBuilder::default()
        .path(String::from("/"))
        .version(Version::HTTP11)
        .build()
        .is_err());
    let mut headers = Headers::new();
    headers.set_header("Host", "Example");
    let request = RequestBuilder::new()
        .method(Method::PUT)
        .path(String::from("/x"))
        .version(Version::HTTP11)
        .headers(headers)
        .body(b"abc")
        .build()
        .unwrap();
    assert_eq!(*request.method(), Method::PUT);
    assert_eq!(request.path(), "/x");
    assert_eq!(*request.version(), Version::HTTP11);
    assert_eq!(request.headers().get_header("host").unwrap(), "Example");
    assert_eq!(request.body().unwrap(), b"abc");
    assert_eq!(request.body_as_string().unwrap(), "abc");
    assert_eq!(request.to_string(), "PUT /x HTTP/1.1\r\nHost: Example\r\n\r\nabc");
}

#[test]
fn numerals_are_written_without_leading_zeros() {
    assert_eq!(decimal_string(0), "0");
    assert_eq!(decimal_string(7), "7");
    assert_eq!(decimal_string(10), "10");
    assert_eq!(decimal_string(8192), "8192");
    assert_eq!(decimal_string(usize::MAX), usize::MAX.to_string());
}

#[test]
fn lengths_are_read_as_decimal_numbers() {
    assert_eq!(parse_length("0"), Some(0));
    assert_eq!(parse_length("0016"), Some(16));
    assert_eq!(parse_length("+16"), Some(16));
    assert_eq!(parse_length(&usize::MAX.to_string()), Some(usize::MAX));
    assert_eq!(parse_length("18446744073709551616"), None);
    assert_eq!(parse_length(""), None);
    assert_eq!(parse_length("+"), None);
    assert_eq!(parse_length("-1"), None);
    assert_eq!(parse_length("1a"), None);
    assert_eq!(parse_length(" 1"), None);
    assert_eq!(parse_length("١"), None);
}

#[test]
fn lowering_touches_only_ascii_capitals() {
    let mut headers = Headers::new();
    headers.set_header("Content-TYPE", "ÄB1_z");
    headers.set_header("ÄB", "");
    assert_eq!(headers.get_header("content-type").unwrap(), "ÄB1_z");
    assert_eq!(headers.get_header("Äb").unwrap(), "");
    let names: Vec<String> = {
        let mut it = headers.iter();
        let mut names = Vec::new();
        while let Some((name, _)) = it.next() {
            names.push(name.clone());
        }
        names
    };
    assert_eq!(names, vec![String::from("content-type"), String::from("Äb")]);
    assert!(headers.get_header("äb").is_none());
    assert_eq!(headers.len(), 2);
}
