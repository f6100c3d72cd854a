use bycat_http::error::Error;
use bycat_http::response::{json_decoded, json_response, result_response, text_response, Html};

fn header<'a>(headers: &'a [(Vec<u8>, Vec<u8>)], name: &[u8]) -> Option<&'a [u8]> {
    headers.iter().find(|(n, _)| n.as_slice() == name).map(|(_, v)| v.as_slice())
}

#[test]
fn text_body_is_plain_text() {
    let r = text_response("hello");
    assert_eq!(r.status, 200);
    assert_eq!(r.body, b"hello".to_vec());
    assert_eq!(r.headers.len(), 1);
    assert_eq!(header(&r.headers, b"content-type"), Some(&b"text/plain"[..]));
}

#[test]
fn html_body_is_html() {
    let r = Html(b"<p>hi</p>".to_vec()).into_response();
    assert_eq!(r.status, 200);
    assert_eq!(r.body, b"<p>hi</p>".to_vec());
    assert_eq!(header(&r.headers, b"content-type"), Some(&b"text/html"[..]));
}

#[test]
fn json_body_declares_type_and_length() {
    let r = json_response(Ok(b"{\"a\":1}".to_vec()));
    assert_eq!(r.status, 200);
    assert_eq!(r.body, b"{\"a\":1}".to_vec());
    assert_eq!(r.headers.len(), 2);
    assert_eq!(r.headers[0], (b"content-type".to_vec(), b"application/json".to_vec()));
    assert_eq!(r.headers[1], (b"content-length".to_vec(), b"7".to_vec()));
}

#[test]
fn json_encoding_failure_answers_500() {
    let r = json_response(Err("key must be a string".to_string()));
    assert_eq!(r.status, 500);
    assert!(r.headers.is_empty());
    assert_eq!(r.body, b"key must be a string".to_vec());
}

#[test]
fn json_decoding_outcome() {
    match json_decoded(Ok(5u32)) {
        Ok(j) => assert_eq!(j.0, 5),
        Err(_) => panic!("expected a value"),
    }
    match json_decoded::<u32>(Err("EOF while parsing".to_string())) {
        Err(e) => {
            assert_eq!(e.message(), "EOF while parsing");
            assert_eq!(e.into_response().status, 500);
        }
        Ok(_) => panic!("expected an error"),
    }
}

#[test]
fn work_outcome_to_response() {
    assert_eq!(result_response(Ok(text_response("hi"))).body, b"hi".to_vec());
    let r = result_response(Err(Error::not_found()));
    assert_eq!(r.status, 404);
    assert_eq!(r.body, b"Not Found".to_vec());
}
