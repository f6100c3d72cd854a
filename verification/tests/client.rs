use bycat_http::client::{
    get, media_type_or_default, response_file_name, response_media_type, stream_item, FrameKind,
    StreamItem,
};
use bycat_http::cookies::{
    cookie_pieces, cookie_value, cookie_work_finish, jar_from_cookie_values, remove_cookie,
    set_cookie, set_cookie_values, take_set_cookie_values, Cookies,
};
use bycat_http::error::Error;
use bycat_http::response::text_response;
use bycat_http::multipart::{boundary_outcome, multipart_boundary};

#[test]
fn file_name_of_url_path() {
    assert_eq!(response_file_name("/a/b.txt"), "b.txt");
    assert_eq!(response_file_name("/files/report.pdf/."), "report.pdf");
    assert_eq!(response_file_name("/"), "unknown");
    assert_eq!(response_file_name("/a/.."), "unknown");
    assert_eq!(response_file_name(""), "unknown");
}

#[test]
fn media_type_of_response() {
    assert_eq!(response_media_type(&Some(b"application/json".to_vec())), "application/json");
    assert_eq!(response_media_type(&Some(b"not a type".to_vec())), "application/octet-stream");
    assert_eq!(response_media_type(&Some(vec![0xff])), "application/octet-stream");
    assert_eq!(response_media_type(&None), "application/octet-stream");
    assert_eq!(media_type_or_default(Some("text/plain".to_string())), "text/plain");
    assert_eq!(media_type_or_default(None), "application/octet-stream");
}

#[test]
fn body_frames_to_stream_items() {
    assert!(matches!(stream_item(FrameKind::Data(b"x".to_vec())), StreamItem::Bytes(b) if b == b"x".to_vec()));
    assert!(matches!(stream_item(FrameKind::Other), StreamItem::Skip));
    assert!(matches!(stream_item(FrameKind::Failed("reset".to_string())), StreamItem::Failure(m) if m == "reset"));
    assert!(matches!(stream_item(FrameKind::End), StreamItem::Done));
}

#[test]
fn multipart_boundary_from_content_type() {
    match multipart_boundary(&Some(b"multipart/form-data; boundary=ABC".to_vec())) {
        Ok(b) => assert_eq!(b, "ABC"),
        Err(_) => panic!("expected a boundary"),
    }
    match multipart_boundary(&Some(b"text/plain".to_vec())) {
        Err(e) => assert_eq!(e.message(), "Bad request"),
        Ok(_) => panic!("expected an error"),
    }
    assert!(multipart_boundary(&None).is_err());
    assert!(multipart_boundary(&Some(vec![0xff])).is_err());
    assert!(matches!(boundary_outcome(Some("x".to_string())), Ok(b) if b == "x"));
}

#[test]
fn cookie_fields_split_on_semicolons() {
    let fields = vec![b"a=1; b=2".to_vec(), vec![0xff], b"c=3".to_vec()];
    assert_eq!(
        cookie_pieces(&fields),
        vec![b"a=1".to_vec(), b" b=2".to_vec(), b"c=3".to_vec()]
    );
    assert_eq!(cookie_pieces(&vec![b"".to_vec()]), vec![Vec::<u8>::new()]);
    assert_eq!(cookie_pieces(&vec![b"x;".to_vec()]), vec![b"x".to_vec(), Vec::new()]);
}

#[test]
fn set_cookie_values_skip_invalid_encodings() {
    let encoded = vec!["a=1; Path=/".to_string(), "bad\nvalue".to_string(), "b=2".to_string()];
    assert_eq!(
        set_cookie_values(&encoded),
        vec![b"a=1; Path=/".to_vec(), b"b=2".to_vec()]
    );
    assert_eq!(*Cookies.wrap(4u8).inner(), 4);
}

#[test]
fn get_builds_a_request_for_an_absolute_url() {
    let req = get("http://example.com/files/a.txt").ok().expect("a request");
    assert_eq!(req.url, "http://example.com/files/a.txt");
    let req = get("HTTP://Example.COM").ok().expect("a request");
    assert_eq!(req.url, "http://example.com/");
    match get("not a url") {
        Err(e) => assert_eq!(e.message(), "relative URL without a base"),
        Ok(_) => panic!("expected an error"),
    }
}

#[test]
fn jar_holds_the_parsed_cookies_last_one_winning() {
    let fields = vec![b"a=1; b=two%20words".to_vec(), vec![0xff], b"a=3;bad".to_vec()];
    let mut jar = jar_from_cookie_values(&fields);
    assert_eq!(jar.get("a").map(|c| c.value().to_string()), Some("3".to_string()));
    assert_eq!(jar.get("b").map(|c| c.value().to_string()), Some("two words".to_string()));
    assert!(jar.get("bad").is_none());
    assert!(take_set_cookie_values(&mut jar).is_empty());
    jar.add(("c", "x y"));
    assert_eq!(take_set_cookie_values(&mut jar), vec![b"c=x%20y".to_vec()]);
    assert!(take_set_cookie_values(&mut jar).is_empty());
}

#[test]
fn added_cookie_is_sent_once() {
    let mut jar = jar_from_cookie_values(&vec![b"a=1".to_vec()]);
    assert_eq!(cookie_value(&jar, "a"), Some("1".to_string()));
    set_cookie(&mut jar, "b", "2");
    assert_eq!(cookie_value(&jar, "b"), Some("2".to_string()));
    match cookie_work_finish(&mut jar, Ok(text_response("ok"))) {
        Ok(r) => {
            assert_eq!(r.body, b"ok".to_vec());
            assert_eq!(r.headers.len(), 2);
            assert_eq!(r.headers[1], (b"set-cookie".to_vec(), b"b=2".to_vec()));
        }
        Err(_) => panic!("expected the response"),
    }
    match cookie_work_finish(&mut jar, Ok(text_response("again"))) {
        Ok(r) => assert_eq!(r.headers.len(), 1),
        Err(_) => panic!("expected the response"),
    }
    remove_cookie(&mut jar, "a");
    assert_eq!(cookie_value(&jar, "a"), None);
    set_cookie(&mut jar, "c", "3");
    match cookie_work_finish(&mut jar, Err(Error::not_found())) {
        Err(e) => assert_eq!(e.message(), "Not Found"),
        Ok(_) => panic!("expected the error"),
    }
    assert_eq!(take_set_cookie_values(&mut jar).len(), 2);
}
