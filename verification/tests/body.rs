use bycat_http::body::{Body, BodyPoll};

#[test]
fn body_in_memory_yields_once_then_ends() {
    let mut b = Body::<()>::from_bytes(b"hello".to_vec());
    assert_eq!(b.size_hint(), Some(5));
    assert_eq!(b.is_end_stream(), Some(false));
    match b.poll_frame() {
        BodyPoll::Data(d) => assert_eq!(d, b"hello".to_vec()),
        _ => panic!("expected data"),
    }
    assert!(matches!(b.poll_frame(), BodyPoll::End));
    assert_eq!(b.size_hint(), Some(0));
    assert_eq!(b.is_end_stream(), Some(true));
}

#[test]
fn empty_body_ends_at_once() {
    let mut b = Body::<()>::empty();
    assert!(matches!(b.poll_frame(), BodyPoll::End));
    let mut t = Body::<()>::from_text("");
    assert!(matches!(t.poll_frame(), BodyPoll::End));
}

#[test]
fn text_body_holds_utf8() {
    let mut b = Body::<()>::from_text("é");
    match b.poll_frame() {
        BodyPoll::Data(d) => assert_eq!(d, vec![0xc3, 0xa9]),
        _ => panic!("expected data"),
    }
}

#[test]
fn streaming_body_answers_for_itself() {
    let mut b = Body::from_streaming(3u8);
    assert!(matches!(b.poll_frame(), BodyPoll::Inner));
    assert_eq!(b.size_hint(), None);
    assert_eq!(b.is_end_stream(), None);
    assert!(matches!(b, Body::Streaming(3)));
}
