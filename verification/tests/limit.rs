use bycat_http::bytes_text::decimal;
use bycat_http::limit::{
    limit_finish, limit_refused, limited_body, LimitStart, RequestBodyLimit,
    RequestBodyLimitWorkResponse,
};
use bycat_http::response::text_response;

#[test]
fn declared_length_over_limit_is_refused() {
    let work = RequestBodyLimit(10).wrap(());
    let r = work.check(&Some(b"11".to_vec())).expect("refused");
    assert_eq!(r.status, 413);
    assert!(r.headers.is_empty());
    assert!(r.body.is_empty());
}

#[test]
fn declared_length_within_limit_passes() {
    let work = RequestBodyLimit(10).wrap(());
    assert!(work.check(&Some(b"10".to_vec())).is_none());
    assert!(work.check(&Some(b"0".to_vec())).is_none());
    assert!(work.check(&None).is_none());
}

#[test]
fn unreadable_length_passes() {
    let work = RequestBodyLimit(1).wrap(());
    assert!(work.check(&Some(b"abc".to_vec())).is_none());
    assert!(work.check(&Some(vec![0xff, 0x31])).is_none());
    assert!(work.check(&Some(b"99999999999999999999999".to_vec())).is_none());
}

#[test]
fn written_length_reads_back_against_the_limit() {
    let work = RequestBodyLimit(413).wrap(());
    assert!(work.check(&Some(decimal(413))).is_none());
    assert!(work.check(&Some(decimal(414))).is_some());
}

#[test]
fn limited_work_response() {
    let refused = RequestBodyLimitWorkResponse::<bycat_http::response::Response>::Error(
        text_response("too big"),
    );
    assert_eq!(refused.into_response().body, b"too big".to_vec());
    let passed = RequestBodyLimitWorkResponse::Work(text_response("ok"));
    assert_eq!(passed.into_response().body, b"ok".to_vec());
}

#[test]
fn limited_body_counts_frames_into_the_limit() {
    let mut b = limited_body(4);
    assert_eq!(b.limit, 4);
    assert_eq!(b.read, 0);
    assert!(!b.exhausted());
    b.on_frame(Some(5));
    assert_eq!(b.limit, 9);
    assert_eq!(b.read, 0);
    b.on_frame(None);
    assert_eq!(b.limit, 9);
    assert!(!b.exhausted());
    assert!(limited_body(0).exhausted());
}

#[test]
fn limited_work_starts_by_refusing_or_calling() {
    let work = RequestBodyLimit(10).wrap(());
    match work.start(&Some(b"11".to_vec())) {
        LimitStart::Refuse(r) => assert_eq!(r.status, 413),
        LimitStart::Call(_) => panic!("expected a refusal"),
    }
    match work.start(&None) {
        LimitStart::Call(b) => {
            assert_eq!(b.limit, 10);
            assert_eq!(b.read, 0);
        }
        LimitStart::Refuse(_) => panic!("expected a call"),
    }
    assert!(matches!(limit_finish::<u8, ()>(Ok(3)), Ok(RequestBodyLimitWorkResponse::Work(3))));
    assert!(matches!(limit_finish::<u8, &str>(Err("e")), Err("e")));
    assert!(matches!(
        limit_refused::<u8, ()>(text_response("no")),
        Ok(RequestBodyLimitWorkResponse::Error(_))
    ));
}
