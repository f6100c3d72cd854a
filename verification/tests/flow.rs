use bycat_http::extract::{extract_start, extract_step, from_extension, Ext, ExtractAction, State};
use bycat_http::handler::{handler, handler_step, HandlerAction, HandlerState, RouteHandler};
use bycat_http::matcher::{or_finish, or_start, or_step, FilterService, OrAction, OrState};
use bycat_http::response::text_response;
use bycat_http::error::Error;
use bycat_http::modifier::{modify_plan, ModifyStep};
use bycat_http::serve::{
    accept_retry_delay, connection_error_line, is_connection_error, serve_step, AcceptErrorKind,
    Server, ServeAction,
};

#[test]
fn or_prefers_left() {
    let s = or_start();
    assert!(s == OrState::CheckLeft);
    let (s1, a1) = or_step(s, true);
    assert!(s1 == OrState::Left && a1 == OrAction::CallLeft);
}

#[test]
fn or_falls_back_to_right_then_not_found() {
    let (s1, a1) = or_step(or_start(), false);
    assert!(s1 == OrState::CheckRight && a1 == OrAction::AskRight);
    let (s2, a2) = or_step(OrState::CheckRight, true);
    assert!(s2 == OrState::Right && a2 == OrAction::CallRight);
    let (s3, a3) = or_step(OrState::CheckRight, false);
    assert!(s3 == OrState::NotFound && a3 == OrAction::FailNotFound);
}

#[test]
fn filter_service_holds_its_parts() {
    let _f = FilterService::new(1u8, "filter");
}

#[test]
fn extractors_run_in_order_until_one_fails() {
    assert!(extract_start(0) == ExtractAction::Finish);
    assert!(extract_start(3) == ExtractAction::Run(0));
    assert!(extract_step(0, 3, true) == ExtractAction::Run(1));
    assert!(extract_step(1, 3, true) == ExtractAction::Run(2));
    assert!(extract_step(2, 3, true) == ExtractAction::Finish);
    assert!(extract_step(1, 3, false) == ExtractAction::Fail);
}

#[test]
fn missing_extension_names_the_type() {
    match Ext::<u8>::from_found(None, "u8") {
        Err(e) => assert_eq!(e.message(), "Type \"u8\" not found in state"),
        Ok(_) => panic!("expected an error"),
    }
    match State::from_found(Some(3u8), "u8") {
        Ok(s) => assert_eq!(s.0, 3),
        Err(_) => panic!("expected the value"),
    }
    match from_extension::<u8>(None, "Missing UrlParams") {
        Err(e) => {
            assert_eq!(e.message(), "Missing UrlParams");
            assert_eq!(e.into_response().status, 500);
        }
        Ok(_) => panic!("expected an error"),
    }
    assert!(matches!(from_extension(Some(9u8), "unused"), Ok(9)));
}

#[test]
fn handler_calls_only_after_extraction() {
    let (s, a) = handler_step(HandlerState::Extracting, true);
    assert!(s == HandlerState::Running && a == HandlerAction::Call);
    let (_, a) = handler_step(HandlerState::Extracting, false);
    assert!(a == HandlerAction::Fail);
    let (_, a) = handler_step(HandlerState::Running, true);
    assert!(a == HandlerAction::Respond);
    assert_eq!(*handler(5u8).get(), 5);
    assert_eq!(*RouteHandler::new(6u8).inner(), 6);
}

#[test]
fn modifiers_run_in_registration_order() {
    let plan = modify_plan(2, true);
    let expected = vec![
        ModifyStep::Before(0),
        ModifyStep::Before(1),
        ModifyStep::Handle,
        ModifyStep::Modify(0),
        ModifyStep::Modify(1),
    ];
    assert!(plan == expected);
    let failed = modify_plan(2, false);
    assert!(failed == vec![ModifyStep::Before(0), ModifyStep::Before(1), ModifyStep::Handle]);
    assert!(modify_plan(0, true) == vec![ModifyStep::Handle]);
}

#[test]
fn accept_loop_serves_before_shutting_down() {
    assert!(serve_step(true, true) == ServeAction::Serve);
    assert!(serve_step(false, true) == ServeAction::Shutdown);
    assert!(serve_step(false, false) == ServeAction::Wait);
}

#[test]
fn accept_errors_pause_unless_connection_errors() {
    assert!(is_connection_error(&AcceptErrorKind::ConnectionReset));
    assert!(!is_connection_error(&AcceptErrorKind::Other));
    assert_eq!(accept_retry_delay(&AcceptErrorKind::ConnectionRefused), 0);
    assert_eq!(accept_retry_delay(&AcceptErrorKind::ConnectionAborted), 0);
    assert_eq!(accept_retry_delay(&AcceptErrorKind::Other), 1);
    assert_eq!(connection_error_line("reset"), "server error: reset");
}

#[test]
fn server_upgrades_only_when_asked() {
    let s = Server::new((), 1u8);
    assert!(!s.serves_with_upgrades());
    assert!(s.with_upgrade(true).serves_with_upgrades());
}

#[test]
fn or_resolves_to_the_called_answer_or_not_found() {
    match or_finish(OrState::Left, Some(Ok(text_response("left")))) {
        Ok(r) => assert_eq!(r.body, b"left".to_vec()),
        Err(_) => panic!("expected the left answer"),
    }
    match or_finish(OrState::Right, Some(Err(Error::custom("boom".to_string())))) {
        Err(e) => assert_eq!(e.message(), "boom"),
        Ok(_) => panic!("expected the right error"),
    }
    match or_finish(OrState::NotFound, None) {
        Err(e) => assert_eq!(e.into_response().status, 404),
        Ok(_) => panic!("expected not found"),
    }
}

#[test]
fn missing_type_names_are_shown_in_debug_form() {
    match Ext::<u8>::from_found(None, "a\"b\\c") {
        Err(e) => assert_eq!(e.message(), "Type \"a\\\"b\\\\c\" not found in state"),
        Ok(_) => panic!("expected an error"),
    }
    match State::<u8>::from_found(None, "é\n") {
        Err(e) => assert_eq!(e.message(), "Type \"é\\n\" not found in state"),
        Ok(_) => panic!("expected an error"),
    }
}
