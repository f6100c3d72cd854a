use bycat_http::router::{layer_plan, route_action, Layer, RouteAction, UrlParams};

#[test]
fn url_params_set_then_get() {
    let mut p = UrlParams::new();
    assert!(p.get("id").is_none());
    assert!(p.get_at(0).is_none());
    p.set("id", "42");
    p.set("name", "ada");
    assert_eq!(p.get("id").map(|s| s.as_str()), Some("42"));
    assert_eq!(p.get("name").map(|s| s.as_str()), Some("ada"));
    assert_eq!(p.get_at(0).map(|s| s.as_str()), Some("42"));
    assert_eq!(p.get_at(1).map(|s| s.as_str()), Some("ada"));
    assert!(p.get_at(2).is_none());
    assert!(p.get("other").is_none());
}

#[test]
fn url_params_last_binding_wins() {
    let mut p = UrlParams::new();
    p.set("id", "1");
    p.set("id", "2");
    assert_eq!(p.get("id").map(|s| s.as_str()), Some("2"));
    assert_eq!(p.get_at(0).map(|s| s.as_str()), Some("1"));
    assert_eq!(p.get_at(1).map(|s| s.as_str()), Some("2"));
}

#[test]
fn matched_route_is_called() {
    let methods = vec![b"GET".to_vec()];
    let mut params = UrlParams::new();
    params.set("id", "7");
    match route_action(Some(params), b"GET", &methods, false) {
        RouteAction::CallRoute(p) => assert_eq!(p.get("id").map(|s| s.as_str()), Some("7")),
        _ => panic!("expected the route"),
    }
    assert!(matches!(
        route_action(Some(UrlParams::new()), b"OPTIONS", &methods, true),
        RouteAction::CallRoute(_)
    ));
}

#[test]
fn options_answers_with_allowed_methods() {
    let methods = vec![b"GET".to_vec(), b"POST".to_vec()];
    match route_action(None, b"OPTIONS", &methods, true) {
        RouteAction::Respond(r) => {
            assert_eq!(r.status, 204);
            assert!(r.body.is_empty());
            assert_eq!(r.headers, vec![(b"allow".to_vec(), b"GET,POST".to_vec())]);
        }
        _ => panic!("expected a response"),
    }
}

#[test]
fn unmatched_goes_to_fallback_else_404() {
    let methods: Vec<Vec<u8>> = Vec::new();
    assert!(matches!(route_action(None, b"GET", &methods, true), RouteAction::CallFallback));
    match route_action(None, b"DELETE", &methods, false) {
        RouteAction::Respond(r) => {
            assert_eq!(r.status, 404);
            assert!(r.headers.is_empty());
            assert!(r.body.is_empty());
        }
        _ => panic!("expected a 404"),
    }
}

#[test]
fn layers_wrap_globals_then_matching_groups() {
    let groups = vec![(true, 2usize), (false, 3usize), (true, 1usize)];
    let plan = layer_plan(2, &groups);
    let expected = vec![
        Layer::Global(1),
        Layer::Global(0),
        Layer::Path(0, 1),
        Layer::Path(0, 0),
        Layer::Path(2, 0),
    ];
    assert!(plan == expected);
}

#[test]
fn layers_of_no_middleware() {
    assert!(layer_plan(0, &Vec::new()).is_empty());
    assert!(layer_plan(1, &Vec::new()) == vec![Layer::Global(0)]);
}
