use bycat_http::cors::{cors_plan, AllowedHeaders, AllowedOrigins, Cors, CorsHeader};
use bycat_http::method::MethodFilter;

fn names(sets: &[(CorsHeader, Vec<u8>)]) -> Vec<Vec<u8>> {
    sets.iter().map(|(h, _)| h.name()).collect()
}

fn value_of(sets: &[(CorsHeader, Vec<u8>)], name: &[u8]) -> Option<Vec<u8>> {
    sets.iter().find(|(h, _)| h.name() == name).map(|(_, v)| v.clone())
}

#[test]
fn default_policy_sets_nothing_on_simple_request() {
    let cors = Cors::new();
    let plan = cors_plan(b"GET", false);
    assert!(!plan.preflight);
    assert!(cors.response_sets(&plan).is_empty());
}

#[test]
fn options_without_request_method_passes_through() {
    let cors = Cors::new().allowed_origin(AllowedOrigins::Any);
    let plan = cors_plan(b"OPTIONS", false);
    assert!(plan.preflight);
    assert!(plan.passthrough);
    assert!(cors.response_sets(&plan).is_empty());
}

#[test]
fn preflight_lists_default_methods() {
    let cors = Cors::new();
    let plan = cors_plan(b"OPTIONS", true);
    assert!(plan.preflight && !plan.passthrough);
    let sets = cors.response_sets(&plan);
    assert_eq!(names(&sets), vec![b"access-control-allow-methods".to_vec()]);
    assert_eq!(sets[0].1, b"GET,POST,PUT,PATCH,DELETE".to_vec());
}

#[test]
fn preflight_with_any_origin_and_header_list() {
    let cors = Cors::new()
        .allowed_origin(AllowedOrigins::Any)
        .allowed_headers(AllowedHeaders::List(vec![
            "content-type".to_string(),
            "x-token".to_string(),
        ]))
        .allowed_methods(MethodFilter::all());
    let sets = cors.response_sets(&cors_plan(b"OPTIONS", true));
    assert_eq!(
        names(&sets),
        vec![
            b"access-control-allow-origin".to_vec(),
            b"access-control-allow-headers".to_vec(),
            b"access-control-allow-methods".to_vec(),
        ]
    );
    assert_eq!(value_of(&sets, b"access-control-allow-origin"), Some(b"*".to_vec()));
    assert_eq!(
        value_of(&sets, b"access-control-allow-headers"),
        Some(b"content-type, x-token".to_vec())
    );
    assert_eq!(
        value_of(&sets, b"access-control-allow-methods"),
        Some(b"GET,POST,PUT,PATCH,DELETE,HEAD,OPTIONS,CONNECT,TRACE".to_vec())
    );
}

#[test]
fn simple_request_gets_only_origin() {
    let cors = Cors::new()
        .allowed_origin(AllowedOrigins::Origin(b"https://example.com".to_vec()))
        .allowed_headers(AllowedHeaders::Any);
    let sets = cors.response_sets(&cors_plan(b"POST", false));
    assert_eq!(names(&sets), vec![b"access-control-allow-origin".to_vec()]);
    assert_eq!(sets[0].1, b"https://example.com".to_vec());
}

#[test]
fn header_list_with_invalid_bytes_is_left_out() {
    let cors = Cors::new().allowed_headers(AllowedHeaders::List(vec!["bad\nname".to_string()]));
    let sets = cors.response_sets(&cors_plan(b"OPTIONS", true));
    assert_eq!(names(&sets), vec![b"access-control-allow-methods".to_vec()]);
}

#[test]
fn wrapped_work_sees_the_same_policy() {
    let cors = Cors::new().allowed_origin(AllowedOrigins::Any);
    let work = cors.wrap(7u8);
    assert_eq!(*work.inner(), 7);
    let sets = work.response_sets(b"OPTIONS", true);
    assert_eq!(
        names(&sets),
        vec![b"access-control-allow-origin".to_vec(), b"access-control-allow-methods".to_vec()]
    );
    assert!(work.response_sets(b"OPTIONS", false).is_empty());
}

#[test]
fn method_filter_sets() {
    assert!(MethodFilter::none().names().is_empty());
    let get = MethodFilter { get: true, ..MethodFilter::none() };
    let head = MethodFilter { head: true, ..MethodFilter::none() };
    assert_eq!(get.union(&head).names(), vec![b"GET".to_vec(), b"HEAD".to_vec()]);
    assert_eq!(MethodFilter::all().names().len(), 9);
}

#[test]
fn header_names_are_lower_case() {
    assert_eq!(CorsHeader::MaxAge.name(), b"access-control-max-age".to_vec());
    assert_eq!(
        CorsHeader::AllowCredentials.name(),
        b"access-control-allow-credentials".to_vec()
    );
}
