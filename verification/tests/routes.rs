use http_server::request::Method;
use http_server::routes::{Route, RouteBuilder, Routes};
use http_server::types::ServerFunction;

fn built(path: &str, method: Method, function: ServerFunction, exact: bool) -> Route {
    RouteBuilder::new().path(path).method(method).api_function(function).exact(exact).build()
}

fn lookup(table: &Routes, path: &str, method: Method) -> Option<ServerFunction> {
    table.get_api_function(path.to_string(), method)
}

#[test]
fn production_table_exact_routes() {
    let table = Routes::init();
    assert_eq!(lookup(&table, "/", Method::Get), Some(ServerFunction::Home));
    assert_eq!(lookup(&table, "/user-agent", Method::Get), Some(ServerFunction::UserAgent));
    assert_eq!(lookup(&table, "/user-agent/", Method::Get), None);
    assert_eq!(lookup(&table, "/user-agent/x", Method::Get), None);
    assert_eq!(lookup(&table, "/user-agen", Method::Get), None);
    assert_eq!(lookup(&table, "", Method::Get), None);
    assert_eq!(lookup(&table, "//", Method::Get), None);
}

#[test]
fn production_table_prefix_routes() {
    let table = Routes::init();
    assert_eq!(lookup(&table, "/echo", Method::Get), Some(ServerFunction::Echo));
    assert_eq!(lookup(&table, "/echo/abc", Method::Get), Some(ServerFunction::Echo));
    assert_eq!(lookup(&table, "/files/x", Method::Get), Some(ServerFunction::FileGet));
    assert_eq!(lookup(&table, "/files/x", Method::Post), Some(ServerFunction::FilePost));
    assert_eq!(lookup(&table, "/files", Method::Post), Some(ServerFunction::FilePost));
}

#[test]
fn prefix_routes_ignore_segment_boundaries() {
    let table = Routes::init();
    assert_eq!(lookup(&table, "/filesabc", Method::Get), Some(ServerFunction::FileGet));
    assert_eq!(lookup(&table, "/files2", Method::Post), Some(ServerFunction::FilePost));
    assert_eq!(lookup(&table, "/echoes", Method::Get), Some(ServerFunction::Echo));
}

#[test]
fn unknown_path_or_method_resolves_to_nothing() {
    let table = Routes::init();
    assert_eq!(lookup(&table, "/unknown", Method::Get), None);
    assert_eq!(lookup(&table, "/Echo/x", Method::Get), None);
    assert_eq!(lookup(&table, "/", Method::Post), None);
    assert_eq!(lookup(&table, "/echo/abc", Method::Post), None);
    assert_eq!(lookup(&table, "/user-agent", Method::Post), None);
    assert_eq!(lookup(&table, "/file", Method::Get), None);
    assert_eq!(lookup(&table, "x/files", Method::Get), None);
}

#[test]
fn first_listed_route_wins() {
    let general_first = Routes::new(vec![
        built("/a", Method::Get, ServerFunction::Home, false),
        built("/a/b", Method::Get, ServerFunction::Echo, false),
    ]);
    assert_eq!(lookup(&general_first, "/a/b/c", Method::Get), Some(ServerFunction::Home));
    assert_eq!(lookup(&general_first, "/a/b", Method::Get), Some(ServerFunction::Home));

    let specific_first = Routes::new(vec![
        built("/a/b", Method::Get, ServerFunction::Echo, false),
        built("/a", Method::Get, ServerFunction::Home, false),
    ]);
    assert_eq!(lookup(&specific_first, "/a/b/c", Method::Get), Some(ServerFunction::Echo));
    assert_eq!(lookup(&specific_first, "/a/x", Method::Get), Some(ServerFunction::Home));
}

#[test]
fn first_of_two_equal_routes_wins() {
    let table = Routes::new(vec![
        built("/same", Method::Get, ServerFunction::UserAgent, true),
        built("/same", Method::Get, ServerFunction::Home, true),
        built("/same", Method::Get, ServerFunction::Echo, false),
    ]);
    assert_eq!(lookup(&table, "/same", Method::Get), Some(ServerFunction::UserAgent));
    assert_eq!(lookup(&table, "/same/x", Method::Get), Some(ServerFunction::Echo));
}

#[test]
fn route_of_another_method_is_passed_over() {
    let table = Routes::new(vec![
        built("/a", Method::Post, ServerFunction::FilePost, false),
        built("/a", Method::Get, ServerFunction::FileGet, false),
    ]);
    assert_eq!(lookup(&table, "/a/b", Method::Get), Some(ServerFunction::FileGet));
    assert_eq!(lookup(&table, "/a/b", Method::Post), Some(ServerFunction::FilePost));
}

#[test]
fn exact_route_matches_only_the_whole_path() {
    let table = Routes::new(vec![built("/a", Method::Get, ServerFunction::Home, true)]);
    assert_eq!(lookup(&table, "/a", Method::Get), Some(ServerFunction::Home));
    assert_eq!(lookup(&table, "/a/", Method::Get), None);
    assert_eq!(lookup(&table, "/", Method::Get), None);
    assert_eq!(lookup(&table, "/A", Method::Get), None);
}

#[test]
fn empty_prefix_matches_every_path() {
    let table = Routes::new(vec![built("", Method::Get, ServerFunction::Home, false)]);
    assert_eq!(lookup(&table, "", Method::Get), Some(ServerFunction::Home));
    assert_eq!(lookup(&table, "/anything", Method::Get), Some(ServerFunction::Home));
    assert_eq!(lookup(&table, "/anything", Method::Post), None);
}

#[test]
fn empty_table_resolves_nothing() {
    let table = Routes::new(Vec::new());
    assert_eq!(lookup(&table, "/", Method::Get), None);
}

#[test]
fn builder_parts_can_be_given_in_any_order_and_again() {
    let r = RouteBuilder::new()
        .exact(true)
        .api_function(ServerFunction::Home)
        .method(Method::Post)
        .path("/x")
        .method(Method::Get)
        .exact(false)
        .build();
    let table = Routes::new(vec![r]);
    assert_eq!(lookup(&table, "/x/y", Method::Get), Some(ServerFunction::Home));
    assert_eq!(lookup(&table, "/x/y", Method::Post), None);
}
