use render_api::routes::{find_route, handler, routes, same_text, Method};

const GREETING: &str = "Hello, Render API from Rust!";

#[test]
fn handler_returns_greeting() {
    assert_eq!(handler(), GREETING);
    assert_eq!(handler().len(), 28);
    assert!(!handler().ends_with('\n'));
}

#[test]
fn table_holds_get_root() {
    let table = routes();
    assert_eq!(table.len(), 1);
    assert_eq!(table[0].method, Method::Get);
    assert_eq!(table[0].path, "/");
    assert_eq!(table[0].body, GREETING);
}

#[test]
fn get_root_is_answered() {
    assert_eq!(find_route(&routes(), Method::Get, "/"), Some(GREETING));
}

#[test]
fn other_paths_are_not_answered() {
    let table = routes();
    assert_eq!(find_route(&table, Method::Get, "/missing"), None);
    assert_eq!(find_route(&table, Method::Get, ""), None);
    assert_eq!(find_route(&table, Method::Get, "//"), None);
    assert_eq!(find_route(&table, Method::Get, "/index.html"), None);
}

#[test]
fn other_methods_on_root_are_not_answered() {
    let table = routes();
    assert_eq!(find_route(&table, Method::Post, "/"), None);
    assert_eq!(find_route(&table, Method::Put, "/"), None);
    assert_eq!(find_route(&table, Method::Delete, "/"), None);
    assert_eq!(find_route(&table, Method::Patch, "/"), None);
    assert_eq!(find_route(&table, Method::Options, "/"), None);
}

#[test]
fn repeated_requests_get_the_same_body() {
    let table = routes();
    let bodies: Vec<Option<&str>> =
        (0..100).map(|_| find_route(&table, Method::Get, "/")).collect();
    assert!(bodies.iter().all(|b| *b == Some(GREETING)));
    assert!((0..100).all(|_| handler() == GREETING));
}

#[test]
fn empty_table_answers_nothing() {
    assert_eq!(find_route(&Vec::new(), Method::Get, "/"), None);
}

#[test]
fn same_text_compares_characters() {
    assert!(same_text("", ""));
    assert!(same_text("/", "/"));
    assert!(same_text("héllo", "héllo"));
    assert!(!same_text("/", "/a"));
    assert!(!same_text("ab", "ba"));
    assert!(!same_text("é", "e"));
}
