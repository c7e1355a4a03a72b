use vstd::prelude::*;

verus! {

/// The request methods a route can be registered for.
#[derive(Debug, Clone, Copy, PartialEq, Eq, Structural)]
pub enum Method {
    Get,
    Head,
    Post,
    Put,
    Patch,
    Delete,
    Options,
}

/// One entry of the route table: requests with this method and exactly this
/// path are answered with status 200 and `body`.
#[derive(Debug, Clone, Copy)]
pub struct Route {
    pub method: Method,
    pub path: &'static str,
    pub body: &'static str,
}

/// The body of the one response that the service defines.
pub open spec fn greeting() -> Seq<char> {
    "Hello, Render API from Rust!"@
}

/// The path of the service's one route.
pub open spec fn root_path() -> Seq<char> {
    seq!['/']
}

/// The handler of `GET /`: it takes no input and touches no state.
pub fn handler() -> (r: &'static str)
    ensures
        r@ == greeting(),
{
    "Hello, Render API from Rust!"
}

/// The service's route table holds one entry: `GET /`, answered with the greeting.
pub open spec fn is_service_table(table: Seq<Route>) -> bool {
    &&& table.len() == 1
    &&& table[0].method == Method::Get
    &&& table[0].path@ == root_path()
    &&& table[0].body@ == greeting()
}

/// The service's route table: `GET /` answered by the handler.
pub fn routes() -> (r: Vec<Route>)
    ensures
        is_service_table(r@),
{
    let root = "/";
    proof { reveal_strlit("/"); }
    assert(root@ =~= root_path());
    vec![Route { method: Method::Get, path: root, body: handler() }]
}

/// The body that a table answers a request with: that of its first route with
/// the request's method and path, or none, where the server's default
/// response applies.
pub open spec fn lookup(table: Seq<Route>, method: Method, path: Seq<char>) -> Option<Seq<char>>
    decreases table.len(),
{
    if table.len() == 0 {
        None
    } else if table[0].method == method && table[0].path@ == path {
        Some(table[0].body@)
    } else {
        lookup(table.drop_first(), method, path)
    }
}

/// Whether two strings hold the same characters.
pub fn same_text(a: &str, b: &str) -> (r: bool)
    ensures
        r == (a@ == b@),
{
    let n = a.unicode_len();
    if n != b.unicode_len() {
        return false;
    }
    let mut i: usize = 0;
    while i < n
        invariant
            n == a@.len(),
            n == b@.len(),
            i <= n,
            a@.take(i as int) == b@.take(i as int),
        decreases n - i,
    {
        if a.get_char(i) != b.get_char(i) {
            return false;
        }
        assert(a@.take(i + 1) =~= a@.take(i as int).push(a@[i as int]));
        assert(b@.take(i + 1) =~= b@.take(i as int).push(b@[i as int]));
        i = i + 1;
    }
    assert(a@ =~= a@.take(n as int));
    assert(b@ =~= b@.take(n as int));
    true
}

/// Finds the response body for a request in a route table.
pub fn find_route(table: &Vec<Route>, method: Method, path: &str) -> (r: Option<&'static str>)
    ensures
        r matches Some(b) ==> lookup(table@, method, path@) == Some(b@),
        r is None ==> lookup(table@, method, path@) is None,
{
    let mut i: usize = 0;
    assert(table@.subrange(0, table@.len() as int) =~= table@);
    while i < table.len()
        invariant
            i <= table@.len(),
            lookup(table@, method, path@) == lookup(table@.subrange(i as int, table@.len() as int), method, path@),
        decreases table@.len() - i,
    {
        let route = table[i];
        let ghost rest = table@.subrange(i as int, table@.len() as int);
        assert(rest[0] == route);
        assert(rest.drop_first() =~= table@.subrange(i + 1, table@.len() as int));
        if route.method == method && same_text(route.path, path) {
            return Some(route.body);
        }
        i = i + 1;
    }
    assert(table@.subrange(i as int, table@.len() as int) =~= Seq::<Route>::empty());
    None
}

/// The service answers `GET /` with the greeting, and leaves every other
/// request, another path or another method on `/`, to the server's default
/// response.
pub proof fn law_only_get_root_answered(table: Seq<Route>, method: Method, path: Seq<char>)
    requires
        is_service_table(table),
    ensures
        lookup(table, method, path) == (if method == Method::Get && path == root_path() {
            Some(greeting())
        } else {
            None::<Seq<char>>
        }),
{
    assert(lookup(table.drop_first(), method, path) is None);
}

} // verus!
