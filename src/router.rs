//! Routing: which response each (method, path) pair gets.
use vstd::prelude::*;
use vstd::string::StringExecFns;
use crate::model::{Craft, Hardware};
use crate::text::same_text;
use crate::json::{
    hardware_json, craft_to_json, hardware_to_json, example_craft_text, lemma_example_craft_text,
};

verus! {

/// The request methods of HTTP.
#[derive(Clone, Copy, Debug, PartialEq, Eq, Structural)]
pub enum Method {
    Get,
    Head,
    Post,
    Put,
    Delete,
    Connect,
    Options,
    Trace,
    Patch,
    /// A method outside the list above.
    Other,
}

/// What a request asks for.
#[derive(Clone, Copy, Debug, PartialEq, Eq, Structural)]
pub enum Route {
    /// `GET /` or `GET /index.html`.
    Index,
    /// `GET /craft`.
    Craft,
    /// `GET /stats`.
    Stats,
    /// Anything else.
    NotFound,
}

/// A response: its status code and its body.
#[derive(Debug)]
pub struct Response {
    pub status: u16,
    pub body: String,
}

pub const STATUS_OK: u16 = 200;
pub const STATUS_NOT_FOUND: u16 = 404;

/// The body of the index page.
pub open spec fn index_body() -> Seq<char> {
    "<a href=\"test.html\">test.html</a>"@
}

/// The route of a request, by exact match on method and path.
pub open spec fn route_of(m: Method, path: Seq<char>) -> Route {
    if m == Method::Get && (path == "/"@ || path == "/index.html"@) {
        Route::Index
    } else if m == Method::Get && path == "/craft"@ {
        Route::Craft
    } else if m == Method::Get && path == "/stats"@ {
        Route::Stats
    } else {
        Route::NotFound
    }
}

/// The route of a request, by exact match on method and path.
pub fn route(method: Method, path: &str) -> (r: Route)
    ensures
        r == route_of(method, path@),
{
    if method != Method::Get {
        Route::NotFound
    } else if same_text(path, "/") || same_text(path, "/index.html") {
        Route::Index
    } else if same_text(path, "/craft") {
        Route::Craft
    } else if same_text(path, "/stats") {
        Route::Stats
    } else {
        Route::NotFound
    }
}

/// The index page: status 200 and a fixed link.
pub fn index_response() -> (r: Response)
    ensures
        r.status == STATUS_OK,
        r.body@ == index_body(),
{
    Response { status: STATUS_OK, body: String::from_str("<a href=\"test.html\">test.html</a>") }
}

/// The response to a request that no route matches: status 404, no body.
pub fn not_found_response() -> (r: Response)
    ensures
        r.status == STATUS_NOT_FOUND,
        r.body@ == Seq::<char>::empty(),
{
    Response { status: STATUS_NOT_FOUND, body: String::new() }
}

/// The example craft as JSON, with status 200.
pub fn craft_response() -> (r: Response)
    ensures
        r.status == STATUS_OK,
        r.body@ == example_craft_text(),
{
    let craft = Craft::example();
    proof {
        lemma_example_craft_text();
    }
    Response { status: STATUS_OK, body: craft_to_json(&craft) }
}

/// The core counts as JSON, with status 200: the physical count under
/// `cpu_count` and the logical one under `core_count`.
pub fn stats_response(logical: usize, physical: usize) -> (r: Response)
    ensures
        r.status == STATUS_OK,
        r.body@ == hardware_json(Hardware { cpu_count: physical, core_count: logical }),
{
    let hw = Hardware::from_counts(logical, physical);
    Response { status: STATUS_OK, body: hardware_to_json(&hw) }
}

/// Relies on num_cpus::get: the number of logical cores that this process
/// may use, at least 1.
#[verifier::external_body]
fn logical_core_count() -> (r: usize)
    ensures
        r >= 1,
{
    num_cpus::get()
}

/// Relies on num_cpus::get_physical: the number of physical cores, at
/// least 1.
#[verifier::external_body]
fn physical_core_count() -> (r: usize)
    ensures
        r >= 1,
{
    num_cpus::get_physical()
}

/// Answers one request. Each route gets its own response; the core counts
/// of `GET /stats` are read from the host at every call.
pub fn handle(method: Method, path: &str) -> (r: Response)
    ensures
        route_of(method, path@) == Route::Index ==> {
            r.status == STATUS_OK && r.body@ == index_body()
        },
        route_of(method, path@) == Route::Craft ==> {
            r.status == STATUS_OK && r.body@ == example_craft_text()
        },
        route_of(method, path@) == Route::Stats ==> {
            r.status == STATUS_OK && exists|h: Hardware|
                h.cpu_count >= 1 && h.core_count >= 1 && r.body@ == hardware_json(h)
        },
        route_of(method, path@) == Route::NotFound ==> {
            r.status == STATUS_NOT_FOUND && r.body@ == Seq::<char>::empty()
        },
{
    match route(method, path) {
        Route::Index => index_response(),
        Route::Craft => craft_response(),
        Route::Stats => {
            let logical = logical_core_count();
            let physical = physical_core_count();
            let r = stats_response(logical, physical);
            // the counts just read are the witness of the `exists` above
            assert(r.body@ == hardware_json(
                Hardware { cpu_count: physical, core_count: logical },
            ));
            r
        },
        Route::NotFound => not_found_response(),
    }
}

} // verus!
