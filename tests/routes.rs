use craft_server::router::{
    handle, route, stats_response, craft_response, index_response,
    not_found_response, Method, Route,
};
use craft_server::json::{craft_from_json, JsonError};
use craft_server::model::Craft;

const INDEX: &str = "<a href=\"test.html\">test.html</a>";
const CRAFT: &str = "{\"fuel\":12,\"vel_x\":1,\"vel_y\":2,\"vel_z\":2,\"location\":{\"x\":10,\"y\":22,\"z\":9}}";

#[test]
fn get_root_serves_index() {
    let r = handle(Method::Get, "/");
    assert_eq!(r.status, 200);
    assert_eq!(r.body, INDEX);
}

#[test]
fn get_index_html_serves_index() {
    let r = handle(Method::Get, "/index.html");
    assert_eq!(r.status, 200);
    assert_eq!(r.body, INDEX);
}

#[test]
fn get_craft_serves_example_json() {
    let r = handle(Method::Get, "/craft");
    assert_eq!(r.status, 200);
    assert_eq!(r.body, CRAFT);
}

#[test]
fn craft_response_is_example_json() {
    let r = craft_response();
    assert_eq!(r.status, 200);
    assert_eq!(r.body, CRAFT);
}

fn field(body: &str, key: &str) -> usize {
    let start = body.find(key).expect("key present") + key.len();
    let digits: String = body[start..].chars().take_while(|c| c.is_ascii_digit()).collect();
    digits.parse().expect("a number")
}

#[test]
fn get_stats_reports_core_counts() {
    let r = handle(Method::Get, "/stats");
    assert_eq!(r.status, 200);
    assert!(r.body.starts_with("{\"cpu_count\":"));
    assert!(r.body.ends_with("}"));
    let cpu = field(&r.body, "\"cpu_count\":");
    let core = field(&r.body, "\"core_count\":");
    assert!(cpu >= 1);
    assert!(core >= 1);
    let expected = format!("{{\"cpu_count\":{},\"core_count\":{}}}", cpu, core);
    assert_eq!(r.body, expected);
}

#[test]
fn stats_response_puts_physical_under_cpu_count() {
    let r = stats_response(8, 4);
    assert_eq!(r.status, 200);
    assert_eq!(r.body, "{\"cpu_count\":4,\"core_count\":8}");
}

#[test]
fn stats_response_largest_counts() {
    let r = stats_response(usize::MAX, 0);
    assert_eq!(r.status, 200);
    assert_eq!(r.body, format!("{{\"cpu_count\":0,\"core_count\":{}}}", usize::MAX));
}

#[test]
fn unmatched_requests_are_not_found() {
    let cases = [
        (Method::Post, "/"),
        (Method::Put, "/craft"),
        (Method::Delete, "/stats"),
        (Method::Head, "/index.html"),
        (Method::Other, "/"),
        (Method::Get, ""),
        (Method::Get, "/missing"),
        (Method::Get, "/Craft"),
        (Method::Get, "/craft/"),
        (Method::Get, "/index.htm"),
        (Method::Get, "//"),
        (Method::Get, "/stats?x=1"),
    ];
    for (m, p) in cases {
        let r = handle(m, p);
        assert_eq!(r.status, 404, "{:?} {}", m, p);
        assert_eq!(r.body, "", "{:?} {}", m, p);
    }
}

#[test]
fn route_matches_exactly() {
    assert_eq!(route(Method::Get, "/"), Route::Index);
    assert_eq!(route(Method::Get, "/index.html"), Route::Index);
    assert_eq!(route(Method::Get, "/craft"), Route::Craft);
    assert_eq!(route(Method::Get, "/stats"), Route::Stats);
    assert_eq!(route(Method::Post, "/craft"), Route::NotFound);
    assert_eq!(route(Method::Get, "/stat"), Route::NotFound);
    assert_eq!(route(Method::Get, "/statsx"), Route::NotFound);
}

#[test]
fn craft_body_reads_back_as_example() {
    let r = handle(Method::Get, "/craft");
    assert_eq!(craft_from_json(&r.body), Ok(Craft::example()));
    assert_ne!(craft_from_json("Not Found"), Ok(Craft::example()));
    assert_eq!(craft_from_json("Not Found"), Err(JsonError::Decode));
}

#[test]
fn equal_requests_give_equal_responses() {
    let a = handle(Method::Get, "/craft");
    let b = handle(Method::Get, "/craft");
    assert_eq!((a.status, a.body), (b.status, b.body));
    let s1 = stats_response(8, 4);
    let s2 = stats_response(8, 4);
    assert_eq!((s1.status, s1.body), (s2.status, s2.body));
}

#[test]
fn fixed_responses() {
    let i = index_response();
    assert_eq!(i.status, 200);
    assert_eq!(i.body, INDEX);
    let n = not_found_response();
    assert_eq!(n.status, 404);
    assert_eq!(n.body, "");
}

#[test]
fn interleaved_requests_do_not_interfere() {
    for _ in 0..8 {
        let a = handle(Method::Get, "/");
        let b = handle(Method::Get, "/craft");
        let c = handle(Method::Get, "/stats");
        let d = handle(Method::Post, "/craft");
        assert_eq!(a.status, 200);
        assert_eq!(a.body, INDEX);
        assert_eq!(b.status, 200);
        assert_eq!(b.body, CRAFT);
        assert_eq!(c.status, 200);
        assert!(c.body.starts_with("{\"cpu_count\":"));
        assert_eq!(d.status, 404);
        assert_eq!(d.body, "");
    }
}
