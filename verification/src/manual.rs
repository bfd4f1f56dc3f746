//! The pure part of the manual pages: route selection and the assembly of
//! the served HTML strings. The HTTP plumbing lives outside the library and
//! hands these functions plain values.

use vstd::prelude::*;
use vstd::string::*;
use crate::strings::str_eq;

verus! {

/// The routes of the manual pages. Any other path under the family is not
/// found.
#[derive(PartialEq, Eq, Structural, Clone, Copy, Debug)]
pub enum ManualRoute {
    Front,
    Foo,
    Bar,
    NotFound,
}

/// Which manual route a path selects: `/manual`, `/manual/foo` or
/// `/manual/bar`; everything else is not found.
pub open spec fn spec_manual_route(path: Seq<char>) -> ManualRoute {
    if path == "/manual"@ {
        ManualRoute::Front
    } else if path == "/manual/foo"@ {
        ManualRoute::Foo
    } else if path == "/manual/bar"@ {
        ManualRoute::Bar
    } else {
        ManualRoute::NotFound
    }
}

/// Selects the manual route for a request path.
pub fn manual_route(path: &str) -> (r: ManualRoute)
    ensures
        r == spec_manual_route(path@),
{
    if str_eq(path, "/manual") {
        ManualRoute::Front
    } else if str_eq(path, "/manual/foo") {
        ManualRoute::Foo
    } else if str_eq(path, "/manual/bar") {
        ManualRoute::Bar
    } else {
        ManualRoute::NotFound
    }
}

/// The fixed page skeleton around a body fragment.
pub open spec fn spec_html_page(body: Seq<char>) -> Seq<char> {
    "<!DOCTYPE html><html><head><meta charset=\"UTF-8\"><title>manual</title></head><body>"@
        + body + "</body></html>"@
}

/// Wraps a rendered fragment into the fixed page skeleton.
pub fn html_page(body: &str) -> (r: String)
    ensures
        r@ == spec_html_page(body@),
{
    let mut out = String::new();
    out.append(
        "<!DOCTYPE html><html><head><meta charset=\"UTF-8\"><title>manual</title></head><body>",
    );
    out.append(body);
    out.append("</body></html>");
    proof {
        assert(out@ =~= spec_html_page(body@));
    }
    out
}

/// One entry of the manual front page: a paragraph holding a link.
pub open spec fn spec_manual_link(entry: Seq<char>, url: Seq<char>) -> Seq<char> {
    "<p><a href=\""@ + url + "\">"@ + entry + "</a></p>"@
}

/// Builds one front-page entry: a paragraph holding a link to `url` whose
/// visible text is `entry`.
pub fn manual_link(entry: &str, url: &str) -> (r: String)
    ensures
        r@ == spec_manual_link(entry@, url@),
{
    let mut out = String::new();
    out.append("<p><a href=\"");
    out.append(url);
    out.append("\">");
    out.append(entry);
    out.append("</a></p>");
    proof {
        assert(out@ =~= spec_manual_link(entry@, url@));
    }
    out
}

/// The manual front page: one link paragraph per entry, in order, wrapped
/// in the fixed page skeleton.
pub fn html_manual_front() -> (r: String)
    ensures
        r@ == spec_html_page(
            spec_manual_link("foo"@, "http://localhost:12345/manual/foo"@)
                + spec_manual_link("bar"@, "http://localhost:12345/manual/bar"@),
        ),
{
    let mut body = manual_link("foo", "http://localhost:12345/manual/foo");
    let second = manual_link("bar", "http://localhost:12345/manual/bar");
    body.append(second.as_str());
    html_page(body.as_str())
}

} // verus!
