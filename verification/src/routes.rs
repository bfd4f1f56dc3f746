//! Top-level dispatch of the demo service: the root hint, the echo family,
//! the manual family, and not-found for everything else.

use vstd::prelude::*;
use vstd::string::*;
use crate::strings::{spec_starts_with, str_eq, str_starts_with};

verus! {

/// Where a request path is dispatched at the top level.
#[derive(PartialEq, Eq, Structural, Clone, Copy, Debug)]
pub enum TopRoute {
    Hint,
    Echo,
    Manual,
    NotFound,
}

/// Top-level dispatch: `/` gets the hint, paths under `/echo` go to the echo
/// service, paths under `/manual` to the manual pages; everything else is
/// not found.
pub open spec fn spec_top_route(path: Seq<char>) -> TopRoute {
    if path == "/"@ {
        TopRoute::Hint
    } else if spec_starts_with(path, "/echo"@) {
        TopRoute::Echo
    } else if spec_starts_with(path, "/manual"@) {
        TopRoute::Manual
    } else {
        TopRoute::NotFound
    }
}

/// Selects the top-level route for a request path.
pub fn top_route(path: &str) -> (r: TopRoute)
    ensures
        r == spec_top_route(path@),
{
    if str_eq(path, "/") {
        TopRoute::Hint
    } else if str_starts_with(path, "/echo") {
        TopRoute::Echo
    } else if str_starts_with(path, "/manual") {
        TopRoute::Manual
    } else {
        TopRoute::NotFound
    }
}

/// The hint served at the root path.
pub fn hint_message() -> (r: String)
    ensures
        r@ == "Try POSTing data to /echo"@,
{
    "Try POSTing data to /echo".to_owned()
}

} // verus!
