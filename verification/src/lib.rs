//! An in-memory HTML element tree with builder-style construction and a
//! verified recursive renderer, together with the small pure routines of the
//! HTTP demo built around it: route selection, byte transforms, and static
//! page assembly.

pub mod echo;
pub mod manual;
pub mod routes;
pub mod strings;
pub mod tree;

pub use strings::{str_eq, str_starts_with};
pub use tree::{a, p, Element, NormalElement, TextElement, VoidElement, A, P};
