//! The pure part of the echo service: route selection over method and path,
//! and the two body transforms (byte-wise ASCII uppercase, whole-body
//! reversal). The surrounding HTTP plumbing lives outside the library and
//! hands these functions plain values.

use vstd::prelude::*;
use crate::strings::str_eq;

verus! {

/// The routes of the echo service. Any path other than the three handled
/// ones, and any method other than POST, is not found.
#[derive(PartialEq, Eq, Structural, Clone, Copy, Debug)]
pub enum EchoRoute {
    Echo,
    Uppercase,
    Reverse,
    NotFound,
}

/// Which echo route a request selects: POST `/echo`, POST `/echo/uppercase`
/// or POST `/echo/reverse`; everything else is not found.
pub open spec fn spec_echo_route(post: bool, path: Seq<char>) -> EchoRoute {
    if !post {
        EchoRoute::NotFound
    } else if path == "/echo"@ {
        EchoRoute::Echo
    } else if path == "/echo/uppercase"@ {
        EchoRoute::Uppercase
    } else if path == "/echo/reverse"@ {
        EchoRoute::Reverse
    } else {
        EchoRoute::NotFound
    }
}

/// Selects the echo route for a request method (`post` is true exactly for
/// POST) and path.
pub fn echo_route(post: bool, path: &str) -> (r: EchoRoute)
    ensures
        r == spec_echo_route(post, path@),
{
    if !post {
        EchoRoute::NotFound
    } else if str_eq(path, "/echo") {
        EchoRoute::Echo
    } else if str_eq(path, "/echo/uppercase") {
        EchoRoute::Uppercase
    } else if str_eq(path, "/echo/reverse") {
        EchoRoute::Reverse
    } else {
        EchoRoute::NotFound
    }
}

/// ASCII uppercase of one byte: a lower-case letter loses 32, every other
/// byte is unchanged.
pub open spec fn spec_ascii_uppercase(b: u8) -> u8 {
    if 97 <= b && b <= 122 {
        (b - 32) as u8
    } else {
        b
    }
}

/// Byte-wise ASCII uppercase of one body chunk.
pub fn uppercase_chunk(chunk: &[u8]) -> (r: Vec<u8>)
    ensures
        r@ == chunk@.map_values(|b: u8| spec_ascii_uppercase(b)),
{
    let mut r: Vec<u8> = Vec::new();
    let mut i: usize = 0;
    while i < chunk.len()
        invariant
            i <= chunk@.len(),
            r@.len() == i,
            forall|j: int| 0 <= j < i ==> r@[j] == spec_ascii_uppercase(chunk@[j]),
        decreases chunk@.len() - i,
    {
        let b = chunk[i];
        if b >= 97 && b <= 122 {
            r.push(b - 32);
        } else {
            r.push(b);
        }
        i += 1;
    }
    proof {
        assert(r@ =~= chunk@.map_values(|b: u8| spec_ascii_uppercase(b)));
    }
    r
}

/// The whole body with its bytes in reverse order.
pub fn reverse_body(body: &[u8]) -> (r: Vec<u8>)
    ensures
        r@ == body@.reverse(),
{
    let mut r: Vec<u8> = Vec::new();
    let mut i: usize = body.len();
    while i > 0
        invariant
            i <= body@.len(),
            r@.len() == body@.len() - i,
            forall|j: int| 0 <= j < r@.len() ==> r@[j] == body@[body@.len() - 1 - j],
        decreases i,
    {
        i -= 1;
        r.push(body[i]);
    }
    proof {
        assert(r@ =~= body@.reverse());
    }
    r
}

} // verus!
