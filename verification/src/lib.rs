//! A conformance-test harness for applications built from sandboxed,
//! interface-typed components.
//!
//! The crate composes an application under test with virtualization shims,
//! a router and a test harness into one executable artifact (`graph`),
//! bridges the guest-visible HTTP resource model to a host-native request
//! and response form (`fields`, `http`, `response`), delivers the one
//! asynchronously produced response over a poll-only one-shot slot
//! (`channel`), and asserts delivered responses against declared
//! expectations (`headers`, `runner`).
//!
//! Loading and executing the composed artifact is delegated to an external
//! component-model execution host and is out of scope here.

/// The one-shot response channel: a three-state receiver slot.
pub mod channel;
/// The ordered header collection and its append grammar.
pub mod fields;
/// The composition graph builder over the linking-graph library.
pub mod graph;
/// The case-insensitive header assertion and its laws.
pub mod headers;
/// The guest-visible request model and its host-native form.
pub mod http;
/// The response, body and stream resources the runner consumes.
pub mod response;
/// The invocation runner: request building and response assertion.
pub mod runner;

use vstd::prelude::*;

verus! {

/// Lowercases one ASCII byte; other bytes are unchanged.
pub open spec fn ascii_lower_byte(b: u8) -> u8 {
    if 65 <= b && b <= 90 {
        (b + 32) as u8
    } else {
        b
    }
}

/// Lowercases every ASCII byte of a sequence.
pub open spec fn lower_bytes(s: Seq<u8>) -> Seq<u8> {
    Seq::new(s.len(), |i: int| ascii_lower_byte(s[i]))
}

/// Lowercases one ASCII byte of a vector, leaving other bytes unchanged.
pub fn lower_byte(b: u8) -> (r: u8)
    ensures
        r == ascii_lower_byte(b),
{
    if 65 <= b && b <= 90 {
        b + 32
    } else {
        b
    }
}

/// Lowercases every ASCII byte of a vector into a fresh vector.
pub fn lower_vec(v: &Vec<u8>) -> (r: Vec<u8>)
    ensures
        r@ == lower_bytes(v@),
{
    let mut r: Vec<u8> = Vec::new();
    let mut i: usize = 0;
    while i < v.len()
        invariant
            i <= v@.len(),
            r@.len() == i,
            forall|j: int| 0 <= j < i ==> r@[j] == ascii_lower_byte(#[trigger] v@[j]),
        decreases v@.len() - i,
    {
        r.push(lower_byte(v[i]));
        i = i + 1;
    }
    proof {
        assert(r@ =~= lower_bytes(v@));
    }
    r
}

/// Byte-vector equality, reflected to the views.
pub fn bytes_eq(a: &Vec<u8>, b: &Vec<u8>) -> (r: bool)
    ensures
        r <==> a@ == b@,
{
    let mut i: usize = 0;
    if a.len() != b.len() {
        proof {
            assert(a@.len() != b@.len());
        }
        return false;
    }
    while i < a.len()
        invariant
            i <= a@.len(),
            a@.len() == b@.len(),
            forall|j: int| 0 <= j < i ==> a@[j] == b@[j],
        decreases a@.len() - i,
    {
        if a[i] != b[i] {
            return false;
        }
        i = i + 1;
    }
    proof {
        assert(a@ =~= b@);
    }
    true
}

} // verus!
