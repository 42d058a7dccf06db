//! Server procedures: the application side of a door.
//!
//! A server procedure is any function from transferred descriptors and
//! request bytes to returned descriptors and response bytes. The framework
//! wraps such a function in the fixed kernel calling convention; the pure
//! function itself knows nothing of the transport. Expected failures must
//! come back as response bytes, never as panics: a procedure that aborts
//! inside the kernel callback is fatal for its serving thread.

use vstd::prelude::*;
use vstd::slice::slice_to_vec;
use crate::descriptor::{spec_descs_to_raw, spec_raw_to_descs};

verus! {

/// A function exposed through a door. The framework calls `handle` with the
/// request's descriptors and bytes and answers the caller with whatever it
/// returns.
pub trait ServerProcedure {
    /// Answer one request.
    fn handle(descriptors: Vec<i32>, request: &[u8]) -> (Vec<i32>, Vec<u8>);
}

/// A procedure that answers every request with exactly what it received.
pub fn echo(descriptors: Vec<i32>, request: &[u8]) -> (r: (Vec<i32>, Vec<u8>))
    ensures
        r.0@ == descriptors@,
        r.1@ == request@,
{
    (descriptors, slice_to_vec(request))
}

/// One invocation of the echo procedure, descriptor leg and byte leg both:
/// the caller wraps its raw descriptors into call-frame records, the
/// serving side unwraps them and hands them with the bytes to the
/// procedure, wraps the procedure's answer into records again, and the
/// caller unwraps what comes back.
pub open spec fn spec_invoke_echo(descriptors: Seq<i32>, request: Seq<u8>, release: bool) -> (
    Seq<i32>,
    Seq<u8>,
) {
    let outbound = spec_raw_to_descs(descriptors, release);
    let at_server = spec_descs_to_raw(outbound);
    let answer = (at_server, request);
    let inbound = spec_raw_to_descs(answer.0, release);
    (spec_descs_to_raw(inbound), answer.1)
}

/// Round trip: invoking a procedure that echoes its input yields the
/// payload and the descriptor set unchanged on the caller side — the raw
/// descriptor values stand for the descriptors up to the kernel's
/// renumbering.
pub proof fn lemma_echo_round_trip(descriptors: Seq<i32>, request: Seq<u8>, release: bool)
    ensures
        spec_invoke_echo(descriptors, request, release) == (descriptors, request),
{
    assert(spec_descs_to_raw(spec_raw_to_descs(descriptors, release)) =~= descriptors);
    assert(spec_descs_to_raw(
        spec_raw_to_descs(spec_descs_to_raw(spec_raw_to_descs(descriptors, release)), release),
    ) =~= descriptors);
}

/// Two callers sharing one client receive answers that are functions of
/// their own requests alone: invoking the echo procedure from two borrowed
/// handles gives each caller exactly its own payload back, and distinct
/// payloads can never come back interleaved or swapped.
pub proof fn lemma_concurrent_echo_calls(
    descriptors1: Seq<i32>,
    request1: Seq<u8>,
    descriptors2: Seq<i32>,
    request2: Seq<u8>,
)
    ensures
        spec_invoke_echo(descriptors1, request1, true) == (descriptors1, request1),
        spec_invoke_echo(descriptors2, request2, true) == (descriptors2, request2),
        request1 != request2 ==> spec_invoke_echo(descriptors1, request1, true).1
            != spec_invoke_echo(descriptors2, request2, true).1,
{
    lemma_echo_round_trip(descriptors1, request1, true);
    lemma_echo_round_trip(descriptors2, request2, true);
}

/// `Echo` as an installable procedure.
pub struct Echo {}

impl ServerProcedure for Echo {
    fn handle(descriptors: Vec<i32>, request: &[u8]) -> (Vec<i32>, Vec<u8>) {
        echo(descriptors, request)
    }
}

/// What a byte becomes under ASCII uppercasing.
pub open spec fn spec_upper_byte(b: u8) -> u8 {
    if 97 <= b <= 122 {
        (b - 32) as u8
    } else {
        b
    }
}

/// A byte string with every ASCII lowercase letter uppercased.
pub open spec fn spec_upper(bs: Seq<u8>) -> Seq<u8> {
    bs.map_values(|b: u8| spec_upper_byte(b))
}

/// The bytes of `request` with every ASCII lowercase letter uppercased.
pub fn ascii_uppercase(request: &[u8]) -> (r: Vec<u8>)
    ensures
        r@ == spec_upper(request@),
{
    let mut r: Vec<u8> = Vec::new();
    let mut i: usize = 0;
    while i < request.len()
        invariant
            i <= request@.len(),
            r@ =~= spec_upper(request@).take(i as int),
        decreases request@.len() - i,
    {
        let b = request[i];
        let u = if b >= 97 && b <= 122 {
            b - 32
        } else {
            b
        };
        r.push(u);
        assert(r@ =~= spec_upper(request@).take(i + 1));
        i = i + 1;
    }
    assert(r@ =~= spec_upper(request@));
    r
}

/// A procedure that uppercases its request and returns no descriptors.
pub fn uppercase(descriptors: Vec<i32>, request: &[u8]) -> (r: (Vec<i32>, Vec<u8>))
    ensures
        r.0@ == Seq::<i32>::empty(),
        r.1@ == spec_upper(request@),
{
    let out: Vec<i32> = Vec::new();
    proof {
        assert(out@ =~= Seq::<i32>::empty());
    }
    (out, ascii_uppercase(request))
}

/// `Uppercase` as an installable procedure.
pub struct Uppercase {}

impl ServerProcedure for Uppercase {
    fn handle(descriptors: Vec<i32>, request: &[u8]) -> (Vec<i32>, Vec<u8>) {
        uppercase(descriptors, request)
    }
}

} // verus!
