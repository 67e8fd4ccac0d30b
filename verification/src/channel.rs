//! The call channel: one request goes to the host, one reply comes back.
//! The host is whatever the caller hands in as a function from request bytes
//! to reply bytes; nothing is assumed of what it answers.

use vstd::prelude::*;

verus! {

/// The host can be called with a request of these bytes.
pub open spec fn accepts<H: FnOnce(Vec<u8>) -> Vec<u8>>(host: H, wire: Seq<u8>) -> bool {
    forall|request: Vec<u8>| request@ == wire ==> call_requires(host, (request,))
}

/// The host may answer a request of these bytes with this reply.
pub open spec fn answers<H: FnOnce(Vec<u8>) -> Vec<u8>>(
    host: H,
    wire: Seq<u8>,
    reply: Seq<u8>,
) -> bool {
    exists|request: Vec<u8>, answer: Vec<u8>|
        request@ == wire && answer@ == reply && call_ensures(host, (request,), answer)
}

/// Hands the request to the host, once, and gives back its reply.
pub fn exchange<H: FnOnce(Vec<u8>) -> Vec<u8>>(host: H, request: Vec<u8>) -> (reply: Vec<u8>)
    requires
        accepts(host, request@),
    ensures
        answers(host, request@, reply@),
{
    let ghost sent = request;
    let reply = host(request);
    assert(call_ensures(host, (sent,), reply));
    reply
}

} // verus!
