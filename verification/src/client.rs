//! Client-side checks on daemon replies.

use vstd::prelude::*;

use crate::error::Error;
use crate::protocol::{Frame, Response};
use crate::text::{append, dec, decimal, owned};

verus! {

/// The message of a reply that answers another request.
pub open spec fn mismatch_text(response_id: u64, request_id: u64) -> Seq<char> {
    "response id "@ + dec(response_id as nat) + " does not match request id "@ + dec(request_id as nat)
}

/// The payload of a reply, provided it answers the request that was sent.
pub fn correlated(request_id: u64, frame: Frame<Response>) -> (r: Result<Response, Error>)
    ensures
        frame.request_id == request_id ==> r == Ok::<Response, Error>(frame.payload),
        frame.request_id != request_id ==> (r matches Err(Error::Protocol(m)) && m@ == mismatch_text(
            frame.request_id,
            request_id,
        )),
{
    if frame.request_id == request_id {
        Ok(frame.payload)
    } else {
        let mut m = owned("response id ");
        let a = decimal(frame.request_id);
        append(&mut m, a.as_str());
        append(&mut m, " does not match request id ");
        let b = decimal(request_id);
        append(&mut m, b.as_str());
        Err(Error::Protocol(m))
    }
}

} // verus!
