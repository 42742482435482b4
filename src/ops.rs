//! The operations the dispatcher calls with a request's id.
use vstd::prelude::*;
use crate::date::{status_response, status_response_spec, HttpDate};
use crate::head::HeadView;
use crate::registry::Registry;
use crate::request::{declares_body, Request, RequestError};
use vstd::string::StringSliceAdditionalSpecFns;
use vstd::utf8::encode_utf8;

verus! {

/// The id names no live request.
#[derive(Clone, Copy, PartialEq, Eq, Structural, Debug)]
pub struct BadResourceId(pub u32);

/// The connection of the live request `rid`, if there is one.
pub open spec fn live_connection(requests: Seq<Option<Request>>, rid: u32) -> Option<u64> {
    if rid < requests.len() {
        match requests[rid as int] {
            Some(r) => Some(r.spec_connection()),
            None => None,
        }
    } else {
        None
    }
}

/// The connection whose socket answers the live request `rid`.
pub fn op_flash_get_connection(requests: &Registry<Request>, rid: u32) -> (r: Result<u64, BadResourceId>)
    ensures
        match live_connection(requests@, rid) {
            Some(c) => r == Ok::<u64, BadResourceId>(c),
            None => r == Err::<u64, BadResourceId>(BadResourceId(rid)),
        },
{
    match requests.get(rid) {
        Some(req) => Ok(req.connection()),
        None => Err(BadResourceId(rid)),
    }
}

/// The head of the live request `rid`, if there is one.
pub open spec fn live_head(requests: Seq<Option<Request>>, rid: u32) -> Option<HeadView> {
    if rid < requests.len() {
        match requests[rid as int] {
            Some(r) => Some(r.spec_head()),
            None => None,
        }
    } else {
        None
    }
}

pub fn op_flash_get_method(requests: &Registry<Request>, rid: u32) -> (r: Result<String, BadResourceId>)
    ensures
        match live_head(requests@, rid) {
            Some(h) => r matches Ok(m) && m@ == h.method,
            None => r == Err::<String, BadResourceId>(BadResourceId(rid)),
        },
{
    match requests.get(rid) {
        Some(req) => Ok(req.method()),
        None => Err(BadResourceId(rid)),
    }
}

pub fn op_flash_get_url(requests: &Registry<Request>, rid: u32) -> (r: Result<String, BadResourceId>)
    ensures
        match live_head(requests@, rid) {
            Some(h) => r matches Ok(u) && u@ == h.path,
            None => r == Err::<String, BadResourceId>(BadResourceId(rid)),
        },
{
    match requests.get(rid) {
        Some(req) => Ok(req.url()),
        None => Err(BadResourceId(rid)),
    }
}

pub fn op_flash_get_headers(requests: &Registry<Request>, rid: u32) -> (r: Result<Vec<(Vec<u8>, Vec<u8>)>, BadResourceId>)
    ensures
        match live_head(requests@, rid) {
            Some(h) => r matches Ok(hs) && hs.deep_view() == h.headers,
            None => r == Err::<Vec<(Vec<u8>, Vec<u8>)>, BadResourceId>(BadResourceId(rid)),
        },
{
    match requests.get(rid) {
        Some(req) => Ok(req.headers()),
        None => Err(BadResourceId(rid)),
    }
}

pub fn op_flash_get_has_body(requests: &Registry<Request>, rid: u32) -> (r: Result<bool, BadResourceId>)
    ensures
        match live_head(requests@, rid) {
            Some(h) => r == Ok::<bool, BadResourceId>(declares_body(h.method)),
            None => r == Err::<bool, BadResourceId>(BadResourceId(rid)),
        },
{
    match requests.get(rid) {
        Some(req) => Ok(req.has_body()),
        None => Err(BadResourceId(rid)),
    }
}

/// Ends the request `rid` with a plain-text response: the request leaves the
/// table, and the bytes to write on its connection are returned.
pub fn op_flash_try_write_status_str(
    requests: &mut Registry<Request>,
    rid: u32,
    status: u32,
    data: &str,
    date: &HttpDate,
) -> (r: Result<Vec<u8>, BadResourceId>)
    ensures
        live_head(old(requests)@, rid) is Some ==> {
            &&& r matches Ok(bytes) && bytes@ == status_response_spec(
                status,
                encode_utf8(date.current_date@),
                data.spec_bytes(),
            )
            &&& final(requests)@ == old(requests)@.update(rid as int, None)
        },
        live_head(old(requests)@, rid) is None ==> {
            &&& r == Err::<Vec<u8>, BadResourceId>(BadResourceId(rid))
            &&& final(requests)@ == old(requests)@
        },
{
    match requests.take(rid) {
        Some(_req) => Ok(status_response(status, date.current_date.as_str(), data)),
        None => {
            assert(requests@ =~= old(requests)@);
            Err(BadResourceId(rid))
        },
    }
}

/// Why a request's body could not be claimed.
#[derive(Clone, Copy, PartialEq, Eq, Structural, Debug)]
pub enum ClaimError {
    BadResource(BadResourceId),
    Request(RequestError),
}

/// Claims the body of the live request `rid` for reading: once, and never
/// after its connection was taken over.
pub fn op_flash_claim_body(requests: &mut Registry<Request>, rid: u32) -> (r: Result<(), ClaimError>)
    ensures
        final(requests)@.len() == old(requests)@.len(),
        live_head(old(requests)@, rid) is None ==> r == Err::<(), ClaimError>(ClaimError::BadResource(BadResourceId(rid)))
            && final(requests)@ == old(requests)@,
        live_head(old(requests)@, rid) is Some ==> ({
            let old_req = old(requests)@[rid as int]->Some_0;
            let new_req = final(requests)@[rid as int]->Some_0;
            &&& final(requests)@[rid as int] is Some
            &&& new_req.spec_head() == old_req.spec_head()
            &&& new_req.spec_upgraded() == old_req.spec_upgraded()
            &&& new_req.spec_connection() == old_req.spec_connection()
            &&& new_req.spec_body_read() == (old_req.spec_body_read() || !old_req.spec_upgraded())
            &&& r == if old_req.spec_upgraded() {
                Err::<(), ClaimError>(ClaimError::Request(RequestError::Upgraded))
            } else if old_req.spec_body_read() {
                Err::<(), ClaimError>(ClaimError::Request(RequestError::BodyAlreadyRead))
            } else {
                Ok::<(), ClaimError>(())
            }
        }),
{
    match requests.take(rid) {
        Some(mut req) => {
            let res = req.claim_body();
            requests.restore(rid, req);
            match res {
                Ok(()) => Ok(()),
                Err(e) => Err(ClaimError::Request(e)),
            }
        },
        None => {
            assert(requests@ =~= old(requests)@);
            Err(ClaimError::BadResource(BadResourceId(rid)))
        },
    }
}

/// Notes that the live request `rid` had its connection taken over.
pub fn op_flash_mark_upgraded(requests: &mut Registry<Request>, rid: u32) -> (r: Result<(), BadResourceId>)
    ensures
        final(requests)@.len() == old(requests)@.len(),
        live_head(old(requests)@, rid) is None ==> r == Err::<(), BadResourceId>(BadResourceId(rid))
            && final(requests)@ == old(requests)@,
        live_head(old(requests)@, rid) is Some ==> ({
            let new_req = final(requests)@[rid as int]->Some_0;
            &&& r == Ok::<(), BadResourceId>(())
            &&& final(requests)@[rid as int] is Some
            &&& new_req.spec_head() == old(requests)@[rid as int]->Some_0.spec_head()
            &&& new_req.spec_upgraded()
            &&& new_req.spec_connection() == old(requests)@[rid as int]->Some_0.spec_connection()
        }),
{
    match requests.take(rid) {
        Some(mut req) => {
            req.mark_upgraded();
            requests.restore(rid, req);
            Ok(())
        },
        None => {
            assert(requests@ =~= old(requests)@);
            Err(BadResourceId(rid))
        },
    }
}

} // verus!
