//! The request handlers' decisions, from plain values to plain values.
//!
//! The server hands in what its outbound fetch produced — the response body,
//! or the fact that the record store could not be reached — and gets back the
//! status and body to answer with. Every route answers 200 with a rendered
//! page or 500 with an empty body; nothing else.

use vstd::prelude::*;

use crate::html::{render_expenses_page, render_index_page, spec_expenses_page, spec_index_page};
use crate::json::{decode_response, spec_parse_response};
use crate::model::{project_items, spec_project_all};

verus! {

/// HTTP status for a successful page.
pub const STATUS_OK: u16 = 200;

/// HTTP status for a failed fetch or decode.
pub const STATUS_INTERNAL_ERROR: u16 = 500;

/// What the outbound fetch of the record store produced: the raw response
/// body, or nothing because the store was unreachable (a connection error,
/// or no complete response).
pub enum FetchOutcome {
    Body(Vec<u8>),
    Unreachable,
}

/// A response to send back: its status code and its body bytes.
pub struct HttpReply {
    pub status: u16,
    pub body: Vec<u8>,
}

/// The listing route's answer, given the fetch outcome:
/// - an unreachable store answers 500 with an empty body;
/// - a body that the envelope grammar rejects answers 500 with an empty body;
/// - a body it accepts answers 200 with the rendered listing page of the
///   projected items, in the store's order.
pub fn expenses_response(fetch: FetchOutcome) -> (r: HttpReply)
    ensures
        r.status == STATUS_OK || r.status == STATUS_INTERNAL_ERROR,
        r.status == STATUS_INTERNAL_ERROR ==> r.body@ == Seq::<u8>::empty(),
        fetch is Unreachable ==> r.status == STATUS_INTERNAL_ERROR,
        fetch matches FetchOutcome::Body(b) ==> {
            &&& spec_parse_response(b@) is None ==> r.status == STATUS_INTERNAL_ERROR
            &&& spec_parse_response(b@) matches Some(resp) ==> r.status == STATUS_OK && r.body@
                == spec_expenses_page(spec_project_all(resp.items))
        },
{
    match fetch {
        FetchOutcome::Unreachable => HttpReply { status: STATUS_INTERNAL_ERROR, body: Vec::new() },
        FetchOutcome::Body(b) => match decode_response(&b) {
            None => HttpReply { status: STATUS_INTERNAL_ERROR, body: Vec::new() },
            Some(resp) => {
                let expenses = project_items(&resp.items);
                let body = render_expenses_page(&expenses);
                HttpReply { status: STATUS_OK, body }
            },
        },
    }
}

/// The index route's answer: always 200 with the fixed index page, whatever
/// the record store is doing.
pub fn index_response() -> (r: HttpReply)
    ensures
        r.status == STATUS_OK,
        r.body@ == spec_index_page(),
{
    HttpReply { status: STATUS_OK, body: render_index_page() }
}

} // verus!
