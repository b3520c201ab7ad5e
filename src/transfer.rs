//! One logical request, driven response by response. The caller sends the
//! request, hands each response's status and headers to `on_response`, and
//! does what the returned action says.
use vstd::prelude::*;
use crate::error::TransferError;
use crate::headers::{
    PreparedHeaders, first_unsendable, prepare_headers, header_fields, malformed_headers, views,
    field_views, is_sendable,
};
use crate::length::{content_length, declared_length};
use crate::plan::{BodyPlan, plan_body, plan_spec, writes_destination};
use crate::redirect::{Session, Step, step_spec};
use crate::request::{Method, TransferRequest};

verus! {

/// What the caller does next.
pub enum Action {
    /// Send the request again, to the session's current URL.
    Send,
    /// The exchange is over: handle the final response's body as planned.
    Body(BodyPlan),
    /// The transfer failed; nothing is written.
    Fail(TransferError),
}

/// The action for a response, given the request's method, whether it has a
/// destination file, the redirects followed so far, the response's status,
/// whether it had a location, and its declared length.
pub open spec fn action_spec(
    method: Method,
    has_output: bool,
    redirects: nat,
    status: u16,
    has_location: bool,
    length: u64,
) -> Action {
    match step_spec(redirects, status, has_location) {
        Step::Follow => Action::Send,
        Step::Finish => Action::Body(plan_spec(method, has_output, length)),
        Step::TooManyRedirects => Action::Fail(TransferError::TooManyRedirects),
        Step::Rejected(code) => Action::Fail(TransferError::StatusError { code }),
    }
}

/// A request in progress: what was asked, its headers sorted once, and where
/// the redirects have led.
pub struct Transfer {
    pub request: TransferRequest,
    pub headers: PreparedHeaders,
    pub session: Session,
}

impl Transfer {
    pub open spec fn wf(&self) -> bool {
        self.session.wf()
    }

    /// Starts a transfer: the first request goes to the request's URL, with the
    /// caller's well-formed headers; those without a colon are set aside for a
    /// warning. A well-formed header that cannot be sent fails the transfer
    /// before anything is sent, naming the first such header.
    pub fn new(request: TransferRequest) -> (r: Result<Transfer, TransferError>)
        ensures
            r is Ok <==> forall|i: int|
                0 <= i < header_fields(views(request.headers@)).len()
                    ==> is_sendable(#[trigger] header_fields(views(request.headers@))[i]),
            r matches Ok(t) ==> {
                &&& t.wf()
                &&& t.request == request
                &&& t.session.current_url@ == request.url@
                &&& t.session.redirects == 0
                &&& field_views(t.headers.fields@) == header_fields(views(request.headers@))
                &&& views(t.headers.malformed@) == malformed_headers(views(request.headers@))
            },
            r matches Err(e) ==> exists|k: int|
                {
                    &&& 0 <= k < header_fields(views(request.headers@)).len()
                    &&& !is_sendable(header_fields(views(request.headers@))[k])
                    &&& forall|i: int|
                        0 <= i < k ==> is_sendable(#[trigger] header_fields(views(request.headers@))[i])
                    &&& e matches TransferError::InvalidHeader { name } && name@
                        == header_fields(views(request.headers@))[k].0
                },
    {
        let headers = prepare_headers(&request.headers);
        match first_unsendable(&headers.fields) {
            Some(k) => {
                let name = headers.fields[k].0.clone();
                assert(field_views(headers.fields@)[k as int].0 == headers.fields@[k as int].0@);
                Err(TransferError::InvalidHeader { name })
            },
            None => {
                let session = Session::new(request.url.as_str());
                Ok(Transfer { request, headers, session })
            },
        }
    }

    /// Decides on a response with status `status`, the value of its `Location`
    /// header and that of its `Content-Length` header, if any.
    pub fn on_response(&mut self, status: u16, location: Option<String>, length: Option<&str>) -> (a: Action)
        requires
            old(self).wf(),
        ensures
            final(self).wf(),
            final(self).request == old(self).request,
            final(self).headers == old(self).headers,
            a == action_spec(
                old(self).request.method,
                old(self).request.output.is_some(),
                old(self).session.redirects as nat,
                status,
                location.is_some(),
                declared_length(
                    match length {
                        Some(s) => Some(s@),
                        None => None,
                    },
                ),
            ),
            a is Send ==> {
                &&& final(self).session.redirects == old(self).session.redirects + 1
                &&& final(self).session.current_url@ == location.unwrap()@
            },
            !(a is Send) ==> final(self).session == old(self).session,
    {
        let step = self.session.on_response(status, location);
        match step {
            Step::Follow => Action::Send,
            Step::Finish => {
                let total = content_length(length);
                Action::Body(plan_body(self.request.method, self.request.output.is_some(), total))
            },
            Step::TooManyRedirects => Action::Fail(TransferError::TooManyRedirects),
            Step::Rejected(code) => Action::Fail(TransferError::StatusError { code }),
        }
    }
}

/// A client or server error (such as 404 or 500) fails the transfer with its
/// status, whatever came before, so the destination is neither created nor
/// truncated.
pub proof fn lemma_error_status_writes_nothing(
    method: Method,
    has_output: bool,
    redirects: nat,
    status: u16,
    has_location: bool,
    length: u64,
)
    requires
        400 <= status <= 599,
    ensures
        action_spec(method, has_output, redirects, status, has_location, length)
            == Action::Fail(TransferError::StatusError { code: status }),
        !(action_spec(method, has_output, redirects, status, has_location, length) is Body),
{
}

/// A successful `HEAD` response ends the transfer with a report and no write.
pub proof fn lemma_head_reports_only(
    has_output: bool,
    redirects: nat,
    status: u16,
    has_location: bool,
    length: u64,
)
    requires
        200 <= status <= 299,
    ensures
        action_spec(Method::Head, has_output, redirects, status, has_location, length)
            == Action::Body(BodyPlan::ReportHead),
        !writes_destination(BodyPlan::ReportHead),
{
}

} // verus!
