//! The endpoints of the coordinating service and the reading of their
//! answers. Requests are sent by the caller.

use crate::error::{ClientError, ErrorKind};
use crate::ident::{hyphenated, hyphenated_text, ProviderId};
use crate::storage::ipfs::{is_success, status_is_success};
use crate::text::{joined, trim_end, trim_end_matches};
use vstd::prelude::*;
use vstd::string::*;

verus! {

/// Client of the coordinating service: its address and, once known, the
/// bearer token.
pub struct BackendClient {
    base_url: String,
    token: Option<String>,
}

/// A `BackendClient` over mathematical text.
pub struct ClientView {
    /// Address of the service, without slashes at its end.
    pub base_url: Seq<char>,
    pub token: Option<Seq<char>>,
}

impl View for BackendClient {
    type V = ClientView;

    closed spec fn view(&self) -> ClientView {
        ClientView {
            base_url: self.base_url@,
            token: match self.token {
                Some(t) => Some(t@),
                None => None,
            },
        }
    }
}

/// An operation of the coordinating service.
#[derive(Clone, Copy, Debug, PartialEq, Eq, Structural)]
pub enum Operation {
    Register,
    Heartbeat,
    GetProvider,
    GetTasks,
    SubmitGradient,
}

/// How an operation is named in an error.
pub open spec fn label(op: Operation) -> Seq<char> {
    match op {
        Operation::Register => "Registration"@,
        Operation::Heartbeat => "Heartbeat"@,
        Operation::GetProvider => "Get provider"@,
        Operation::GetTasks => "Get tasks"@,
        Operation::SubmitGradient => "Submit gradient"@,
    }
}

/// The detail of the error of an operation that the service refused with
/// `status` and `body`.
pub open spec fn refusal_detail(op: Operation, status: Seq<char>, body: Seq<char>) -> Seq<char> {
    label(op) + " failed ("@ + status + "): "@ + body
}

/// What an answer of the service means.
#[derive(Debug)]
pub enum Reply {
    /// The operation succeeded; its body holds the result, if it has one.
    Accepted,
    /// The service knows of no tasks for this provider: the list is empty.
    NoTasks,
    /// The service refused.
    Refused(ClientError),
}

/// `Reply` over mathematical text.
pub enum ReplyView {
    Accepted,
    NoTasks,
    Refused((ErrorKind, Seq<char>)),
}

impl View for Reply {
    type V = ReplyView;

    open spec fn view(&self) -> ReplyView {
        match self {
            Reply::Accepted => ReplyView::Accepted,
            Reply::NoTasks => ReplyView::NoTasks,
            Reply::Refused(e) => ReplyView::Refused(e@),
        }
    }
}

/// The status code with which the service says that it has nothing.
pub const NOT_FOUND: u16 = 404;

/// What the answer with status code `code`, status text `status` and body
/// `body` to `op` means.
pub open spec fn reply_of(
    op: Operation,
    code: u16,
    status: Seq<char>,
    body: Seq<char>,
) -> ReplyView {
    if is_success(code) {
        ReplyView::Accepted
    } else if op == Operation::GetTasks && code == NOT_FOUND {
        ReplyView::NoTasks
    } else {
        ReplyView::Refused((ErrorKind::Api, refusal_detail(op, status, body)))
    }
}

impl Operation {
    /// How this operation is named in an error.
    pub fn label(self) -> (r: &'static str)
        ensures
            r@ == label(self),
    {
        match self {
            Operation::Register => "Registration",
            Operation::Heartbeat => "Heartbeat",
            Operation::GetProvider => "Get provider",
            Operation::GetTasks => "Get tasks",
            Operation::SubmitGradient => "Submit gradient",
        }
    }
}

/// Reads the answer of the service to `op`: a success status accepts, a
/// missing task list is an empty one, everything else is an error that
/// shows the status and the body.
pub fn read_reply(op: Operation, code: u16, status: &str, body: &str) -> (r: Reply)
    ensures
        r@ == reply_of(op, code, status@, body@),
{
    if status_is_success(code) {
        Reply::Accepted
    } else if op == Operation::GetTasks && code == NOT_FOUND {
        Reply::NoTasks
    } else {
        let mut detail = joined(op.label(), " failed (");
        detail.append(status);
        detail.append("): ");
        detail.append(body);
        Reply::Refused(ClientError::Api(detail))
    }
}

impl BackendClient {
    /// A client of the service at `base_url`; slashes at the end of the
    /// address are dropped.
    pub fn new(base_url: &str) -> (r: Self)
        ensures
            r@ == (ClientView { base_url: trim_end(base_url@, '/'), token: None }),
    {
        BackendClient {
            base_url: String::from_str(trim_end_matches(base_url, '/')),
            token: None,
        }
    }

    /// Sets the bearer token sent with authenticated requests.
    pub fn set_token(&mut self, token: &str)
        ensures
            final(self)@ == (ClientView { token: Some(token@), ..old(self)@ }),
    {
        self.token = Some(String::from_str(token));
    }

    /// The address of the service.
    pub fn base_url(&self) -> (r: &str)
        ensures
            r@ == self@.base_url,
    {
        self.base_url.as_str()
    }

    /// The bearer token, if one is set.
    pub fn token(&self) -> (r: Option<&str>)
        ensures
            match r {
                Some(t) => self@.token == Some(t@),
                None => self@.token is None,
            },
    {
        match &self.token {
            Some(t) => Some(t.as_str()),
            None => None,
        }
    }

    /// Where a provider registers.
    pub fn register_url(&self) -> (r: String)
        ensures
            r@ == self@.base_url + "/api/v1/providers/register"@,
    {
        joined(self.base_url.as_str(), "/api/v1/providers/register")
    }

    /// Where heartbeats go.
    pub fn heartbeat_url(&self) -> (r: String)
        ensures
            r@ == self@.base_url + "/api/v1/providers/heartbeat"@,
    {
        joined(self.base_url.as_str(), "/api/v1/providers/heartbeat")
    }

    /// Where the details of provider `id` are read.
    pub fn provider_url(&self, id: ProviderId) -> (r: String)
        ensures
            r@ == self@.base_url + "/api/v1/providers/"@ + hyphenated_text(id),
    {
        let mut r = joined(self.base_url.as_str(), "/api/v1/providers/");
        r.append(hyphenated(id).as_str());
        r
    }

    /// Where the assigned tasks are polled.
    pub fn tasks_url(&self) -> (r: String)
        ensures
            r@ == self@.base_url + "/api/v1/providers/tasks"@,
    {
        joined(self.base_url.as_str(), "/api/v1/providers/tasks")
    }

    /// Where gradients are submitted.
    pub fn submit_url(&self) -> (r: String)
        ensures
            r@ == self@.base_url + "/api/v1/gradients/submit"@,
    {
        joined(self.base_url.as_str(), "/api/v1/gradients/submit")
    }
}

} // verus!
