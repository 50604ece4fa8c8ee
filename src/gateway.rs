//! Ties the rule chain and the router together: decides for each request whether
//! to reject it or to forward it, and maps the backend's outcome to a reply.
use vstd::prelude::*;
use vstd::string::StringExecFns;

use crate::engine::{Firewall, chain_judgement};
use crate::router::{Provider, Router, any_match, selects};
use crate::rules::{FirewallInput, InputView, Judgement, Rule};

verus! {

/// One chat message.
pub struct Message {
    pub role: String,
    pub content: String,
}

/// The backend-agnostic chat request. `extra` holds pass-through parameters, each
/// as a name and a JSON-encoded value.
pub struct UpReq {
    pub model: String,
    pub messages: Vec<Message>,
    pub extra: Vec<(String, String)>,
}

/// A backend's raw response: status, headers and body, never reinterpreted.
pub struct UpRes {
    pub status: u16,
    pub headers: Vec<(String, Vec<u8>)>,
    pub body: Vec<u8>,
}

/// The call to a backend did not complete.
pub struct TransportError {
    pub detail: String,
}

/// What the client is answered.
pub enum Reply {
    /// The backend's response, relayed as is.
    Upstream(UpRes),
    /// The rule chain denied the request; the text is "Blocked – {reason}".
    Blocked(String),
    /// No registered prefix matches the model id.
    UnknownModel(String),
    /// The backend could not be reached; the text is the transport error's detail.
    Unreachable(String),
}

pub const STATUS_FORBIDDEN: u16 = 403;

pub const STATUS_BAD_REQUEST: u16 = 400;

pub const STATUS_BAD_GATEWAY: u16 = 502;

impl Reply {
    pub open spec fn status_spec(&self) -> u16 {
        match self {
            Reply::Upstream(u) => u.status,
            Reply::Blocked(_) => STATUS_FORBIDDEN,
            Reply::UnknownModel(_) => STATUS_BAD_REQUEST,
            Reply::Unreachable(_) => STATUS_BAD_GATEWAY,
        }
    }

    /// The HTTP status the client receives.
    pub fn status(&self) -> (r: u16)
        ensures
            r == self.status_spec(),
    {
        match self {
            Reply::Upstream(u) => u.status,
            Reply::Blocked(_) => STATUS_FORBIDDEN,
            Reply::UnknownModel(_) => STATUS_BAD_REQUEST,
            Reply::Unreachable(_) => STATUS_BAD_GATEWAY,
        }
    }
}

/// What to do with a request: answer it now, or send `UpReq` to the backend.
pub enum Step<'a> {
    Respond(Reply),
    Forward(&'a Provider, UpReq),
}

/// The input the rules see for an inbound `{prompt, model}` payload.
pub open spec fn inbound_input(prompt: Seq<char>, model: Seq<char>) -> InputView {
    InputView { prompt, model, user_id: None }
}

/// `req` wraps `prompt` as the single user message for `model`, with no extra parameters.
pub open spec fn is_canonical(req: UpReq, prompt: Seq<char>, model: Seq<char>) -> bool {
    &&& req.model@ == model
    &&& req.messages@.len() == 1
    &&& req.messages@[0].role@ == "user"@
    &&& req.messages@[0].content@ == prompt
    &&& req.extra@.len() == 0
}

/// The text of a rejection for `reason`.
pub open spec fn blocked_text(reason: Seq<char>) -> Seq<char> {
    "Blocked – "@ + reason
}

/// Builds the canonical request for an inbound payload.
pub fn canonicalize(prompt: &str, model: &str) -> (r: UpReq)
    ensures
        is_canonical(r, prompt@, model@),
{
    let mut messages: Vec<Message> = Vec::new();
    messages.push(Message { role: String::from_str("user"), content: String::from_str(prompt) });
    UpReq { model: String::from_str(model), messages, extra: Vec::new() }
}

/// Maps the outcome of a backend call to the client's reply: a response is relayed
/// unchanged, a failed call becomes a gateway error carrying its detail.
pub fn relay(outcome: Result<UpRes, TransportError>) -> (r: Reply)
    ensures
        r == match outcome {
            Ok(u) => Reply::Upstream(u),
            Err(e) => Reply::Unreachable(e.detail),
        },
{
    match outcome {
        Ok(u) => Reply::Upstream(u),
        Err(e) => Reply::Unreachable(e.detail),
    }
}

/// The rule chain and the router, built once and only read afterwards.
pub struct Gateway<R> {
    pub firewall: Firewall<R>,
    pub router: Router,
}

impl<R: Rule> Gateway<R> {
    pub fn new(firewall: Firewall<R>, router: Router) -> (r: Gateway<R>)
        ensures
            r.firewall == firewall,
            r.router == router,
    {
        Gateway { firewall, router }
    }

    /// Decides what to do with `{prompt, model}`: a denial (an evaluation failure
    /// included) is answered with "Blocked – {reason}" and never forwarded; a model
    /// id that no prefix matches is answered with "unknown model"; otherwise the
    /// canonical request goes to the backend of the longest matching prefix.
    pub fn plan(&self, prompt: &str, model: &str) -> (r: Step<'_>)
        ensures
            match chain_judgement(self.firewall.rules(), inbound_input(prompt@, model@)) {
                Judgement::Deny(reason) => r matches Step::Respond(Reply::Blocked(m)) && m@
                    == blocked_text(reason),
                Judgement::Allow => if any_match(self.router.entries(), model@) {
                    r matches Step::Forward(p, req) && is_canonical(req, prompt@, model@) && exists|
                        i: int,
                    |
                        selects(self.router.entries(), model@, i) && *p
                            == self.router.entries()[i].handle
                } else {
                    r matches Step::Respond(Reply::UnknownModel(m)) && m@ == "unknown model"@
                },
            },
    {
        let input = FirewallInput {
            prompt: String::from_str(prompt),
            model: String::from_str(model),
            user_id: None,
        };
        assert(input@ == inbound_input(prompt@, model@));
        let verdict = self.firewall.evaluate(&input);
        if !verdict.allowed {
            let reason = match verdict.reason {
                Some(reason) => reason,
                None => String::new(),
            };
            return Step::Respond(Reply::Blocked(String::from_str("Blocked – ").concat(reason.as_str())));
        }
        match self.router.route(model) {
            Some(p) => Step::Forward(p, canonicalize(prompt, model)),
            None => Step::Respond(Reply::UnknownModel(String::from_str("unknown model"))),
        }
    }
}

} // verus!
