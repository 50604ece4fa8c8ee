//! A policy-enforcing gateway in front of chat-completion backends: requests
//! are checked against an ordered chain of rules, then routed by the longest
//! registered model-id prefix to one backend whose reply is relayed as is.
pub mod engine;
pub mod gateway;
pub mod router;
pub mod rules;

pub use engine::{AppConfig, Firewall};
pub use gateway::{Gateway, Message, Reply, Step, TransportError, UpReq, UpRes};
pub use router::{Anthropic, Ollama, OpenAI, Provider, Router, RouterEntry};
pub use rules::{
    EvaluationError, FirewallInput, FirewallVerdict, InputView, Judgement, LengthRule, PatternError,
    RegexBlockRule, Rule, StandardRule,
};
