//! Authentication: one first message, compared once with the secret.
//!
//! A connection waits a bounded time for a single inbound message and lets the
//! client in only if that message, read as text, equals the configured secret.
//! Every other outcome denies, with a diagnostic text for the client. There are
//! no retries.

use crate::trusted::{decoded_text, elapsed_text, message_text};
use tokio::time::error::Elapsed;
use tokio_tungstenite::tungstenite::Message;
use vstd::prelude::*;
use vstd::string::*;

verus! {

/// How long a connection waits for the first message, in seconds.
pub const AUTH_TIMEOUT_SECS: u64 = 30;

/// What waiting for the first message produced.
#[derive(Debug, PartialEq, Eq)]
pub enum GateAttempt {
    /// No message arrived within the window.
    TimedOut(Elapsed),
    /// The transport ended without another message.
    StreamEnded,
    /// The transport reported an error instead of a message.
    TransportError,
    /// A message arrived.
    Received(Message),
}

/// The verdict on a client.
#[derive(Clone, Debug, PartialEq, Eq)]
pub enum GateDecision {
    /// The client proved knowledge of the secret.
    Allow,
    /// The client is turned away; the text is the diagnostic to send it.
    Deny(String),
}

impl GateDecision {
    /// The diagnostic of a denial, `None` for an admission.
    pub open spec fn denial(self) -> Option<Seq<char>> {
        match self {
            GateDecision::Allow => None,
            GateDecision::Deny(text) => Some(text@),
        }
    }

    /// Whether the client was admitted.
    pub fn allowed(&self) -> (yes: bool)
        ensures
            yes <==> self.denial() is None,
    {
        match self {
            GateDecision::Allow => true,
            GateDecision::Deny(_) => false,
        }
    }
}

/// Diagnostic for a window that passed without a message.
pub open spec fn timeout_notice() -> Seq<char> {
    "password check timed out after "@ + "deadline has elapsed"@
}

/// Diagnostic for a transport that ended before any message.
pub open spec fn ended_notice() -> Seq<char> {
    "next() had nothing"@
}

/// Diagnostic for a transport error in place of the message.
pub open spec fn transport_notice() -> Seq<char> {
    "next() had error"@
}

/// Diagnostic for a message that cannot be read as text.
pub open spec fn undecodable_notice() -> Seq<char> {
    "to_text() had error"@
}

/// Diagnostic for a text that is not the secret.
pub open spec fn mismatch_notice() -> Seq<char> {
    "password check failed"@
}

/// The verdict on a decoded first message: `None` admits, `Some` denies with
/// that diagnostic. Only a text equal to the secret, character for character,
/// admits.
pub open spec fn text_denial(text: Option<Seq<char>>, password: Seq<char>) -> Option<Seq<char>> {
    match text {
        None => Some(undecodable_notice()),
        Some(t) => if t == password {
            None
        } else {
            Some(mismatch_notice())
        },
    }
}

/// The characters of an optional text.
pub open spec fn text_view(text: Option<String>) -> Option<Seq<char>> {
    match text {
        None => None,
        Some(t) => Some(t@),
    }
}

/// The verdict on `attempt`: `None` allows, `Some` denies with that
/// diagnostic. Silence, a closed transport and a transport error each have
/// their own denial; a received message has the verdict that `text_denial`
/// gives for its decoding.
pub open spec fn denial_for(attempt: GateAttempt, password: Seq<char>) -> Option<Seq<char>> {
    match attempt {
        GateAttempt::TimedOut(_) => Some(timeout_notice()),
        GateAttempt::StreamEnded => Some(ended_notice()),
        GateAttempt::TransportError => Some(transport_notice()),
        GateAttempt::Received(message) => text_denial(decoded_text(message), password),
    }
}

/// Judges the decoded first message against the secret.
///
/// `text` is `None` when the message could not be read as text.
pub fn judge_text(text: Option<String>, password: &String) -> (decision: GateDecision)
    ensures
        decision.denial() == text_denial(text_view(text), password@),
{
    match text {
        None => GateDecision::Deny(String::from_str("to_text() had error")),
        Some(t) => {
            if t == *password {
                GateDecision::Allow
            } else {
                GateDecision::Deny(String::from_str("password check failed"))
            }
        },
    }
}

/// Decides on the outcome of waiting for the first message, as `denial_for`
/// rules.
///
/// Only a received message can be allowed, and it is exactly when it decodes
/// to a text equal to `password`. Every failure denies.
pub fn check_password(attempt: GateAttempt, password: &String) -> (decision: GateDecision)
    ensures
        decision.denial() == denial_for(attempt, password@),
{
    match attempt {
        GateAttempt::TimedOut(elapsed) => {
            let mut text = String::from_str("password check timed out after ");
            let tail = elapsed_text(&elapsed);
            text.append(tail.as_str());
            GateDecision::Deny(text)
        },
        GateAttempt::StreamEnded => GateDecision::Deny(String::from_str("next() had nothing")),
        GateAttempt::TransportError => GateDecision::Deny(String::from_str("next() had error")),
        GateAttempt::Received(message) => {
            let text = message_text(&message);
            judge_text(text, password)
        },
    }
}

/// The secret and nothing else lets a client in: an attempt is allowed if and
/// only if a message was received and it decodes to a text equal to the
/// secret.
pub proof fn law_only_the_secret_opens(attempt: GateAttempt, password: Seq<char>)
    ensures
        denial_for(attempt, password) is None <==> (attempt matches GateAttempt::Received(message)
            && decoded_text(message) == Some(password)),
{
}

/// A client that sent nothing is turned away: silence, a closed transport and
/// a transport error are all denied.
pub proof fn law_silence_is_denied(attempt: GateAttempt, password: Seq<char>)
    requires
        !(attempt is Received),
    ensures
        denial_for(attempt, password) is Some,
{
}

} // verus!
