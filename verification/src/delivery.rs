//! How a webhook from Alertmanager is delivered, and which reply it gets.
//!
//! A delivery goes: check that the receiver is set up, render the message, (on
//! Matrix) build the request, send it. The first step that fails decides the
//! reply: 503 where the receiver is not set up, 500 where rendering, building or
//! sending fails, 200 where the message was sent. The steps themselves (template
//! engine, network) run outside; here is what comes next after each.
use vstd::prelude::*;
use crate::text::same_text;

verus! {

/// HTTP status of a delivered alert.
pub const STATUS_OK: u16 = 200;
/// HTTP status where rendering, building or sending failed.
pub const STATUS_INTERNAL_SERVER_ERROR: u16 = 500;
/// HTTP status where the receiver is not set up.
pub const STATUS_SERVICE_UNAVAILABLE: u16 = 503;
/// The largest webhook body accepted, in bytes.
pub const MAX_BODY_BYTES: u64 = 16384;

/// A receiver of alerts.
#[derive(Debug, Clone, Copy, PartialEq, Eq, Structural)]
pub enum Channel {
    /// A Telegram chat, messages in HTML.
    Telegram,
    /// A Matrix room, messages in Markdown.
    Matrix,
}

/// What has just happened in a delivery.
#[derive(Debug, Clone, Copy, PartialEq, Eq, Structural)]
pub enum Event {
    /// A webhook came in; whether the receiver is set up.
    Received { ready: bool },
    /// The message was rendered, or rendering failed.
    Rendered { ok: bool },
    /// The request was built, or building it failed.
    RequestBuilt { ok: bool },
    /// The message was sent, or sending failed.
    Sent { ok: bool },
}

/// What to do next in a delivery.
#[derive(Debug, Clone, Copy, PartialEq, Eq, Structural)]
pub enum Step {
    /// Render the message from the channel's template.
    Render,
    /// Build the request that carries the message.
    BuildRequest,
    /// Send the message.
    Send,
    /// Answer the webhook with this HTTP status; the delivery is over.
    Reply(u16),
}

/// The step after `event` on `channel`.
pub open spec fn next(channel: Channel, event: Event) -> Step {
    match event {
        Event::Received { ready } => if ready {
            Step::Render
        } else {
            Step::Reply(STATUS_SERVICE_UNAVAILABLE)
        },
        Event::Rendered { ok } => if !ok {
            Step::Reply(STATUS_INTERNAL_SERVER_ERROR)
        } else if channel == Channel::Matrix {
            Step::BuildRequest
        } else {
            Step::Send
        },
        Event::RequestBuilt { ok } => if ok {
            Step::Send
        } else {
            Step::Reply(STATUS_INTERNAL_SERVER_ERROR)
        },
        Event::Sent { ok } => if ok {
            Step::Reply(STATUS_OK)
        } else {
            Step::Reply(STATUS_INTERNAL_SERVER_ERROR)
        },
    }
}

/// The step after `event` on `channel`.
pub fn next_step(channel: Channel, event: Event) -> (r: Step)
    ensures
        r == next(channel, event),
{
    match event {
        Event::Received { ready } => if ready {
            Step::Render
        } else {
            Step::Reply(STATUS_SERVICE_UNAVAILABLE)
        },
        Event::Rendered { ok } => if !ok {
            Step::Reply(STATUS_INTERNAL_SERVER_ERROR)
        } else {
            match channel {
                Channel::Matrix => Step::BuildRequest,
                Channel::Telegram => Step::Send,
            }
        },
        Event::RequestBuilt { ok } => if ok {
            Step::Send
        } else {
            Step::Reply(STATUS_INTERNAL_SERVER_ERROR)
        },
        Event::Sent { ok } => if ok {
            Step::Reply(STATUS_OK)
        } else {
            Step::Reply(STATUS_INTERNAL_SERVER_ERROR)
        },
    }
}

/// The event that answers `step` when each outside step has the given outcome.
pub open spec fn outcome_of(step: Step, ready: bool, rendered: bool, built: bool, sent: bool) -> Event {
    match step {
        Step::Render => Event::Rendered { ok: rendered },
        Step::BuildRequest => Event::RequestBuilt { ok: built },
        _ => Event::Sent { ok: sent },
    }
}

/// The reply a delivery on `channel` ends with, stepping from the webhook's arrival
/// for at most four steps, each outside step having the given outcome.
pub open spec fn delivery_reply(channel: Channel, ready: bool, rendered: bool, built: bool, sent: bool) -> Option<u16> {
    let s1 = next(channel, Event::Received { ready });
    if let Step::Reply(code) = s1 {
        Some(code)
    } else {
        let s2 = next(channel, outcome_of(s1, ready, rendered, built, sent));
        if let Step::Reply(code) = s2 {
            Some(code)
        } else {
            let s3 = next(channel, outcome_of(s2, ready, rendered, built, sent));
            if let Step::Reply(code) = s3 {
                Some(code)
            } else {
                let s4 = next(channel, outcome_of(s3, ready, rendered, built, sent));
                if let Step::Reply(code) = s4 {
                    Some(code)
                } else {
                    None
                }
            }
        }
    }
}

/// Every delivery ends with a reply within four steps: 503 exactly where the
/// receiver is not set up, 200 exactly where every step succeeded (rendering, on
/// Matrix building the request, and sending), 500 in every other case.
pub proof fn lemma_delivery_reply(channel: Channel, ready: bool, rendered: bool, built: bool, sent: bool)
    ensures
        delivery_reply(channel, ready, rendered, built, sent) is Some,
        delivery_reply(channel, ready, rendered, built, sent) == Some(STATUS_SERVICE_UNAVAILABLE) <==> !ready,
        delivery_reply(channel, ready, rendered, built, sent) == Some(STATUS_OK)
            <==> ready && rendered && (channel == Channel::Matrix ==> built) && sent,
        delivery_reply(channel, ready, rendered, built, sent) == Some(STATUS_INTERNAL_SERVER_ERROR)
            <==> ready && !(rendered && (channel == Channel::Matrix ==> built) && sent),
{
}

/// The template that renders messages for `channel`.
pub fn template_name(channel: Channel) -> (r: &'static str)
    ensures
        r@ == (match channel {
            Channel::Telegram => "default_tg"@,
            Channel::Matrix => "default_matrix"@,
        }),
{
    match channel {
        Channel::Telegram => "default_tg",
        Channel::Matrix => "default_matrix",
    }
}


/// The channel that a webhook path names: `tg` for Telegram, `matrix` for Matrix.
pub fn route(path: &str) -> (r: Option<Channel>)
    ensures
        r == (if path@ == "tg"@ {
            Some(Channel::Telegram)
        } else if path@ == "matrix"@ {
            Some(Channel::Matrix)
        } else {
            None
        }),
{
    if same_text(path, "tg") {
        Some(Channel::Telegram)
    } else if same_text(path, "matrix") {
        Some(Channel::Matrix)
    } else {
        None
    }
}

/// Whether an alert's status is `expected` (templates ask whether it is `firing`).
pub fn status_is(status: &str, expected: &str) -> (r: bool)
    ensures
        r == (status@ == expected@),
{
    same_text(status, expected)
}

} // verus!
