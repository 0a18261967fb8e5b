//! The daemon's side of the handshake with a freshly started screensaver
//! runner: wait (at most five seconds) for the runner to connect to the
//! session socket, make the stream blocking, expect `Ready`, send `Init` with
//! the grid size, expect `Ack`.
//!
//! Accepting, reading, writing and killing the runner happen outside; each
//! step here takes what the last outside action reported and says what to do
//! next. Every failure aborts the session with the message the daemon reports.

use vstd::prelude::*;

verus! {

/// Longest wait for the runner to connect, in nanoseconds (five seconds).
pub const CONNECT_TIMEOUT_NANOS: u128 = 5_000_000_000;

/// Where the handshake stands.
#[derive(Clone, Copy, Debug, PartialEq, Eq, Structural)]
pub enum HandshakeState {
    /// Waiting for the runner to connect.
    AwaitConnection,
    /// Connected; the stream is being made blocking.
    MakingBlocking,
    /// Waiting for the runner's `Ready`.
    AwaitReady,
    /// `Init` is being sent.
    SendingInit,
    /// Waiting for the runner's `Ack` of `Init`.
    AwaitAck,
    /// The runner is ready for frames.
    Connected,
    /// The session was aborted.
    Failed,
}

/// A reply read from the runner.
#[derive(Debug)]
pub enum RunnerReply {
    Ready,
    Ack,
    /// Any other reply, as its `Debug` text.
    Other(String),
}

/// What the last outside action reported.
#[derive(Debug)]
pub enum HandshakeEvent {
    /// No connection yet; `elapsed_nanos` have passed since the runner started.
    NotYetConnected { elapsed_nanos: u128 },
    Connected,
    /// Accepting failed with this error text.
    AcceptFailed(String),
    BlockingSet,
    /// Making the stream blocking failed with this error text.
    BlockingFailed(String),
    Reply(RunnerReply),
    /// Reading a reply failed with this error text.
    ReadFailed(String),
    InitSent,
    /// Sending `Init` failed with this error text.
    SendFailed(String),
}

/// What to do next.
#[derive(Debug)]
pub enum HandshakeAction {
    /// Pause briefly (10 ms), then try to accept again.
    RetryAccept,
    /// Make the accepted stream blocking.
    MakeBlocking,
    /// Read the runner's next reply.
    ReadReply,
    /// Send `Init` with the grid size.
    SendInit { cols: u32, rows: u32 },
    /// The handshake is complete.
    Finish,
    /// Kill and reap the runner, remove the socket, and fail with this message.
    Abort(String),
    /// Nothing: the event does not belong to this stage.
    Nothing,
}

/// A [`HandshakeAction`] with its message as characters.
pub enum ActionView {
    RetryAccept,
    MakeBlocking,
    ReadReply,
    SendInit { cols: u32, rows: u32 },
    Finish,
    Abort(Seq<char>),
    Nothing,
}

/// The view of an action.
pub open spec fn action_view(a: HandshakeAction) -> ActionView {
    match a {
        HandshakeAction::RetryAccept => ActionView::RetryAccept,
        HandshakeAction::MakeBlocking => ActionView::MakeBlocking,
        HandshakeAction::ReadReply => ActionView::ReadReply,
        HandshakeAction::SendInit { cols, rows } => ActionView::SendInit { cols, rows },
        HandshakeAction::Finish => ActionView::Finish,
        HandshakeAction::Abort(m) => ActionView::Abort(m@),
        HandshakeAction::Nothing => ActionView::Nothing,
    }
}

/// How a reply is written in messages (its `Debug` text).
pub open spec fn reply_text(r: RunnerReply) -> Seq<char> {
    match r {
        RunnerReply::Ready => "Ready"@,
        RunnerReply::Ack => "Ack"@,
        RunnerReply::Other(t) => t@,
    }
}

/// One step of the handshake: the next stage and what to do, for the event
/// the last action reported. Events that do not belong to the current stage
/// change nothing; a finished or failed handshake stays as it is.
pub open spec fn handshake_step_spec(
    state: HandshakeState,
    event: HandshakeEvent,
    cols: u32,
    rows: u32,
) -> (HandshakeState, ActionView) {
    let fail = |m: Seq<char>| (HandshakeState::Failed, ActionView::Abort(m));
    match state {
        HandshakeState::AwaitConnection => match event {
            HandshakeEvent::NotYetConnected { elapsed_nanos } => if elapsed_nanos
                > CONNECT_TIMEOUT_NANOS {
                fail("timeout waiting for runner process connection"@)
            } else {
                (HandshakeState::AwaitConnection, ActionView::RetryAccept)
            },
            HandshakeEvent::Connected => (HandshakeState::MakingBlocking, ActionView::MakeBlocking),
            HandshakeEvent::AcceptFailed(e) => fail("UDS accept error: "@ + e@),
            _ => (state, ActionView::Nothing),
        },
        HandshakeState::MakingBlocking => match event {
            HandshakeEvent::BlockingSet => (HandshakeState::AwaitReady, ActionView::ReadReply),
            HandshakeEvent::BlockingFailed(e) => fail(
                "failed to set blocking on runner stream: "@ + e@,
            ),
            _ => (state, ActionView::Nothing),
        },
        HandshakeState::AwaitReady => match event {
            HandshakeEvent::Reply(r) => match r {
                RunnerReply::Ready => (
                    HandshakeState::SendingInit,
                    ActionView::SendInit { cols, rows },
                ),
                _ => fail("unexpected connection message: "@ + reply_text(r)),
            },
            HandshakeEvent::ReadFailed(e) => fail("failed to read connection message: "@ + e@),
            _ => (state, ActionView::Nothing),
        },
        HandshakeState::SendingInit => match event {
            HandshakeEvent::InitSent => (HandshakeState::AwaitAck, ActionView::ReadReply),
            HandshakeEvent::SendFailed(e) => fail("failed to send Init: "@ + e@),
            _ => (state, ActionView::Nothing),
        },
        HandshakeState::AwaitAck => match event {
            HandshakeEvent::Reply(r) => match r {
                RunnerReply::Ack => (HandshakeState::Connected, ActionView::Finish),
                _ => fail("unexpected response to Init: "@ + reply_text(r)),
            },
            HandshakeEvent::ReadFailed(e) => fail("failed to read Init Ack: "@ + e@),
            _ => (state, ActionView::Nothing),
        },
        HandshakeState::Connected | HandshakeState::Failed => (state, ActionView::Nothing),
    }
}

/// `prefix` followed by `detail`.
fn message(prefix: &str, detail: &str) -> (m: String)
    ensures
        m@ == prefix@ + detail@,
{
    let mut m = String::new();
    m.append(prefix);
    m.append(detail);
    m
}

/// The `Debug` text of a reply.
fn reply_string(r: &RunnerReply) -> (s: String)
    ensures
        s@ == reply_text(*r),
{
    match r {
        RunnerReply::Ready => "Ready".to_string(),
        RunnerReply::Ack => "Ack".to_string(),
        RunnerReply::Other(t) => t.clone(),
    }
}

/// One step of the handshake with a runner for a `cols x rows` grid (see
/// [`handshake_step_spec`]).
pub fn ipc_handshake_step(state: HandshakeState, event: &HandshakeEvent, cols: u32, rows: u32) -> (r: (
    HandshakeState,
    HandshakeAction,
))
    ensures
        (r.0, action_view(r.1)) == handshake_step_spec(state, *event, cols, rows),
{
    let failed = HandshakeState::Failed;
    match state {
        HandshakeState::AwaitConnection => match event {
            HandshakeEvent::NotYetConnected { elapsed_nanos } => {
                if *elapsed_nanos > CONNECT_TIMEOUT_NANOS {
                    (
                        failed,
                        HandshakeAction::Abort(
                            "timeout waiting for runner process connection".to_string(),
                        ),
                    )
                } else {
                    (state, HandshakeAction::RetryAccept)
                }
            },
            HandshakeEvent::Connected => (HandshakeState::MakingBlocking, HandshakeAction::MakeBlocking),
            HandshakeEvent::AcceptFailed(e) => (
                failed,
                HandshakeAction::Abort(message("UDS accept error: ", e.as_str())),
            ),
            _ => (state, HandshakeAction::Nothing),
        },
        HandshakeState::MakingBlocking => match event {
            HandshakeEvent::BlockingSet => (HandshakeState::AwaitReady, HandshakeAction::ReadReply),
            HandshakeEvent::BlockingFailed(e) => (
                failed,
                HandshakeAction::Abort(
                    message("failed to set blocking on runner stream: ", e.as_str()),
                ),
            ),
            _ => (state, HandshakeAction::Nothing),
        },
        HandshakeState::AwaitReady => match event {
            HandshakeEvent::Reply(r) => match r {
                RunnerReply::Ready => (HandshakeState::SendingInit, HandshakeAction::SendInit { cols, rows }),
                _ => (
                    failed,
                    HandshakeAction::Abort(
                        message("unexpected connection message: ", reply_string(r).as_str()),
                    ),
                ),
            },
            HandshakeEvent::ReadFailed(e) => (
                failed,
                HandshakeAction::Abort(message("failed to read connection message: ", e.as_str())),
            ),
            _ => (state, HandshakeAction::Nothing),
        },
        HandshakeState::SendingInit => match event {
            HandshakeEvent::InitSent => (HandshakeState::AwaitAck, HandshakeAction::ReadReply),
            HandshakeEvent::SendFailed(e) => (
                failed,
                HandshakeAction::Abort(message("failed to send Init: ", e.as_str())),
            ),
            _ => (state, HandshakeAction::Nothing),
        },
        HandshakeState::AwaitAck => match event {
            HandshakeEvent::Reply(r) => match r {
                RunnerReply::Ack => (HandshakeState::Connected, HandshakeAction::Finish),
                _ => (
                    failed,
                    HandshakeAction::Abort(
                        message("unexpected response to Init: ", reply_string(r).as_str()),
                    ),
                ),
            },
            HandshakeEvent::ReadFailed(e) => (
                failed,
                HandshakeAction::Abort(message("failed to read Init Ack: ", e.as_str())),
            ),
            _ => (state, HandshakeAction::Nothing),
        },
        HandshakeState::Connected | HandshakeState::Failed => (state, HandshakeAction::Nothing),
    }
}

} // verus!
