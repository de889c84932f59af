//! Decisions of the streaming views: what an SSE connection does with each
//! event it receives, what a WebSocket connection does with each frame and
//! broadcast, and the settings of streaming REST views.

use vstd::prelude::*;
use crate::text::{decimal, push_decimal, push_str};

verus! {

/// Something an SSE connection's forwarding loop receives.
pub enum SseEvent {
    /// An event from the channel, already in wire format.
    Message(String),
    /// The channel closed.
    Closed,
    /// The subscriber fell behind by this many events.
    Lagged(u64),
    /// A periodic revalidation of the connection's session.
    SessionChecked { valid: bool },
}

/// What the loop does next.
pub enum SseAction {
    /// Send this text and keep going.
    Send(String),
    /// Nothing to send; keep going.
    Continue,
    /// Send this text, then close.
    SendAndClose(String),
    /// Close.
    Close,
}

/// The SSE comment telling a client it missed events.
pub open spec fn lagged_comment(n: u64) -> Seq<char> {
    ": lagged "@ + decimal(n as nat) + " events\n\n"@
}

/// One step of an SSE connection: events are forwarded; a lag is reported
/// as a comment; a closed channel ends the stream; an expired session
/// ends it after telling the client.
pub fn sse_step(event: SseEvent) -> (r: SseAction)
    ensures
        match event {
            SseEvent::Message(w) => r matches SseAction::Send(s) && s@ == w@,
            SseEvent::Closed => r is Close,
            SseEvent::Lagged(n) => r matches SseAction::Send(s) && s@ == lagged_comment(n),
            SseEvent::SessionChecked { valid } => if valid {
                r is Continue
            } else {
                r matches SseAction::SendAndClose(s) && s@ == ": session expired\n\n"@
            },
        },
{
    match event {
        SseEvent::Message(w) => SseAction::Send(w),
        SseEvent::Closed => SseAction::Close,
        SseEvent::Lagged(n) => {
            let mut s = String::new();
            push_str(&mut s, ": lagged ");
            push_decimal(&mut s, n);
            push_str(&mut s, " events\n\n");
            proof {
                assert(s@ =~= lagged_comment(n));
            }
            SseAction::Send(s)
        },
        SseEvent::SessionChecked { valid } => {
            if valid {
                SseAction::Continue
            } else {
                SseAction::SendAndClose(": session expired\n\n".to_owned())
            }
        },
    }
}

/// Something a WebSocket connection's loop receives.
pub enum WsEvent {
    /// A text frame from the client.
    Text(String),
    /// A binary frame from the client.
    Binary,
    /// A close frame, a socket error or the end of the socket.
    ClientGone,
    /// A ping or pong.
    Control,
    /// A message from the view's broadcast hub or direct registry.
    Outbound(String),
    /// The hub closed.
    OutboundClosed,
    /// The connection fell behind the hub.
    OutboundLagged,
}

/// What the loop does with an event.
pub enum WsAction {
    /// Drop a client message over the rate limit.
    Drop,
    /// Handle a client message: publish it, run the message hook and the
    /// stream handler.
    Handle(String),
    /// Note a binary frame (they are not supported).
    NoteBinary,
    /// Send this text to the client.
    Send(String),
    /// Nothing to do.
    Continue,
    /// End the connection.
    Close,
}

/// One step of a WebSocket connection: client text is handled when the
/// rate limit allows it (`rate_allows` is the limiter's verdict, `true`
/// when the view has no limit); outbound messages are sent; a gone client
/// or a closed hub ends the connection; lag and control frames are
/// skipped.
pub fn ws_step(event: WsEvent, rate_allows: bool) -> (r: WsAction)
    ensures
        match event {
            WsEvent::Text(t) => if rate_allows {
                r matches WsAction::Handle(s) && s@ == t@
            } else {
                r is Drop
            },
            WsEvent::Binary => r is NoteBinary,
            WsEvent::ClientGone => r is Close,
            WsEvent::Control => r is Continue,
            WsEvent::Outbound(p) => r matches WsAction::Send(s) && s@ == p@,
            WsEvent::OutboundClosed => r is Close,
            WsEvent::OutboundLagged => r is Continue,
        },
{
    match event {
        WsEvent::Text(t) => {
            if rate_allows {
                WsAction::Handle(t)
            } else {
                WsAction::Drop
            }
        },
        WsEvent::Binary => WsAction::NoteBinary,
        WsEvent::ClientGone => WsAction::Close,
        WsEvent::Control => WsAction::Continue,
        WsEvent::Outbound(p) => WsAction::Send(p),
        WsEvent::OutboundClosed => WsAction::Close,
        WsEvent::OutboundLagged => WsAction::Continue,
    }
}

/// Whether the disconnect hook's reply is broadcast: only for broadcast
/// views and a non-null reply.
pub fn broadcast_disconnect_reply(broadcast_mode: bool, reply_is_null: bool) -> (r: bool)
    ensures
        r == (broadcast_mode && !reply_is_null),
{
    broadcast_mode && !reply_is_null
}

/// Streaming REST view timeout in milliseconds (120 000 unless set).
pub fn stream_timeout_ms(configured: Option<u64>) -> (r: u64)
    ensures
        r == match configured {
            Some(t) => t,
            None => 120_000u64,
        },
{
    match configured {
        Some(t) => t,
        None => 120_000,
    }
}

/// Whether a connecting SSE client asks for the events it missed: it
/// sends a `Last-Event-ID` header (whatever its value).
pub fn sse_wants_replay(last_event_id: Option<&str>) -> (r: bool)
    ensures
        r == (last_event_id is Some),
{
    last_event_id.is_some()
}

/// The message answered (500) when a client goes away while its missed
/// events are replayed; the subscription is dropped first.
pub open spec fn replay_abort_message() -> Seq<char> {
    "client disconnected during replay"@
}

/// What the replay of missed events does next.
pub enum ReplayAction {
    /// Send this event (in wire format).
    Send(String),
    /// The client went away: drop the subscription and answer 500 with
    /// this message.
    Abort(String),
    /// Every missed event was sent; start forwarding live events.
    Done,
}

/// The view of a replay action: `Send`, `Abort` with its text, or `Done`.
pub open spec fn replay_action_view(a: ReplayAction) -> (int, Seq<char>) {
    match a {
        ReplayAction::Send(s) => (0, s@),
        ReplayAction::Abort(m) => (1, m@),
        ReplayAction::Done => (2, Seq::empty()),
    }
}

/// The replay step after `sent` of the missed events went out, the last
/// send having succeeded or not: a failed send aborts; otherwise the next
/// missed event, in order, is sent, until none is left.
pub open spec fn replay_next_spec(missed: Seq<Seq<char>>, sent: int, last_send_ok: bool) -> (int, Seq<
    char,
>) {
    if !last_send_ok {
        (1, replay_abort_message())
    } else if 0 <= sent < missed.len() {
        (0, missed[sent])
    } else {
        (2, Seq::empty())
    }
}

/// One step of replaying the missed events (given in wire format, oldest
/// first) to a reconnecting SSE client.
pub fn replay_next(missed: &Vec<String>, sent: usize, last_send_ok: bool) -> (r: ReplayAction)
    ensures
        replay_action_view(r) == replay_next_spec(crate::text::strings_view(missed@), sent as int, last_send_ok),
{
    if !last_send_ok {
        ReplayAction::Abort("client disconnected during replay".to_owned())
    } else if sent < missed.len() {
        ReplayAction::Send(missed[sent].clone())
    } else {
        ReplayAction::Done
    }
}

/// A reconnecting client whose sends all go through is sent every missed
/// event once, oldest first, and then the replay is done: step `k` sends
/// event `k`, and the step after the last one finishes.
pub proof fn law_missed_events_are_replayed(missed: Seq<Seq<char>>)
    ensures
        forall|k: int| 0 <= k < missed.len() ==> #[trigger] replay_next_spec(missed, k, true) == (
            0int,
            missed[k],
        ),
        replay_next_spec(missed, missed.len() as int, true) == (2int, Seq::<char>::empty()),
{
}

} // verus!
