//! The per-connection session: join, serve, close.
//!
//! One session owns a socket, a handle, and a subscription to its room's
//! hub.  Two cooperative tasks serve it: the writer forwards hub items to
//! the socket, the reader handles inbound frames.  The socket and the store
//! are driven outside; the decisions — what to announce, what to persist,
//! what to publish, when to commit, and when the session ends — are made
//! here, and the phase machine pins down that exactly one leave
//! announcement is published per served session.

use vstd::prelude::*;
use crate::hub::hub_publish;
use crate::ids::{is_handle, make_handle, RoomId};
use crate::json::{json_string, push_json_string};
use vstd::string::StringExecFns;

verus! {

/// Where a session stands.
#[derive(Clone, Copy, PartialEq, Eq, Structural, Debug)]
pub enum SessionPhase {
    /// Admitted; acquiring the hub, replaying history, announcing the join.
    Joining,
    /// Reader and writer are running.
    Serving,
    /// One side finished; the leave announcement is out and resources drop.
    Closing,
}

/// What moves a session: the join completing, or one of the ways a served
/// session ends — a close frame, the peer's transport going away, a socket
/// send failing, or the subscription overflowing the hub's backlog.
#[derive(Clone, Copy, PartialEq, Eq, Structural, Debug)]
pub enum SessionEvent {
    HubJoined,
    CloseFrame,
    PeerClosed,
    SendFailed,
    LaggedOut,
}

/// One client's session.
pub struct Session {
    pub room: RoomId,
    pub room_key: i32,
    pub handle: String,
    pub phase: SessionPhase,
}

/// The phase after one event.
pub open spec fn next_phase(p: SessionPhase, ev: SessionEvent) -> SessionPhase {
    match p {
        SessionPhase::Joining => if ev is HubJoined {
            SessionPhase::Serving
        } else {
            SessionPhase::Joining
        },
        SessionPhase::Serving => if ev is HubJoined {
            SessionPhase::Serving
        } else {
            SessionPhase::Closing
        },
        SessionPhase::Closing => SessionPhase::Closing,
    }
}

/// Whether the step from `p` on `ev` publishes the leave announcement:
/// exactly the transitions out of `Serving`.
pub open spec fn emits_leave(p: SessionPhase, ev: SessionEvent) -> bool {
    p is Serving && !(ev is HubJoined)
}

/// The phase after a whole sequence of events.
pub open spec fn run_phase(p: SessionPhase, evs: Seq<SessionEvent>) -> SessionPhase
    decreases evs.len(),
{
    if evs.len() == 0 {
        p
    } else {
        run_phase(next_phase(p, evs[0]), evs.drop_first())
    }
}

/// How many leave announcements a sequence of events publishes from `p`.
pub open spec fn leave_count(p: SessionPhase, evs: Seq<SessionEvent>) -> nat
    decreases evs.len(),
{
    if evs.len() == 0 {
        0
    } else {
        (if emits_leave(p, evs[0]) { 1nat } else { 0nat })
        + leave_count(next_phase(p, evs[0]), evs.drop_first())
    }
}

proof fn lemma_closing_silent(evs: Seq<SessionEvent>)
    ensures
        leave_count(SessionPhase::Closing, evs) == 0,
    decreases evs.len(),
{
    if evs.len() > 0 {
        lemma_closing_silent(evs.drop_first());
    }
}

/// A session never publishes the leave announcement twice, whatever events
/// arrive and wherever it starts.
pub proof fn lemma_at_most_one_leave(p: SessionPhase, evs: Seq<SessionEvent>)
    ensures
        leave_count(p, evs) <= 1,
    decreases evs.len(),
{
    if evs.len() > 0 {
        if emits_leave(p, evs[0]) {
            lemma_closing_silent(evs.drop_first());
        } else {
            lemma_at_most_one_leave(next_phase(p, evs[0]), evs.drop_first());
        }
    }
}

/// A served session that ends publishes the leave announcement exactly
/// once: any event sequence from `Serving` holding at least one ending
/// event yields one announcement.
pub proof fn lemma_exactly_one_leave(evs: Seq<SessionEvent>)
    requires
        exists|i: int| 0 <= i < evs.len() && !(#[trigger] evs[i] is HubJoined),
    ensures
        leave_count(SessionPhase::Serving, evs) == 1,
    decreases evs.len(),
{
    let i = choose|i: int| 0 <= i < evs.len() && !(#[trigger] evs[i] is HubJoined);
    if evs[0] is HubJoined {
        assert(0 <= i - 1 < evs.drop_first().len() && !(evs.drop_first()[i - 1] is HubJoined));
        lemma_exactly_one_leave(evs.drop_first());
    } else {
        lemma_closing_silent(evs.drop_first());
    }
}

/// The greeting sent to a freshly connected peer.
pub open spec fn greeting() -> Seq<char> {
    "Connected"@
}

/// The join announcement for one handle.
pub open spec fn join_announcement(h: Seq<char>) -> Seq<char> {
    "user "@ + h + " joined to room"@
}

/// The leave announcement for one handle.
pub open spec fn leave_announcement(h: Seq<char>) -> Seq<char> {
    "user "@ + h + " leave the room"@
}

/// The serialized chat payload carrying one message from one handle; this
/// exact text is persisted and fanned out.
pub open spec fn chat_payload(user: Seq<char>, text: Seq<char>) -> Seq<char> {
    "{\"user\":"@ + json_string(user) + ",\"message\":"@ + json_string(text) + "}"@
}

impl Session {
    /// A fresh session entering `Joining` for an admitted room, with a
    /// newly minted anonymous handle.
    pub fn joining(room: RoomId, room_key: i32) -> (s: Session)
        ensures
            s.room == room,
            s.room_key == room_key,
            s.phase is Joining,
            is_handle(s.handle@),
    {
        Session { room, room_key, handle: make_handle(), phase: SessionPhase::Joining }
    }
}

/// The greeting text, as sent on the socket right after the upgrade.
pub fn greeting_text() -> (r: String)
    ensures
        r@ == greeting(),
{
    String::from_str("Connected")
}

/// A publish attempt: the exact text handed to the hub and whether any
/// subscriber was there to take it.
pub struct PublishOutcome {
    pub text: String,
    pub delivered: bool,
}

/// Builds and publishes the join announcement for a session's handle.
pub fn publish_join(
    hub: &tokio::sync::broadcast::Sender<String>,
    handle: &str,
) -> (r: PublishOutcome)
    ensures
        r.text@ == join_announcement(handle@),
{
    let mut msg = String::from_str("user ");
    msg.append(handle);
    msg.append(" joined to room");
    let delivered = hub_publish(hub, msg.clone());
    PublishOutcome { text: msg, delivered }
}

/// The serialized chat payload for one inbound message.
pub fn build_chat_payload(user: &str, text: &str) -> (r: String)
    ensures
        r@ == chat_payload(user@, text@),
{
    let mut out = String::from_str("{\"user\":");
    push_json_string(&mut out, user);
    out.append(",\"message\":");
    push_json_string(&mut out, text);
    out.append("}");
    out
}

/// What the reader does with one inbound frame.
#[derive(Clone, Copy, PartialEq, Eq, Structural, Debug)]
pub enum ReaderAction {
    /// A rate-limited text frame: dropped silently, the session goes on.
    DropFrame,
    /// An admitted text frame: persist the payload in a transaction,
    /// publish it, then commit or roll back by `publish_and_decide`.
    PersistAndFanOut,
    /// A close frame: the reader exits, which closes the session.
    EndSession,
    /// Any other frame is ignored.
    Ignore,
}

/// The kinds of inbound frame the reader distinguishes.
#[derive(Clone, Copy, PartialEq, Eq, Structural, Debug)]
pub enum FrameKind {
    TextFrame,
    CloseFrame,
    OtherFrame,
}

/// The reader's decision for one inbound frame, after the per-frame rate
/// gate has been consulted for text frames.
pub fn reader_step(kind: FrameKind, rate_allowed: bool) -> (r: ReaderAction)
    ensures
        kind is TextFrame && !rate_allowed ==> r is DropFrame,
        kind is TextFrame && rate_allowed ==> r is PersistAndFanOut,
        kind is CloseFrame ==> r is EndSession,
        kind is OtherFrame ==> r is Ignore,
{
    match kind {
        FrameKind::TextFrame => if rate_allowed {
            ReaderAction::PersistAndFanOut
        } else {
            ReaderAction::DropFrame
        },
        FrameKind::CloseFrame => ReaderAction::EndSession,
        FrameKind::OtherFrame => ReaderAction::Ignore,
    }
}

/// What to do with the open transaction after a publish attempt.
#[derive(Clone, Copy, PartialEq, Eq, Structural, Debug)]
pub enum TxCommand {
    Commit,
    Rollback,
}

/// The transaction command owed after a publish attempt: commit exactly
/// when the hub took the payload.
pub open spec fn spec_tx_command(delivered: bool) -> TxCommand {
    if delivered {
        TxCommand::Commit
    } else {
        TxCommand::Rollback
    }
}

/// Publishes an admitted text frame's payload — already persisted inside
/// the caller's open transaction — and decides the transaction: the insert
/// commits exactly when the payload was delivered, so a message is never
/// durable without having been fanned out.
pub fn publish_and_decide(
    hub: &tokio::sync::broadcast::Sender<String>,
    payload: String,
) -> (r: (bool, TxCommand))
    ensures
        r.1 == spec_tx_command(r.0),
{
    let delivered = hub_publish(hub, payload);
    if delivered {
        (true, TxCommand::Commit)
    } else {
        (false, TxCommand::Rollback)
    }
}

/// Whether an admitted text frame ends up persisted: the transaction must
/// open, the insert must succeed, and the commit is issued only on
/// delivery.
pub open spec fn frame_persisted(
    rate_allowed: bool,
    tx_ok: bool,
    insert_ok: bool,
    delivered: bool,
) -> bool {
    rate_allowed && tx_ok && insert_ok && spec_tx_command(delivered) is Commit
}

/// Whether an admitted text frame is fanned out to the hub's subscribers.
pub open spec fn frame_fanned_out(rate_allowed: bool, tx_ok: bool, delivered: bool) -> bool {
    rate_allowed && tx_ok && delivered
}

/// An inbound message is never persisted without being fanned out, because
/// the publish precedes the commit; the converse — fanned out but not
/// persisted, after a failed insert or commit — is possible and accepted.
pub proof fn lemma_no_persist_without_fanout(
    rate_allowed: bool,
    tx_ok: bool,
    insert_ok: bool,
    delivered: bool,
)
    ensures
        frame_persisted(rate_allowed, tx_ok, insert_ok, delivered) ==> frame_fanned_out(
            rate_allowed,
            tx_ok,
            delivered,
        ),
        rate_allowed && tx_ok && insert_ok && delivered ==> frame_persisted(
            rate_allowed,
            tx_ok,
            insert_ok,
            delivered,
        ) && frame_fanned_out(rate_allowed, tx_ok, delivered),
{
}

/// One step of the session's phase machine.  A step out of `Serving`
/// publishes the leave announcement and hands it back; every other step
/// publishes nothing.
pub fn session_step(
    s: &mut Session,
    ev: SessionEvent,
    hub: &tokio::sync::broadcast::Sender<String>,
) -> (r: Option<PublishOutcome>)
    ensures
        final(s).phase == next_phase(old(s).phase, ev),
        final(s).room == old(s).room,
        final(s).room_key == old(s).room_key,
        final(s).handle == old(s).handle,
        r is Some <==> emits_leave(old(s).phase, ev),
        r matches Option::Some(p) ==> p.text@ == leave_announcement(old(s).handle@),
{
    match s.phase {
        SessionPhase::Joining => {
            if let SessionEvent::HubJoined = ev {
                s.phase = SessionPhase::Serving;
            }
            None
        },
        SessionPhase::Serving => {
            if let SessionEvent::HubJoined = ev {
                None
            } else {
                let mut msg = String::from_str("user ");
                msg.append(s.handle.as_str());
                msg.append(" leave the room");
                let delivered = hub_publish(hub, msg.clone());
                s.phase = SessionPhase::Closing;
                Some(PublishOutcome { text: msg, delivered })
            }
        },
        SessionPhase::Closing => None,
    }
}

} // verus!
