//! The relay client: the reconnecting socket client run inside the proxy
//! process. It bridges the hub's socket to the proxy's in-memory channels,
//! synthesizing connected/disconnected notifications for its consumer.
//!
//! The supervising loop's decisions are one function, [`relay_step`], from
//! state and observed event to next state and actions; the embedding process
//! performs the actions (channel sends, socket writes, sleeps) and hands the
//! next event back.

use vstd::prelude::*;

verus! {

use vstd::utf8::valid_utf8;
use vstd::utf8::decode_utf8;

/// Milliseconds slept after a failed connect attempt, and after a
/// disconnection, before the next connect attempt.
pub const RETRY_DELAY_MS: u64 = 5000;

/// Milliseconds slept between socket read attempts of a live connection.
pub const POLL_DELAY_MS: u64 = 100;

/// Whether the relay currently holds a connection to the hub.
#[derive(Debug, Clone, Copy, PartialEq, Eq, Structural)]
pub enum RelayState {
    Disconnected,
    Connected,
}

/// One thing the supervising loop observes.
pub enum RelayEvent {
    /// A connect attempt succeeded.
    ConnectOk,
    /// A connect attempt failed.
    ConnectFailed,
    /// A non-empty socket read yielded these bytes.
    SocketData(Vec<u8>),
    /// A zero-length socket read: the hub closed the stream.
    SocketClosed,
    /// A socket read error.
    SocketFailed,
    /// The orchestrator handed this text down for the hub.
    Inbound(String),
}

/// One thing the supervising loop is to do.
pub enum RelayAction {
    /// Send the synthesized connected notification to the outbound sink.
    EmitConnected,
    /// Send the synthesized disconnected notification to the outbound sink.
    EmitDisconnected,
    /// Send this relayed socket text to the outbound sink.
    EmitText(String),
    /// Write this text onto the hub socket.
    WriteSocket(String),
    /// Cancel the forwarding task of the connection that just closed.
    CancelForwarder,
    /// Sleep this many milliseconds before the next step.
    SleepMs(u64),
}

/// The text of the synthesized connected notification.
pub open spec fn connected_text() -> Seq<char> {
    "{\"command\":\"connected\"}"@
}

/// The text of the synthesized disconnected notification.
pub open spec fn disconnected_text() -> Seq<char> {
    "{\"command\":\"disconnected\"}"@
}

/// The synthesized connected notification.
pub fn connected_notification() -> (r: String)
    ensures
        r@ == connected_text(),
{
    "{\"command\":\"connected\"}".to_owned()
}

/// The synthesized disconnected notification.
pub fn disconnected_notification() -> (r: String)
    ensures
        r@ == disconnected_text(),
{
    "{\"command\":\"disconnected\"}".to_owned()
}

/// The state after one event.
pub open spec fn next_state(s: RelayState, e: RelayEvent) -> RelayState {
    match s {
        RelayState::Disconnected => if e is ConnectOk {
            RelayState::Connected
        } else {
            RelayState::Disconnected
        },
        RelayState::Connected => match e {
            RelayEvent::SocketClosed | RelayEvent::SocketFailed => RelayState::Disconnected,
            _ => RelayState::Connected,
        },
    }
}

/// The state after a sequence of events.
pub open spec fn relay_states(s: RelayState, evs: Seq<RelayEvent>) -> RelayState
    decreases evs.len(),
{
    if evs.len() == 0 {
        s
    } else {
        relay_states(next_state(s, evs[0]), evs.drop_first())
    }
}

/// Whether one step emits the connected notification: only a successful
/// connect attempt out of the disconnected state does.
pub open spec fn step_emits_connected(s: RelayState, e: RelayEvent) -> bool {
    s is Disconnected && e is ConnectOk
}

/// Whether any step of a run emits the connected notification.
pub open spec fn run_emits_connected(s: RelayState, evs: Seq<RelayEvent>) -> bool
    decreases evs.len(),
{
    if evs.len() == 0 {
        false
    } else {
        step_emits_connected(s, evs[0]) || run_emits_connected(
            next_state(s, evs[0]),
            evs.drop_first(),
        )
    }
}

/// Whether an action list contains the connected notification.
pub open spec fn emits_connected(acts: Seq<RelayAction>) -> bool {
    exists|i: int| 0 <= i < acts.len() && acts[i] is EmitConnected
}

/// The text String::from_utf8_lossy returns for the given bytes: a function
/// of the bytes alone (invalid sequences come back as replacement
/// characters).
pub uninterp spec fn lossy_text_of(bytes: Seq<u8>) -> Seq<char>;

/// Relies on String::from_utf8_lossy: its result depends on the bytes alone,
/// and on valid UTF-8 input it is exactly the decoded text.
#[verifier::external_body]
fn string_from_utf8_lossy(bytes: &[u8]) -> (r: String)
    ensures
        r@ == lossy_text_of(bytes@),
        valid_utf8(bytes@) ==> r@ == decode_utf8(bytes@),
{
    String::from_utf8_lossy(bytes).to_string()
}

/// One step of the supervising loop: from the current state and the observed
/// event to the next state and the actions to perform, in order. A failed
/// connect attempt sleeps the full retry delay and emits nothing; the
/// connected notification is emitted exactly when a connect attempt succeeds.
pub fn relay_step(state: RelayState, event: RelayEvent) -> (r: (RelayState, Vec<RelayAction>))
    ensures
        r.0 == next_state(state, event),
        emits_connected(r.1@) <==> step_emits_connected(state, event),
        state is Disconnected && event is ConnectOk ==> r.1@.len() == 1 && r.1@[0]
            is EmitConnected,
        state is Disconnected && event is ConnectFailed ==> r.1@ == seq![
            RelayAction::SleepMs(RETRY_DELAY_MS),
        ],
        state is Disconnected && !(event is ConnectOk) && !(event is ConnectFailed) ==> r.1@.len()
            == 0,
        state is Connected ==> (match event {
            RelayEvent::SocketData(b) => {
                &&& r.1@.len() == 2
                &&& r.1@[0] matches RelayAction::EmitText(t) && t@ == lossy_text_of(b@) && (
                valid_utf8(b@) ==> t@ == decode_utf8(b@))
                &&& r.1@[1] == RelayAction::SleepMs(POLL_DELAY_MS)
            },
            RelayEvent::SocketClosed | RelayEvent::SocketFailed => r.1@ == seq![
                RelayAction::EmitDisconnected,
                RelayAction::CancelForwarder,
                RelayAction::SleepMs(RETRY_DELAY_MS),
            ],
            RelayEvent::Inbound(m) => r.1@.len() == 1 && (r.1@[0] matches RelayAction::WriteSocket(
                w,
            ) && w@ == m@),
            _ => r.1@.len() == 0,
        }),
{
    match state {
        RelayState::Disconnected => match event {
            RelayEvent::ConnectOk => {
                let acts = vec![RelayAction::EmitConnected];
                (RelayState::Connected, acts)
            },
            RelayEvent::ConnectFailed => {
                let acts = vec![RelayAction::SleepMs(RETRY_DELAY_MS)];
                proof {
                    assert(acts@ =~= seq![RelayAction::SleepMs(RETRY_DELAY_MS)]);
                }
                (RelayState::Disconnected, acts)
            },
            _ => (RelayState::Disconnected, Vec::new()),
        },
        RelayState::Connected => match event {
            RelayEvent::SocketData(bytes) => {
                let text = string_from_utf8_lossy(bytes.as_slice());
                let acts = vec![
                    RelayAction::EmitText(text),
                    RelayAction::SleepMs(POLL_DELAY_MS),
                ];
                (RelayState::Connected, acts)
            },
            RelayEvent::SocketClosed | RelayEvent::SocketFailed => {
                let acts = vec![
                    RelayAction::EmitDisconnected,
                    RelayAction::CancelForwarder,
                    RelayAction::SleepMs(RETRY_DELAY_MS),
                ];
                proof {
                    assert(acts@ =~= seq![
                        RelayAction::EmitDisconnected,
                        RelayAction::CancelForwarder,
                        RelayAction::SleepMs(RETRY_DELAY_MS),
                    ]);
                }
                (RelayState::Disconnected, acts)
            },
            RelayEvent::Inbound(m) => {
                let acts = vec![RelayAction::WriteSocket(m)];
                (RelayState::Connected, acts)
            },
            _ => (RelayState::Connected, Vec::new()),
        },
    }
}

/// Law: a relay whose connect attempts all fail never emits the connected
/// notification, however long the run; it stays disconnected throughout, and
/// each failed attempt (by `relay_step`'s contract) sleeps the full retry
/// delay before the next.
pub proof fn lemma_no_connected_without_success(s: RelayState, evs: Seq<RelayEvent>)
    requires
        forall|i: int| 0 <= i < evs.len() ==> !(#[trigger] evs[i] is ConnectOk),
    ensures
        !run_emits_connected(s, evs),
        s is Disconnected ==> relay_states(s, evs) is Disconnected,
    decreases evs.len(),
{
    if evs.len() > 0 {
        assert(!(evs[0] is ConnectOk));
        assert(forall|i: int|
            0 <= i < evs.drop_first().len() ==> !(#[trigger] evs.drop_first()[i] is ConnectOk));
        lemma_no_connected_without_success(next_state(s, evs[0]), evs.drop_first());
        if s is Disconnected {
            assert(next_state(s, evs[0]) is Disconnected);
        }
    }
}

} // verus!
