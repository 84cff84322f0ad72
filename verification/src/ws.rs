//! The decisions of the WebSocket handlers: the ingest connection, which
//! records what PulseHive sends into a session it opens on the first
//! event, and the subscriber connections, which relay broadcasts to
//! browsers.

use vstd::prelude::*;

use crate::session::{SessionId, SessionMetadata};

verus! {

/// Largest ingest frame accepted, in bytes.
pub const MAX_INGEST_MESSAGE_BYTES: usize = 1048576;

/// Seconds between keep-alive pings to a subscriber.
pub const PING_INTERVAL_SECS: u64 = 30;

/// What happened on an ingest connection.
pub enum IngestInput {
    /// A text frame that reads as a HiveEvent.
    Event,
    /// A text frame that does not read as a HiveEvent.
    Malformed,
    /// A close frame.
    Close,
    /// Any other frame.
    Other,
    /// The connection ended or failed.
    End,
    /// The session store opened the session asked for.
    SessionCreated(SessionId),
    /// The session store could not open the session asked for.
    SessionFailed,
}

/// What the ingest handler does next.
pub enum IngestAction {
    /// Ask the session store for a session with this metadata, then report
    /// `SessionCreated` or `SessionFailed`; the pending event waits for it.
    CreateSession(SessionMetadata),
    /// Store the pending event in this session and broadcast its frame.
    Forward(SessionId),
    /// Nothing to do for this input.
    Ignore,
    /// Stop reading; complete the session if there is one.
    Finish(Option<SessionId>),
}

/// The state of one ingest connection.
pub struct IngestState {
    /// The session the connection records into, once opened.
    pub session: Option<SessionId>,
    /// How many events were forwarded (wrapping at `u64::MAX`).
    pub forwarded: u64,
    /// Whether the connection has finished; nothing happens after that.
    pub finished: bool,
}

/// The metadata of the session an ingest connection opens.
pub open spec fn is_ingest_metadata(m: SessionMetadata) -> bool {
    &&& m.substrate_path is None
    &&& m.description matches Some(d) && d@ == "WebSocket ingest session"@
}

/// The event count after one more forwarded event (wrapping at `u64::MAX`).
pub open spec fn count_after(n: u64) -> u64 {
    if n == u64::MAX {
        0
    } else {
        (n + 1) as u64
    }
}

/// One step of an ingest connection: from state `s`, on `input`, to state
/// `t` with `action`.
/// - An event with a session open is forwarded into it; without one, a
///   session is asked for and the event waits.
/// - A session opened by the store becomes the connection's session and
///   the waiting event is forwarded into it; when a session is already
///   open the report is ignored.
/// - A close frame or the end of the connection finishes it, handing over
///   the session to complete.
/// - Malformed and other frames, and a failed session request, change
///   nothing (the waiting event is dropped).
/// - Once finished, the connection ignores everything.
pub open spec fn ingest_step(s: IngestState, input: IngestInput, t: IngestState, action: IngestAction) -> bool {
    if s.finished {
        t == s && action is Ignore
    } else {
        ingest_live_step(s, input, t, action)
    }
}

/// One step of an ingest connection that has not finished.
pub open spec fn ingest_live_step(s: IngestState, input: IngestInput, t: IngestState, action: IngestAction) -> bool {
    match input {
        IngestInput::Event => match s.session {
            Some(id) => {
                &&& t.session == Some(id)
                &&& t.forwarded == count_after(s.forwarded)
                &&& t.finished == s.finished
                &&& action == IngestAction::Forward(id)
            },
            None => {
                &&& t == s
                &&& action matches IngestAction::CreateSession(m) && is_ingest_metadata(m)
            },
        },
        IngestInput::SessionCreated(id) => match s.session {
            None => {
                &&& t.session == Some(id)
                &&& t.forwarded == count_after(s.forwarded)
                &&& t.finished == s.finished
                &&& action == IngestAction::Forward(id)
            },
            Some(_) => t == s && action is Ignore,
        },
        IngestInput::Close | IngestInput::End => {
            &&& t == IngestState { finished: true, ..s }
            &&& action == IngestAction::Finish(s.session)
        },
        _ => t == s && action is Ignore,
    }
}

impl IngestState {
    /// A fresh connection: no session, nothing forwarded, not finished.
    pub fn new() -> (s: IngestState)
        ensures
            s.session is None,
            s.forwarded == 0,
            !s.finished,
    {
        IngestState { session: None, forwarded: 0, finished: false }
    }

    /// Decides what to do on `input` and moves to the next state.
    pub fn step(&mut self, input: IngestInput) -> (action: IngestAction)
        ensures
            ingest_step(*old(self), input, *final(self), action),
    {
        if self.finished {
            return IngestAction::Ignore;
        }
        match input {
            IngestInput::Event => match self.session {
                Some(id) => {
                    self.forwarded = if self.forwarded == u64::MAX {
                        0
                    } else {
                        self.forwarded + 1
                    };
                    IngestAction::Forward(id)
                },
                None => IngestAction::CreateSession(
                    SessionMetadata {
                        substrate_path: None,
                        description: Some(String::from_str("WebSocket ingest session")),
                    },
                ),
            },
            IngestInput::SessionCreated(id) => match self.session {
                None => {
                    self.session = Some(id);
                    self.forwarded = if self.forwarded == u64::MAX {
                        0
                    } else {
                        self.forwarded + 1
                    };
                    IngestAction::Forward(id)
                },
                Some(_) => IngestAction::Ignore,
            },
            IngestInput::Close | IngestInput::End => {
                self.finished = true;
                IngestAction::Finish(self.session)
            },
            _ => IngestAction::Ignore,
        }
    }
}

/// A run of an ingest connection: `states[k]` steps on `inputs[k]` to
/// `states[k + 1]` with `actions[k]`.
pub open spec fn ingest_run(states: Seq<IngestState>, inputs: Seq<IngestInput>, actions: Seq<IngestAction>) -> bool {
    &&& states.len() == inputs.len() + 1
    &&& actions.len() == inputs.len()
    &&& forall|k: int|
        0 <= k < inputs.len() ==> #[trigger] ingest_step(states[k], inputs[k], states[k + 1], actions[k])
}

/// Once an ingest connection has a session, it keeps that session for
/// the rest of the run.
pub proof fn lemma_ingest_session_kept(
    states: Seq<IngestState>,
    inputs: Seq<IngestInput>,
    actions: Seq<IngestAction>,
    i: int,
    j: int,
)
    requires
        ingest_run(states, inputs, actions),
        0 <= i <= j < states.len(),
        states[i].session is Some,
    ensures
        states[j].session == states[i].session,
    decreases j - i,
{
    if j > i {
        lemma_ingest_session_kept(states, inputs, actions, i, j - 1);
        let k = j - 1;
        assert(ingest_step(states[k], inputs[k], states[k + 1], actions[k]));
    }
}

/// All events of one ingest connection are recorded into one session, and
/// the connection finishes by completing that session: in any run, every
/// `Forward` names the same session, and a `Finish` after a `Forward`
/// hands over that session.
pub proof fn lemma_ingest_one_session(
    states: Seq<IngestState>,
    inputs: Seq<IngestInput>,
    actions: Seq<IngestAction>,
    i: int,
    j: int,
)
    requires
        ingest_run(states, inputs, actions),
        0 <= i < j < actions.len(),
        actions[i] is Forward,
    ensures
        actions[j] matches IngestAction::Forward(b) ==> b == actions[i]->Forward_0,
        actions[j] matches IngestAction::Finish(x) ==> x == Some(actions[i]->Forward_0),
{
    assert(ingest_step(states[i], inputs[i], states[i + 1], actions[i]));
    assert(states[i + 1].session == Some(actions[i]->Forward_0));
    lemma_ingest_session_kept(states, inputs, actions, i + 1, j);
    lemma_ingest_session_kept(states, inputs, actions, i + 1, j + 1);
    assert(ingest_step(states[j], inputs[j], states[j + 1], actions[j]));
}

/// A session is asked for only while the connection has none, and only on
/// an event: malformed frames never open a session.
pub proof fn lemma_ingest_creates_only_for_events(s: IngestState, input: IngestInput, t: IngestState, action: IngestAction)
    requires
        ingest_step(s, input, t, action),
        action is CreateSession,
    ensures
        s.session is None,
        input is Event,
        t == s,
{
}

/// The handler reports on a session request right after it, and reports
/// only then: a `SessionCreated` or `SessionFailed` input follows a
/// `CreateSession` action, and every `CreateSession` that is not the last
/// action is followed by one of them.
pub open spec fn ingest_reports_follow_requests(inputs: Seq<IngestInput>, actions: Seq<IngestAction>) -> bool {
    &&& forall|k: int|
        0 <= k < inputs.len() && (#[trigger] inputs[k] is SessionCreated || inputs[k] is SessionFailed)
            ==> k > 0 && actions[k - 1] is CreateSession
    &&& forall|k: int|
        0 <= k && k + 1 < inputs.len() && #[trigger] actions[k] is CreateSession ==> (
        inputs[k + 1] is SessionCreated || inputs[k + 1] is SessionFailed)
}

/// Where a connection's session came from: once a run that started
/// without a session has one, it was asked for by a `CreateSession` action
/// and reported by the store right after.
pub proof fn lemma_ingest_session_origin(
    states: Seq<IngestState>,
    inputs: Seq<IngestInput>,
    actions: Seq<IngestAction>,
    k: int,
)
    requires
        ingest_run(states, inputs, actions),
        ingest_reports_follow_requests(inputs, actions),
        states[0].session is None,
        0 <= k < states.len(),
        states[k].session is Some,
    ensures
        exists|i: int|
            0 <= i && i + 1 < k && #[trigger] actions[i] is CreateSession && inputs[i + 1]
                == IngestInput::SessionCreated(states[k].session->0),
    decreases k,
{
    let j = k - 1;
    assert(ingest_step(states[j], inputs[j], states[j + 1], actions[j]));
    if states[j].session is Some {
        lemma_ingest_session_origin(states, inputs, actions, j);
        let i = choose|i: int|
            0 <= i && i + 1 < j && #[trigger] actions[i] is CreateSession && inputs[i + 1]
                == IngestInput::SessionCreated(states[j].session->0);
        assert(actions[i] is CreateSession);
    } else {
        assert(inputs[j] is SessionCreated);
        let i = j - 1;
        assert(actions[i] is CreateSession);
        assert(inputs[i + 1] == IngestInput::SessionCreated(states[k].session->0));
    }
}

/// Without a parseable frame nothing is recorded: a run that started
/// without a session and whose inputs hold no event never asks for a
/// session, never forwards, and finishes with no session to complete.
pub proof fn lemma_ingest_nothing_without_events(
    states: Seq<IngestState>,
    inputs: Seq<IngestInput>,
    actions: Seq<IngestAction>,
)
    requires
        ingest_run(states, inputs, actions),
        ingest_reports_follow_requests(inputs, actions),
        states[0].session is None,
        forall|k: int| 0 <= k < inputs.len() ==> !(#[trigger] inputs[k] is Event),
    ensures
        forall|k: int|
            0 <= k < actions.len() ==> {
                &&& !(#[trigger] actions[k] is CreateSession)
                &&& !(actions[k] is Forward)
                &&& actions[k] matches IngestAction::Finish(x) ==> x is None
            },
{
    assert forall|k: int| 0 <= k < actions.len() implies {
        &&& !(#[trigger] actions[k] is CreateSession)
        &&& !(actions[k] is Forward)
        &&& actions[k] matches IngestAction::Finish(x) ==> x is None
    } by {
        assert(ingest_step(states[k], inputs[k], states[k + 1], actions[k]));
        assert(!(inputs[k] is Event));
        if states[k].session is Some {
            lemma_ingest_session_origin(states, inputs, actions, k);
            let i = choose|i: int|
                0 <= i && i + 1 < k && #[trigger] actions[i] is CreateSession && inputs[i + 1]
                    == IngestInput::SessionCreated(states[k].session->0);
            assert(ingest_step(states[i], inputs[i], states[i + 1], actions[i]));
            assert(!(inputs[i] is Event));
        }
        if inputs[k] is SessionCreated {
            let i = k - 1;
            assert(actions[i] is CreateSession);
            assert(ingest_step(states[i], inputs[i], states[i + 1], actions[i]));
            assert(!(inputs[i] is Event));
        }
    }
}

/// A session is asked for exactly once when the store grants the first
/// request: in a run that started without a session and in which no
/// request failed, two `CreateSession` actions are the same one; every
/// forward stores into the session the store handed back, after it was
/// asked for.
pub proof fn lemma_ingest_session_created_once(
    states: Seq<IngestState>,
    inputs: Seq<IngestInput>,
    actions: Seq<IngestAction>,
)
    requires
        ingest_run(states, inputs, actions),
        ingest_reports_follow_requests(inputs, actions),
        states[0].session is None,
        forall|k: int| 0 <= k < inputs.len() ==> !(#[trigger] inputs[k] is SessionFailed),
    ensures
        forall|i: int, j: int|
            0 <= i < actions.len() && 0 <= j < actions.len() && #[trigger] actions[i] is CreateSession
                && #[trigger] actions[j] is CreateSession ==> i == j,
        forall|j: int|
            0 <= j < actions.len() && (#[trigger] actions[j] is Forward) ==> exists|i: int|
                0 <= i && i + 1 <= j && #[trigger] actions[i] is CreateSession && inputs[i + 1]
                    == IngestInput::SessionCreated(actions[j]->Forward_0),
{
    assert forall|i: int, j: int|
        0 <= i < actions.len() && 0 <= j < actions.len() && #[trigger] actions[i] is CreateSession
            && #[trigger] actions[j] is CreateSession implies i == j by {
        if i != j {
            let (a, b) = if i < j {
                (i, j)
            } else {
                (j, i)
            };
            assert(actions[a] is CreateSession && actions[b] is CreateSession);
            assert(ingest_step(states[a], inputs[a], states[a + 1], actions[a]));
            assert(inputs[a + 1] is SessionCreated || inputs[a + 1] is SessionFailed);
            assert(!(inputs[a + 1] is SessionFailed));
            assert(ingest_step(states[a + 1], inputs[a + 1], states[a + 2], actions[a + 1]));
            if b == a + 1 {
                assert(actions[b] is Forward);
            } else {
                lemma_ingest_session_kept(states, inputs, actions, a + 2, b);
                assert(ingest_step(states[b], inputs[b], states[b + 1], actions[b]));
            }
        }
    }
    assert forall|j: int| 0 <= j < actions.len() && (#[trigger] actions[j] is Forward) implies exists|i: int|
        0 <= i && i + 1 <= j && #[trigger] actions[i] is CreateSession && inputs[i + 1]
            == IngestInput::SessionCreated(actions[j]->Forward_0) by {
        assert(ingest_step(states[j], inputs[j], states[j + 1], actions[j]));
        assert(states[j + 1].session == Some(actions[j]->Forward_0));
        lemma_ingest_session_origin(states, inputs, actions, j + 1);
    }
}

/// Once an ingest connection has finished, it stays finished.
pub proof fn lemma_ingest_finished_kept(
    states: Seq<IngestState>,
    inputs: Seq<IngestInput>,
    actions: Seq<IngestAction>,
    i: int,
    j: int,
)
    requires
        ingest_run(states, inputs, actions),
        0 <= i <= j < states.len(),
        states[i].finished,
    ensures
        states[j].finished,
    decreases j - i,
{
    if j > i {
        lemma_ingest_finished_kept(states, inputs, actions, i, j - 1);
        let k = j - 1;
        assert(ingest_step(states[k], inputs[k], states[k + 1], actions[k]));
    }
}

/// A finished connection finished at some earlier step.
pub proof fn lemma_ingest_finished_origin(
    states: Seq<IngestState>,
    inputs: Seq<IngestInput>,
    actions: Seq<IngestAction>,
    k: int,
)
    requires
        ingest_run(states, inputs, actions),
        !states[0].finished,
        0 <= k < states.len(),
        states[k].finished,
    ensures
        exists|i: int| 0 <= i < k && #[trigger] actions[i] is Finish,
    decreases k,
{
    let j = k - 1;
    assert(ingest_step(states[j], inputs[j], states[j + 1], actions[j]));
    if states[j].finished {
        lemma_ingest_finished_origin(states, inputs, actions, j);
        let i = choose|i: int| 0 <= i < j && #[trigger] actions[i] is Finish;
        assert(actions[i] is Finish);
    } else {
        assert(actions[j] is Finish);
    }
}

/// An ingest connection finishes exactly once: the first close frame or
/// end of the connection finishes it, no second `Finish` follows, and after
/// it nothing is asked for, forwarded or finished again; so the session is
/// completed once, after the last event stored into it.
pub proof fn lemma_ingest_finishes_once(
    states: Seq<IngestState>,
    inputs: Seq<IngestInput>,
    actions: Seq<IngestAction>,
)
    requires
        ingest_run(states, inputs, actions),
        !states[0].finished,
    ensures
        forall|i: int, j: int|
            0 <= i < j < actions.len() && #[trigger] actions[i] is Finish ==> #[trigger] actions[j] is Ignore,
        forall|k: int|
            0 <= k < inputs.len() && (#[trigger] inputs[k] is Close || inputs[k] is End) ==> exists|i: int|
                0 <= i <= k && #[trigger] actions[i] is Finish,
{
    assert forall|i: int, j: int|
        0 <= i < j < actions.len() && #[trigger] actions[i] is Finish implies #[trigger] actions[j] is Ignore by {
        assert(ingest_step(states[i], inputs[i], states[i + 1], actions[i]));
        assert(!states[i].finished);
        assert(states[i + 1].finished);
        lemma_ingest_finished_kept(states, inputs, actions, i + 1, j);
        assert(ingest_step(states[j], inputs[j], states[j + 1], actions[j]));
    }
    assert forall|k: int| 0 <= k < inputs.len() && (#[trigger] inputs[k] is Close || inputs[k] is End) implies exists|i: int|
        0 <= i <= k && #[trigger] actions[i] is Finish by {
        assert(ingest_step(states[k], inputs[k], states[k + 1], actions[k]));
        if states[k].finished {
            lemma_ingest_finished_origin(states, inputs, actions, k);
            let i = choose|i: int| 0 <= i < k && #[trigger] actions[i] is Finish;
            assert(actions[i] is Finish);
        } else {
            assert(actions[k] is Finish);
        }
    }
}

/// Pings a subscriber may leave unanswered; at the next due ping the
/// connection is dropped as stale.
pub const MAX_MISSED_PONGS: u64 = 3;

/// What a subscriber connection saw.
pub enum RelayEvent {
    /// A message arrived on the broadcast channel.
    Broadcast(String),
    /// The subscriber fell behind and this many messages were skipped.
    Lagged(u64),
    /// The broadcast channel closed.
    ChannelClosed,
    /// The keep-alive interval elapsed.
    PingDue,
    /// The browser answered a ping.
    Pong,
    /// The browser closed the connection, or it ended.
    ClientClosed,
    /// The browser sent some other frame.
    ClientFrame,
    /// Sending to the browser failed.
    SendFailed,
}

/// What a subscriber connection does next.
pub enum RelayAction {
    /// Send this text frame to the browser.
    SendText(String),
    /// Note that this many messages were skipped, and go on.
    ReportLag(u64),
    /// Send a ping frame.
    SendPing,
    /// Go on waiting.
    Continue,
    /// Close the subscription.
    Stop,
}

/// The state of one subscriber connection.
pub struct RelayState {
    /// Pings sent since the browser last answered one.
    pub unanswered_pings: u64,
}

impl RelayState {
    /// A fresh subscription: no ping outstanding.
    pub fn new() -> (s: RelayState)
        ensures
            s.unanswered_pings == 0,
    {
        RelayState { unanswered_pings: 0 }
    }
}

/// The next state and decision of a subscriber connection on an event.
pub open spec fn relay_decision(s: RelayState, event: RelayEvent) -> (RelayState, RelayAction) {
    match event {
        RelayEvent::Broadcast(msg) => (s, RelayAction::SendText(msg)),
        RelayEvent::Lagged(n) => (s, RelayAction::ReportLag(n)),
        RelayEvent::ChannelClosed => (s, RelayAction::Stop),
        RelayEvent::PingDue => if s.unanswered_pings >= MAX_MISSED_PONGS {
            (s, RelayAction::Stop)
        } else {
            (RelayState { unanswered_pings: (s.unanswered_pings + 1) as u64 }, RelayAction::SendPing)
        },
        RelayEvent::Pong => (RelayState { unanswered_pings: 0 }, RelayAction::Continue),
        RelayEvent::ClientClosed => (s, RelayAction::Stop),
        RelayEvent::ClientFrame => (s, RelayAction::Continue),
        RelayEvent::SendFailed => (s, RelayAction::Stop),
    }
}

/// Decides what a subscriber connection (browser events or substrate
/// changes) does on an event: broadcasts are relayed unchanged, a lag is
/// reported and tolerated, a due ping is sent unless three pings are
/// already unanswered, a pong clears the unanswered pings, and the
/// subscription stops exactly when the channel closes, the browser leaves,
/// a send fails, or a ping falls due with three unanswered.
pub fn relay_step(state: &mut RelayState, event: RelayEvent) -> (action: RelayAction)
    ensures
        (*final(state), action) == relay_decision(*old(state), event),
        action is Stop <==> (event is ChannelClosed || event is ClientClosed || event is SendFailed || (
        event is PingDue && old(state).unanswered_pings >= MAX_MISSED_PONGS)),
{
    match event {
        RelayEvent::Broadcast(msg) => RelayAction::SendText(msg),
        RelayEvent::Lagged(n) => RelayAction::ReportLag(n),
        RelayEvent::ChannelClosed => RelayAction::Stop,
        RelayEvent::PingDue => {
            if state.unanswered_pings >= MAX_MISSED_PONGS {
                RelayAction::Stop
            } else {
                state.unanswered_pings = state.unanswered_pings + 1;
                RelayAction::SendPing
            }
        },
        RelayEvent::Pong => {
            state.unanswered_pings = 0;
            RelayAction::Continue
        },
        RelayEvent::ClientClosed => RelayAction::Stop,
        RelayEvent::ClientFrame => RelayAction::Continue,
        RelayEvent::SendFailed => RelayAction::Stop,
    }
}

/// A run of a subscriber connection: `states[k]` decides `actions[k]` on
/// `events[k]` and moves to `states[k + 1]`.
pub open spec fn relay_run(states: Seq<RelayState>, events: Seq<RelayEvent>, actions: Seq<RelayAction>) -> bool {
    &&& states.len() == events.len() + 1
    &&& actions.len() == events.len()
    &&& forall|k: int|
        0 <= k < events.len() ==> #[trigger] relay_decision(states[k], events[k]) == (
        states[k + 1],
        actions[k],
    )
}

/// How many pings fell due among `events`.
pub open spec fn pings_due(events: Seq<RelayEvent>) -> nat
    decreases events.len(),
{
    if events.len() == 0 {
        0
    } else {
        pings_due(events.drop_last()) + if events.last() is PingDue {
            1nat
        } else {
            0nat
        }
    }
}

/// While the browser sends no pong, the count of unanswered pings is the
/// number of pings that fell due, up to three.
pub proof fn lemma_relay_unanswered_count(
    states: Seq<RelayState>,
    events: Seq<RelayEvent>,
    actions: Seq<RelayAction>,
    k: int,
)
    requires
        relay_run(states, events, actions),
        states[0].unanswered_pings == 0,
        forall|i: int| 0 <= i < events.len() ==> !(#[trigger] events[i] is Pong),
        0 <= k <= events.len(),
    ensures
        states[k].unanswered_pings == if pings_due(events.take(k)) <= MAX_MISSED_PONGS {
            pings_due(events.take(k))
        } else {
            MAX_MISSED_PONGS as nat
        },
    decreases k,
{
    if k > 0 {
        let j = k - 1;
        lemma_relay_unanswered_count(states, events, actions, j);
        assert(relay_decision(states[j], events[j]) == (states[j + 1], actions[j]));
        assert(events.take(k).drop_last() =~= events.take(j));
        assert(events.take(k).last() == events[j]);
        assert(!(events[j] is Pong));
    } else {
        assert(events.take(0) =~= Seq::<RelayEvent>::empty());
    }
}

/// Stale-connection cleanup: a browser that answers none of the pings is
/// dropped at the ping that falls due after three unanswered ones.
pub proof fn lemma_relay_drops_silent_client(
    states: Seq<RelayState>,
    events: Seq<RelayEvent>,
    actions: Seq<RelayAction>,
    k: int,
)
    requires
        relay_run(states, events, actions),
        states[0].unanswered_pings == 0,
        forall|i: int| 0 <= i < events.len() ==> !(#[trigger] events[i] is Pong),
        0 <= k < events.len(),
        events[k] is PingDue,
        pings_due(events.take(k)) >= MAX_MISSED_PONGS,
    ensures
        actions[k] is Stop,
{
    lemma_relay_unanswered_count(states, events, actions, k);
    assert(relay_decision(states[k], events[k]) == (states[k + 1], actions[k]));
}

/// Every event on a live connection with a session is stored and
/// broadcast into that session, however many came before: the action is
/// `Forward` of that session, the session stays, the connection stays
/// live, and the count of forwarded events goes up by one (wrapping).
pub proof fn lemma_ingest_forwards_every_event(s: IngestState, t: IngestState, action: IngestAction)
    requires
        ingest_step(s, IngestInput::Event, t, action),
        !s.finished,
        s.session is Some,
    ensures
        action == IngestAction::Forward(s.session->0),
        t.session == s.session,
        !t.finished,
        t.forwarded == if s.forwarded == u64::MAX {
            0
        } else {
            s.forwarded + 1
        },
{
}

/// The store's answer to a session request is forwarded into: on a live
/// connection without a session, a created session becomes the
/// connection's session and the waiting event is forwarded into it.
pub proof fn lemma_ingest_forwards_into_created_session(
    s: IngestState,
    id: SessionId,
    t: IngestState,
    action: IngestAction,
)
    requires
        ingest_step(s, IngestInput::SessionCreated(id), t, action),
        !s.finished,
        s.session is None,
    ensures
        action == IngestAction::Forward(id),
        t.session == Some(id),
        !t.finished,
        t.forwarded == if s.forwarded == u64::MAX {
            0
        } else {
            s.forwarded + 1
        },
{
}

/// Every broadcast is relayed to the browser unchanged, whatever its
/// length or content, and leaves the ping count alone.
pub proof fn lemma_relay_sends_every_broadcast(s: RelayState, msg: String)
    ensures
        relay_decision(s, RelayEvent::Broadcast(msg)).1 == RelayAction::SendText(msg),
        relay_decision(s, RelayEvent::Broadcast(msg)).0 == s,
{
}

/// Keep-alive: with fewer than three pings unanswered a due ping is sent
/// and counted; a pong always clears the count and keeps the connection.
pub proof fn lemma_relay_pings_and_pongs(s: RelayState)
    ensures
        s.unanswered_pings < 3 ==> relay_decision(s, RelayEvent::PingDue).1 == RelayAction::SendPing
            && relay_decision(s, RelayEvent::PingDue).0.unanswered_pings == s.unanswered_pings + 1,
        s.unanswered_pings >= 3 ==> relay_decision(s, RelayEvent::PingDue).1 == RelayAction::Stop,
        relay_decision(s, RelayEvent::Pong).1 == RelayAction::Continue,
        relay_decision(s, RelayEvent::Pong).0.unanswered_pings == 0,
{
}

} // verus!
