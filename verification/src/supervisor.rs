//! The per-connection supervisor: a state machine from events to actions.
//!
//! One connection moves through `Connecting`, `AwaitingInitialFetch`,
//! `Streaming` and `Closed`. Everything the connection can observe — the
//! upgrade itself, the settling of the background initial fetch, a timer
//! tick with the outcome of one bounded fetch, an inbound frame, a socket
//! failure — is an [`Event`]; everything the connection does in response —
//! sending a frame, replying to a ping, starting the background fetch,
//! logging — is an [`Action`]. The host that owns the socket performs the
//! actions; every decision stands here, and `spec_step` pins each one.

use vstd::prelude::*;
use crate::candle::CandleView;
use crate::candle::PriceUpdate;
use crate::codec::encode_update;
use crate::codec::spec_encode_update;
use crate::gateway::FetchError;
use crate::gateway::FetchErrorView;
use crate::gateway::FetchOutcome;
use crate::gateway::FetchOutcomeView;
use crate::gateway::fetch;
use crate::gateway::spec_fetch;

verus! {

/// The lifecycle of one connection.
#[derive(Clone, Copy, Debug, PartialEq, Eq, Structural)]
pub enum SupState {
    /// The upgrade was accepted; nothing has been sent yet.
    Connecting,
    /// The acknowledgment is out and the initial fetch runs in the
    /// background.
    AwaitingInitialFetch,
    /// The steady event loop: periodic fetches race inbound frames.
    Streaming,
    /// Terminal: nothing further is sent.
    Closed,
}

/// An inbound transport frame, reduced to what the supervisor reacts to.
#[derive(Clone, Copy, Debug, PartialEq, Eq, Structural)]
pub enum InboundFrame {
    /// The client closed the connection.
    Close,
    /// A transport keepalive probe.
    Ping,
    /// Any other frame: this channel is server-push only, so it is ignored.
    Other,
}

/// What one connection can observe.
pub enum Event {
    /// The upgrade completed and the socket is open.
    Opened,
    /// The background initial fetch settled with this observed outcome.
    InitialFetchSettled(FetchOutcome),
    /// The background initial fetch task itself failed.
    InitialFetchTaskFailed,
    /// The outer deadline for the initial fetch elapsed first.
    InitialFetchDeadline,
    /// The periodic timer fired and one bounded fetch ended with this
    /// observed outcome.
    TimerTick(FetchOutcome),
    /// An inbound frame arrived.
    Frame(InboundFrame),
    /// The socket reported an error.
    SocketError,
    /// The inbound stream ended without a close frame.
    StreamEnded,
    /// A checked send did not reach the client.
    SendFailed,
}

#[verifier::ext_equal]
pub ghost enum EventView {
    Opened,
    InitialFetchSettled(FetchOutcomeView),
    InitialFetchTaskFailed,
    InitialFetchDeadline,
    TimerTick(FetchOutcomeView),
    Frame(InboundFrame),
    SocketError,
    StreamEnded,
    SendFailed,
}

impl View for Event {
    type V = EventView;

    open spec fn view(&self) -> EventView {
        match self {
            Event::Opened => EventView::Opened,
            Event::InitialFetchSettled(o) => EventView::InitialFetchSettled(o@),
            Event::InitialFetchTaskFailed => EventView::InitialFetchTaskFailed,
            Event::InitialFetchDeadline => EventView::InitialFetchDeadline,
            Event::TimerTick(o) => EventView::TimerTick(o@),
            Event::Frame(f) => EventView::Frame(*f),
            Event::SocketError => EventView::SocketError,
            Event::StreamEnded => EventView::StreamEnded,
            Event::SendFailed => EventView::SendFailed,
        }
    }
}

/// What the supervisor asks its host to write to the local log.
#[derive(Debug, PartialEq, Eq)]
pub enum LogNote {
    /// The initial fetch failed; the connection goes on regardless.
    InitialFetchFailed(FetchError),
    /// The initial fetch succeeded but brought no candles.
    InitialFetchEmpty,
    /// The background task running the initial fetch failed.
    InitialFetchTaskFailed,
    /// The outer deadline for the initial fetch elapsed.
    InitialFetchTimedOut,
    /// A periodic fetch failed; the loop keeps waiting for the next tick.
    PeriodicFetchFailed(FetchError),
    /// A periodic fetch brought no candles; nothing is sent.
    PeriodicFetchEmpty,
    /// The client closed the connection.
    ClientClosed,
    /// The socket reported an error.
    SocketFailed,
    /// The inbound stream ended.
    StreamEnded,
}

#[verifier::ext_equal]
pub ghost enum LogNoteView {
    InitialFetchFailed(FetchErrorView),
    InitialFetchEmpty,
    InitialFetchTaskFailed,
    InitialFetchTimedOut,
    PeriodicFetchFailed(FetchErrorView),
    PeriodicFetchEmpty,
    ClientClosed,
    SocketFailed,
    StreamEnded,
}

impl View for LogNote {
    type V = LogNoteView;

    open spec fn view(&self) -> LogNoteView {
        match self {
            LogNote::InitialFetchFailed(e) => LogNoteView::InitialFetchFailed(e@),
            LogNote::InitialFetchEmpty => LogNoteView::InitialFetchEmpty,
            LogNote::InitialFetchTaskFailed => LogNoteView::InitialFetchTaskFailed,
            LogNote::InitialFetchTimedOut => LogNoteView::InitialFetchTimedOut,
            LogNote::PeriodicFetchFailed(e) => LogNoteView::PeriodicFetchFailed(e@),
            LogNote::PeriodicFetchEmpty => LogNoteView::PeriodicFetchEmpty,
            LogNote::ClientClosed => LogNoteView::ClientClosed,
            LogNote::SocketFailed => LogNoteView::SocketFailed,
            LogNote::StreamEnded => LogNoteView::StreamEnded,
        }
    }
}

/// What the supervisor asks its host to do.
#[derive(Debug, PartialEq, Eq)]
pub enum Action {
    /// Send these bytes as one text frame; a failure is ignored.
    Send(Vec<u8>),
    /// Send these bytes as one text frame; on failure the host must feed
    /// back `Event::SendFailed`.
    SendChecked(Vec<u8>),
    /// Reply to a ping with one pong.
    SendPong,
    /// Launch the background initial fetch.
    StartInitialFetch,
    /// Write this note to the local log.
    Log(LogNote),
}

#[verifier::ext_equal]
pub ghost enum ActionView {
    Send(Seq<u8>),
    SendChecked(Seq<u8>),
    SendPong,
    StartInitialFetch,
    Log(LogNoteView),
}

impl View for Action {
    type V = ActionView;

    open spec fn view(&self) -> ActionView {
        match self {
            Action::Send(m) => ActionView::Send(m@),
            Action::SendChecked(m) => ActionView::SendChecked(m@),
            Action::SendPong => ActionView::SendPong,
            Action::StartInitialFetch => ActionView::StartInitialFetch,
            Action::Log(n) => ActionView::Log(n@),
        }
    }
}

impl DeepView for Action {
    type V = ActionView;

    open spec fn deep_view(&self) -> ActionView {
        self.view()
    }
}

/// The result of one step: the next state and the actions to perform, in
/// order.
pub struct Step {
    pub next: SupState,
    pub actions: Vec<Action>,
}

#[verifier::ext_equal]
pub ghost struct StepView {
    pub next: SupState,
    pub actions: Seq<ActionView>,
}

impl View for Step {
    type V = StepView;

    open spec fn view(&self) -> StepView {
        StepView { next: self.next, actions: self.actions.deep_view() }
    }
}

/// How a frame is handled while the connection is live: a close frame ends
/// the connection, a ping draws exactly one pong, anything else is ignored.
pub open spec fn spec_frame_step(st: SupState, f: InboundFrame) -> StepView {
    match f {
        InboundFrame::Close => StepView {
            next: SupState::Closed,
            actions: seq![ActionView::Log(LogNoteView::ClientClosed)],
        },
        InboundFrame::Ping => StepView { next: st, actions: seq![ActionView::SendPong] },
        InboundFrame::Other => StepView { next: st, actions: Seq::empty() },
    }
}

/// The whole transition function of one connection.
///
/// On `Opened` the acknowledgment — an empty update — is sent before the
/// initial fetch is even started, so its delivery cannot depend on fetch
/// latency. A settled initial fetch leads to `Streaming` whatever its
/// outcome: only its success with data is forwarded, every failure is only
/// logged. A timer tick forwards fresh non-empty data with a checked send
/// and logs everything else. `Closed` absorbs every event with no action.
pub open spec fn spec_step(state: SupState, ev: EventView) -> StepView {
    match (state, ev) {
        (SupState::Connecting, EventView::Opened) => StepView {
            next: SupState::AwaitingInitialFetch,
            actions: seq![
                ActionView::Send(spec_encode_update(Seq::empty())),
                ActionView::StartInitialFetch,
            ],
        },
        (SupState::AwaitingInitialFetch, EventView::InitialFetchSettled(o)) => match spec_fetch(o) {
            Ok(cs) => if cs.len() > 0 {
                StepView {
                    next: SupState::Streaming,
                    actions: seq![ActionView::Send(spec_encode_update(cs))],
                }
            } else {
                StepView {
                    next: SupState::Streaming,
                    actions: seq![ActionView::Log(LogNoteView::InitialFetchEmpty)],
                }
            },
            Err(e) => StepView {
                next: SupState::Streaming,
                actions: seq![ActionView::Log(LogNoteView::InitialFetchFailed(e))],
            },
        },
        (SupState::AwaitingInitialFetch, EventView::InitialFetchTaskFailed) => StepView {
            next: SupState::Streaming,
            actions: seq![ActionView::Log(LogNoteView::InitialFetchTaskFailed)],
        },
        (SupState::AwaitingInitialFetch, EventView::InitialFetchDeadline) => StepView {
            next: SupState::Streaming,
            actions: seq![ActionView::Log(LogNoteView::InitialFetchTimedOut)],
        },
        (SupState::Streaming, EventView::TimerTick(o)) => match spec_fetch(o) {
            Ok(cs) => if cs.len() > 0 {
                StepView {
                    next: SupState::Streaming,
                    actions: seq![ActionView::SendChecked(spec_encode_update(cs))],
                }
            } else {
                StepView {
                    next: SupState::Streaming,
                    actions: seq![ActionView::Log(LogNoteView::PeriodicFetchEmpty)],
                }
            },
            Err(e) => StepView {
                next: SupState::Streaming,
                actions: seq![ActionView::Log(LogNoteView::PeriodicFetchFailed(e))],
            },
        },
        (SupState::AwaitingInitialFetch, EventView::Frame(f)) => spec_frame_step(
            SupState::AwaitingInitialFetch,
            f,
        ),
        (SupState::Streaming, EventView::Frame(f)) => spec_frame_step(SupState::Streaming, f),
        (SupState::AwaitingInitialFetch, EventView::SocketError) => StepView {
            next: SupState::Closed,
            actions: seq![ActionView::Log(LogNoteView::SocketFailed)],
        },
        (SupState::Streaming, EventView::SocketError) => StepView {
            next: SupState::Closed,
            actions: seq![ActionView::Log(LogNoteView::SocketFailed)],
        },
        (SupState::AwaitingInitialFetch, EventView::StreamEnded) => StepView {
            next: SupState::Closed,
            actions: seq![ActionView::Log(LogNoteView::StreamEnded)],
        },
        (SupState::Streaming, EventView::StreamEnded) => StepView {
            next: SupState::Closed,
            actions: seq![ActionView::Log(LogNoteView::StreamEnded)],
        },
        (SupState::AwaitingInitialFetch, EventView::SendFailed) => StepView {
            next: SupState::Closed,
            actions: Seq::empty(),
        },
        (SupState::Streaming, EventView::SendFailed) => StepView {
            next: SupState::Closed,
            actions: Seq::empty(),
        },
        _ => StepView { next: state, actions: Seq::empty() },
    }
}

/// Perform one step of the supervisor: from the current state and one
/// observed event to the next state and the actions the host must perform,
/// exactly as `spec_step` says.
pub fn step(state: SupState, event: Event) -> (r: Step)
    ensures
        r@ == spec_step(state, event@),
{
    match event {
        Event::Opened => {
            if let SupState::Connecting = state {
                let empty = PriceUpdate { candles: Vec::new() };
                proof {
                    assert(empty@ =~= Seq::<CandleView>::empty());
                }
                let ack = encode_update(&empty);
                let mut actions: Vec<Action> = Vec::new();
                actions.push(Action::Send(ack));
                actions.push(Action::StartInitialFetch);
                let r = Step { next: SupState::AwaitingInitialFetch, actions };
                proof {
                    assert(r@ =~= spec_step(state, event@));
                }
                r
            } else {
                no_op(state)
            }
        },
        Event::InitialFetchSettled(o) => {
            if let SupState::AwaitingInitialFetch = state {
                let ghost ov = o@;
                match fetch(o) {
                    Ok(cs) => {
                        if cs.len() > 0 {
                            let upd = PriceUpdate { candles: cs };
                            let bytes = encode_update(&upd);
                            let mut actions: Vec<Action> = Vec::new();
                            actions.push(Action::Send(bytes));
                            let r = Step { next: SupState::Streaming, actions };
                            proof {
                                assert(r@ =~= spec_step(state, EventView::InitialFetchSettled(ov)));
                            }
                            r
                        } else {
                            one_note(SupState::Streaming, LogNote::InitialFetchEmpty)
                        }
                    },
                    Err(e) => one_note(SupState::Streaming, LogNote::InitialFetchFailed(e)),
                }
            } else {
                no_op(state)
            }
        },
        Event::InitialFetchTaskFailed => {
            if let SupState::AwaitingInitialFetch = state {
                one_note(SupState::Streaming, LogNote::InitialFetchTaskFailed)
            } else {
                no_op(state)
            }
        },
        Event::InitialFetchDeadline => {
            if let SupState::AwaitingInitialFetch = state {
                one_note(SupState::Streaming, LogNote::InitialFetchTimedOut)
            } else {
                no_op(state)
            }
        },
        Event::TimerTick(o) => {
            if let SupState::Streaming = state {
                let ghost ov = o@;
                match fetch(o) {
                    Ok(cs) => {
                        if cs.len() > 0 {
                            let upd = PriceUpdate { candles: cs };
                            let bytes = encode_update(&upd);
                            let mut actions: Vec<Action> = Vec::new();
                            actions.push(Action::SendChecked(bytes));
                            let r = Step { next: SupState::Streaming, actions };
                            proof {
                                assert(r@ =~= spec_step(state, EventView::TimerTick(ov)));
                            }
                            r
                        } else {
                            one_note(SupState::Streaming, LogNote::PeriodicFetchEmpty)
                        }
                    },
                    Err(e) => one_note(SupState::Streaming, LogNote::PeriodicFetchFailed(e)),
                }
            } else {
                no_op(state)
            }
        },
        Event::Frame(f) => {
            match state {
                SupState::AwaitingInitialFetch | SupState::Streaming => {
                    match f {
                        InboundFrame::Close => one_note(SupState::Closed, LogNote::ClientClosed),
                        InboundFrame::Ping => {
                            let mut actions: Vec<Action> = Vec::new();
                            actions.push(Action::SendPong);
                            let r = Step { next: state, actions };
                            proof {
                                assert(r@ =~= spec_step(state, event@));
                            }
                            r
                        },
                        InboundFrame::Other => no_op(state),
                    }
                },
                _ => no_op(state),
            }
        },
        Event::SocketError => {
            match state {
                SupState::AwaitingInitialFetch | SupState::Streaming => one_note(
                    SupState::Closed,
                    LogNote::SocketFailed,
                ),
                _ => no_op(state),
            }
        },
        Event::StreamEnded => {
            match state {
                SupState::AwaitingInitialFetch | SupState::Streaming => one_note(
                    SupState::Closed,
                    LogNote::StreamEnded,
                ),
                _ => no_op(state),
            }
        },
        Event::SendFailed => {
            match state {
                SupState::AwaitingInitialFetch | SupState::Streaming => {
                    let r = Step { next: SupState::Closed, actions: Vec::new() };
                    proof {
                        assert(r@ =~= spec_step(state, event@));
                    }
                    r
                },
                _ => no_op(state),
            }
        },
    }
}

/// A step that changes nothing and does nothing.
fn no_op(state: SupState) -> (r: Step)
    ensures
        r@ == (StepView { next: state, actions: Seq::empty() }),
{
    let r = Step { next: state, actions: Vec::new() };
    proof {
        assert(r@ =~= StepView { next: state, actions: Seq::empty() });
    }
    r
}

/// A step whose only action is one log note.
fn one_note(next: SupState, note: LogNote) -> (r: Step)
    ensures
        r@ == (StepView { next, actions: seq![ActionView::Log(note@)] }),
{
    let ghost nv = note@;
    let mut actions: Vec<Action> = Vec::new();
    actions.push(Action::Log(note));
    let r = Step { next, actions };
    proof {
        assert(r@ =~= StepView { next, actions: seq![ActionView::Log(nv)] });
    }
    r
}

/// Law: the acknowledgment is sent immediately upon connecting, before the
/// initial fetch is started, so its delivery cannot depend on how long any
/// fetch takes.
pub proof fn lemma_ack_immediate()
    ensures
        spec_step(SupState::Connecting, EventView::Opened).next == SupState::AwaitingInitialFetch,
        spec_step(SupState::Connecting, EventView::Opened).actions == seq![
            ActionView::Send(spec_encode_update(Seq::empty())),
            ActionView::StartInitialFetch,
        ],
{
}

/// Law: an initial fetch that settles without data — an error, an empty
/// result, a failed task or an elapsed deadline — sends nothing to the
/// client and still moves the connection to `Streaming`. Together with
/// `lemma_ack_immediate`, a client whose fetches always time out receives
/// the acknowledgment and nothing else.
pub proof fn lemma_failed_initial_fetch_sends_nothing(ev: EventView)
    requires
        match ev {
            EventView::InitialFetchSettled(o) => !(spec_fetch(o) matches Ok(cs) && cs.len() > 0),
            EventView::InitialFetchTaskFailed => true,
            EventView::InitialFetchDeadline => true,
            _ => false,
        },
    ensures
        spec_step(SupState::AwaitingInitialFetch, ev).next == SupState::Streaming,
        forall|k: int|
            0 <= k < spec_step(SupState::AwaitingInitialFetch, ev).actions.len() ==> ((
            #[trigger] spec_step(SupState::AwaitingInitialFetch, ev).actions[k]) matches
                ActionView::Log(_)),
{
}

/// Law: a ping mid-stream draws exactly one pong and changes nothing else.
pub proof fn lemma_ping_one_pong()
    ensures
        spec_step(SupState::Streaming, EventView::Frame(InboundFrame::Ping)).next
            == SupState::Streaming,
        spec_step(SupState::Streaming, EventView::Frame(InboundFrame::Ping)).actions == seq![
            ActionView::SendPong,
        ],
{
}

/// Law: a close frame that arrives before the initial fetch settles closes
/// the connection, and the deferred fetch result, whatever it turns out to
/// be, is then discarded without any send: in `Closed` every event yields
/// no action at all.
pub proof fn lemma_close_discards_pending_fetch(ev: EventView)
    ensures
        spec_step(SupState::AwaitingInitialFetch, EventView::Frame(InboundFrame::Close)).next
            == SupState::Closed,
        forall|k: int|
            0 <= k < spec_step(
                SupState::AwaitingInitialFetch,
                EventView::Frame(InboundFrame::Close),
            ).actions.len() ==> ((#[trigger] spec_step(
                SupState::AwaitingInitialFetch,
                EventView::Frame(InboundFrame::Close),
            ).actions[k]) matches ActionView::Log(_)),
        spec_step(SupState::Closed, ev).next == SupState::Closed,
        spec_step(SupState::Closed, ev).actions.len() == 0,
{
}

/// Law: a periodic fetch that brings no data — an error or an empty result
/// — sends nothing and keeps the connection streaming; only fresh non-empty
/// data is pushed, and with a checked send.
pub proof fn lemma_quiet_tick_sends_nothing(o: FetchOutcomeView)
    requires
        !(spec_fetch(o) matches Ok(cs) && cs.len() > 0),
    ensures
        spec_step(SupState::Streaming, EventView::TimerTick(o)).next == SupState::Streaming,
        forall|k: int|
            0 <= k < spec_step(SupState::Streaming, EventView::TimerTick(o)).actions.len() ==> ((
            #[trigger] spec_step(SupState::Streaming, EventView::TimerTick(o)).actions[k]) matches
                ActionView::Log(_)),
{
}

} // verus!
