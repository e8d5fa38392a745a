use candle_stream::gateway::FetchError;
use candle_stream::gateway::FetchOutcome;
use candle_stream::supervisor::Action;
use candle_stream::supervisor::Event;
use candle_stream::supervisor::InboundFrame;
use candle_stream::supervisor::LogNote;
use candle_stream::supervisor::SupState;
use candle_stream::supervisor::step;

const ONE_CANDLE: &[u8] =
    b"[{\"timestamp\":1000,\"open\":1,\"high\":2,\"low\":0.5,\"close\":1.5,\"volume\":100}]";

fn good_outcome() -> FetchOutcome {
    FetchOutcome::Completed { exit_ok: true, stdout: ONE_CANDLE.to_vec(), stderr: Vec::new() }
}

#[test]
fn connect_sends_ack_then_starts_fetch() {
    let s = step(SupState::Connecting, Event::Opened);
    assert_eq!(s.next, SupState::AwaitingInitialFetch);
    assert_eq!(
        s.actions,
        vec![
            Action::Send(b"{\"candles\":[]}".to_vec()),
            Action::StartInitialFetch,
        ]
    );
}

#[test]
fn successful_initial_fetch_pushes_the_candles() {
    // the client connects, then the gateway returns one candle within budget:
    // two messages, in order: the empty ack, then the data
    let s0 = step(SupState::Connecting, Event::Opened);
    assert_eq!(s0.actions[0], Action::Send(b"{\"candles\":[]}".to_vec()));
    let s1 = step(s0.next, Event::InitialFetchSettled(good_outcome()));
    assert_eq!(s1.next, SupState::Streaming);
    assert_eq!(
        s1.actions,
        vec![Action::Send(
            b"{\"candles\":[{\"timestamp\":1000,\"open\":1,\"high\":2,\"low\":0.5,\"close\":1.5,\"volume\":100}]}"
                .to_vec()
        )]
    );
}

#[test]
fn timed_out_initial_fetch_sends_nothing_more() {
    // the gateway always times out: the client got the ack once and then no
    // further message; the connection still reaches Streaming
    let s0 = step(SupState::Connecting, Event::Opened);
    assert_eq!(s0.actions[0], Action::Send(b"{\"candles\":[]}".to_vec()));
    let s1 = step(s0.next, Event::InitialFetchSettled(FetchOutcome::TimedOut));
    assert_eq!(s1.next, SupState::Streaming);
    assert_eq!(s1.actions, vec![Action::Log(LogNote::InitialFetchFailed(FetchError::Timeout))]);
    let s2 = step(s1.next, Event::TimerTick(FetchOutcome::TimedOut));
    assert_eq!(s2.next, SupState::Streaming);
    assert_eq!(s2.actions, vec![Action::Log(LogNote::PeriodicFetchFailed(FetchError::Timeout))]);
}

#[test]
fn empty_initial_fetch_only_logs() {
    let outcome = FetchOutcome::Completed { exit_ok: true, stdout: b"[]".to_vec(), stderr: Vec::new() };
    let s = step(SupState::AwaitingInitialFetch, Event::InitialFetchSettled(outcome));
    assert_eq!(s.next, SupState::Streaming);
    assert_eq!(s.actions, vec![Action::Log(LogNote::InitialFetchEmpty)]);
}

#[test]
fn initial_fetch_task_failure_is_not_fatal() {
    let s = step(SupState::AwaitingInitialFetch, Event::InitialFetchTaskFailed);
    assert_eq!(s.next, SupState::Streaming);
    assert_eq!(s.actions, vec![Action::Log(LogNote::InitialFetchTaskFailed)]);
    let s = step(SupState::AwaitingInitialFetch, Event::InitialFetchDeadline);
    assert_eq!(s.next, SupState::Streaming);
    assert_eq!(s.actions, vec![Action::Log(LogNote::InitialFetchTimedOut)]);
}

#[test]
fn tick_with_fresh_data_uses_a_checked_send() {
    let s = step(SupState::Streaming, Event::TimerTick(good_outcome()));
    assert_eq!(s.next, SupState::Streaming);
    assert_eq!(
        s.actions,
        vec![Action::SendChecked(
            b"{\"candles\":[{\"timestamp\":1000,\"open\":1,\"high\":2,\"low\":0.5,\"close\":1.5,\"volume\":100}]}"
                .to_vec()
        )]
    );
}

#[test]
fn tick_with_empty_data_sends_nothing() {
    let outcome = FetchOutcome::Completed { exit_ok: true, stdout: b"[]".to_vec(), stderr: Vec::new() };
    let s = step(SupState::Streaming, Event::TimerTick(outcome));
    assert_eq!(s.next, SupState::Streaming);
    assert_eq!(s.actions, vec![Action::Log(LogNote::PeriodicFetchEmpty)]);
}

#[test]
fn tick_with_process_failure_logs_the_stderr_text() {
    let outcome = FetchOutcome::Completed {
        exit_ok: false,
        stdout: Vec::new(),
        stderr: b"script crashed".to_vec(),
    };
    let s = step(SupState::Streaming, Event::TimerTick(outcome));
    assert_eq!(s.next, SupState::Streaming);
    assert_eq!(
        s.actions,
        vec![Action::Log(LogNote::PeriodicFetchFailed(FetchError::ProcessFailure(
            "script crashed".to_string()
        )))]
    );
}

#[test]
fn ping_mid_stream_yields_exactly_one_pong() {
    let s = step(SupState::Streaming, Event::Frame(InboundFrame::Ping));
    assert_eq!(s.next, SupState::Streaming);
    assert_eq!(s.actions, vec![Action::SendPong]);
}

#[test]
fn other_frames_are_ignored() {
    let s = step(SupState::Streaming, Event::Frame(InboundFrame::Other));
    assert_eq!(s.next, SupState::Streaming);
    assert!(s.actions.is_empty());
}

#[test]
fn close_frame_ends_the_connection() {
    let s = step(SupState::Streaming, Event::Frame(InboundFrame::Close));
    assert_eq!(s.next, SupState::Closed);
    assert_eq!(s.actions, vec![Action::Log(LogNote::ClientClosed)]);
}

#[test]
fn close_before_fetch_resolves_discards_the_result() {
    // the client closes immediately after connecting, before any fetch
    // resolves: the connection closes, and when the deferred result later
    // arrives it is dropped without any send
    let s0 = step(SupState::Connecting, Event::Opened);
    let s1 = step(s0.next, Event::Frame(InboundFrame::Close));
    assert_eq!(s1.next, SupState::Closed);
    assert!(s1.actions.iter().all(|a| !matches!(a, Action::Send(_) | Action::SendChecked(_))));
    let s2 = step(s1.next, Event::InitialFetchSettled(good_outcome()));
    assert_eq!(s2.next, SupState::Closed);
    assert!(s2.actions.is_empty());
}

#[test]
fn send_failure_closes_the_loop() {
    let s = step(SupState::Streaming, Event::SendFailed);
    assert_eq!(s.next, SupState::Closed);
    assert!(s.actions.is_empty());
}

#[test]
fn socket_error_and_stream_end_close_the_loop() {
    let s = step(SupState::Streaming, Event::SocketError);
    assert_eq!(s.next, SupState::Closed);
    assert_eq!(s.actions, vec![Action::Log(LogNote::SocketFailed)]);
    let s = step(SupState::AwaitingInitialFetch, Event::StreamEnded);
    assert_eq!(s.next, SupState::Closed);
    assert_eq!(s.actions, vec![Action::Log(LogNote::StreamEnded)]);
}
