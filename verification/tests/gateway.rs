use candle_stream::candle::Candle;
use candle_stream::codec::encode_candles;
use candle_stream::gateway::FetchError;
use candle_stream::gateway::FetchOutcome;
use candle_stream::gateway::fetch;

fn candle(ts: u64, open: &str, high: &str, low: &str, close: &str, volume: &str) -> Candle {
    Candle {
        timestamp: ts,
        open: open.as_bytes().to_vec(),
        high: high.as_bytes().to_vec(),
        low: low.as_bytes().to_vec(),
        close: close.as_bytes().to_vec(),
        volume: volume.as_bytes().to_vec(),
    }
}

#[test]
fn timeout_is_normalized_to_timeout() {
    assert_eq!(fetch(FetchOutcome::TimedOut), Err(FetchError::Timeout));
}

#[test]
fn nonzero_exit_carries_stderr_text_regardless_of_stdout() {
    let outcome = FetchOutcome::Completed {
        exit_ok: false,
        stdout: b"[]".to_vec(),
        stderr: b"boom: no data source".to_vec(),
    };
    assert_eq!(
        fetch(outcome),
        Err(FetchError::ProcessFailure("boom: no data source".to_string()))
    );
}

#[test]
fn malformed_stdout_is_a_decode_failure() {
    let outcome = FetchOutcome::Completed {
        exit_ok: true,
        stdout: b"not json at all".to_vec(),
        stderr: Vec::new(),
    };
    assert_eq!(fetch(outcome), Err(FetchError::DecodeFailure));
}

#[test]
fn empty_array_is_success_with_no_data() {
    let outcome = FetchOutcome::Completed {
        exit_ok: true,
        stdout: b"[]".to_vec(),
        stderr: Vec::new(),
    };
    assert_eq!(fetch(outcome), Ok(Vec::new()));
}

#[test]
fn well_formed_output_yields_as_many_candles_as_encoded() {
    let cs = vec![
        candle(1, "1", "2", "0.5", "1.5", "100"),
        candle(2, "2", "3", "1.5", "2.5", "200"),
        candle(3, "3", "4", "2.5", "3.5", "300"),
    ];
    let stdout = encode_candles(&cs);
    let got = fetch(FetchOutcome::Completed { exit_ok: true, stdout, stderr: Vec::new() })
        .expect("well-formed output must parse");
    assert_eq!(got.len(), 3);
    assert_eq!(got, cs);
}

#[test]
fn fields_in_any_order_are_valid_output() {
    let outcome = FetchOutcome::Completed {
        exit_ok: true,
        stdout: b"[{\"open\":1,\"timestamp\":1000,\"high\":2,\"low\":0.5,\"close\":1.5,\"volume\":100}]"
            .to_vec(),
        stderr: Vec::new(),
    };
    let got = fetch(outcome).expect("schema-conforming output must parse");
    assert_eq!(got, vec![candle(1000, "1", "2", "0.5", "1.5", "100")]);
}

#[test]
fn stderr_of_failed_process_wins_even_over_good_stdout() {
    let cs = vec![candle(1, "1", "2", "0.5", "1.5", "100")];
    let stdout = encode_candles(&cs);
    let outcome = FetchOutcome::Completed { exit_ok: false, stdout, stderr: b"died".to_vec() };
    assert_eq!(fetch(outcome), Err(FetchError::ProcessFailure("died".to_string())));
}
