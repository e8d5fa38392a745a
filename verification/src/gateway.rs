//! The fetch gateway: normalizing every way the external data fetch can end
//! into one error taxonomy.
//!
//! The external capability is an opaque process: running it, bounding it in
//! time and capturing its output is I/O and lives outside the library. What
//! the library sees is the plain record of how one invocation ended — timed
//! out, or completed with an exit status and its two output streams — and
//! from that record it decides, provably, what the caller gets.

use vstd::prelude::*;
use crate::candle::Candle;
use crate::candle::CandleView;
use crate::candle::candle_view_wf;
use crate::codec::spec_encode_candles;
use crate::codec::spec_parse_candles;
use crate::parse::parse_candles;
use crate::roundtrip::lemma_parse_of_encode;

verus! {

/// How one invocation of the external fetch capability ended, as observed
/// by the caller that ran it under its timeout budget.
pub enum FetchOutcome {
    /// The invocation did not complete within the timeout budget.
    TimedOut,
    /// The process finished: whether it exited successfully, and what it
    /// wrote to its standard output and standard error.
    Completed { exit_ok: bool, stdout: Vec<u8>, stderr: Vec<u8> },
}

#[verifier::ext_equal]
pub ghost enum FetchOutcomeView {
    TimedOut,
    Completed { exit_ok: bool, stdout: Seq<u8>, stderr: Seq<u8> },
}

impl View for FetchOutcome {
    type V = FetchOutcomeView;

    open spec fn view(&self) -> FetchOutcomeView {
        match self {
            FetchOutcome::TimedOut => FetchOutcomeView::TimedOut,
            FetchOutcome::Completed { exit_ok, stdout, stderr } => FetchOutcomeView::Completed {
                exit_ok: *exit_ok,
                stdout: stdout@,
                stderr: stderr@,
            },
        }
    }
}

/// Why a fetch produced no candles, in priority order: the timeout wins over
/// the exit status, and the exit status wins over the shape of the output.
#[derive(Debug, PartialEq, Eq)]
pub enum FetchError {
    /// The operation did not complete within the timeout budget.
    Timeout,
    /// The process exited non-zero; the payload is its standard error text.
    ProcessFailure(String),
    /// Standard output was not a well-formed candle array.
    DecodeFailure,
}

#[verifier::ext_equal]
pub ghost enum FetchErrorView {
    Timeout,
    ProcessFailure(Seq<char>),
    DecodeFailure,
}

impl View for FetchError {
    type V = FetchErrorView;

    open spec fn view(&self) -> FetchErrorView {
        match self {
            FetchError::Timeout => FetchErrorView::Timeout,
            FetchError::ProcessFailure(t) => FetchErrorView::ProcessFailure(t@),
            FetchError::DecodeFailure => FetchErrorView::DecodeFailure,
        }
    }
}

/// The text that lossy UTF-8 decoding makes of a byte sequence.
pub uninterp spec fn lossy_of(bytes: Seq<u8>) -> Seq<char>;

/// Relies on `String::from_utf8_lossy`: the text is a function of the bytes
/// alone, and ASCII bytes come through unchanged.
#[verifier::external_body]
fn utf8_lossy(bytes: &Vec<u8>) -> (r: String)
    ensures
        r@ == lossy_of(bytes@),
        (forall|k: int| 0 <= k < bytes@.len() ==> bytes@[k] < 128) ==> r@ == bytes@.map(
            |_k: int, b: u8| b as char,
        ),
{
    String::from_utf8_lossy(bytes.as_slice()).into_owned()
}

/// What the gateway makes of one observed outcome.
pub open spec fn spec_fetch(o: FetchOutcomeView) -> Result<Seq<CandleView>, FetchErrorView> {
    match o {
        FetchOutcomeView::TimedOut => Err(FetchErrorView::Timeout),
        FetchOutcomeView::Completed { exit_ok, stdout, stderr } => if !exit_ok {
            Err(FetchErrorView::ProcessFailure(lossy_of(stderr)))
        } else {
            match spec_parse_candles(stdout) {
                Some(cs) => Ok(cs),
                None => Err(FetchErrorView::DecodeFailure),
            }
        },
    }
}

/// Normalize one observed outcome of the external fetch capability.
///
/// A timeout is reported as `Timeout` whatever the process may still do; a
/// non-zero exit is reported as `ProcessFailure` carrying the stderr text,
/// regardless of what stdout holds; otherwise stdout must parse as a candle
/// array — the six members of each object in any order, each exactly once,
/// no others — else the fetch is a `DecodeFailure`. An empty array parses
/// successfully: success with no data is not an error here, and the caller
/// decides what it means.
pub fn fetch(outcome: FetchOutcome) -> (r: Result<Vec<Candle>, FetchError>)
    ensures
        match r {
            Ok(cs) => {
                &&& spec_fetch(outcome@) == Ok::<Seq<CandleView>, FetchErrorView>(cs.deep_view())
                &&& forall|k: int| 0 <= k < cs.deep_view().len() ==> candle_view_wf(
                    cs.deep_view()[k],
                )
            },
            Err(e) => spec_fetch(outcome@) == Err::<Seq<CandleView>, FetchErrorView>(e@),
        },
{
    match outcome {
        FetchOutcome::TimedOut => Err(FetchError::Timeout),
        FetchOutcome::Completed { exit_ok, stdout, stderr } => {
            if !exit_ok {
                Err(FetchError::ProcessFailure(utf8_lossy(&stderr)))
            } else {
                match parse_candles(&stdout) {
                    Some(cs) => Ok(cs),
                    None => Err(FetchError::DecodeFailure),
                }
            }
        },
    }
}

/// Law: an invocation that does not terminate within the budget is reported
/// as `Timeout`.
pub proof fn lemma_fetch_timeout(o: FetchOutcomeView)
    requires
        o is TimedOut,
    ensures
        spec_fetch(o) == Err::<Seq<CandleView>, FetchErrorView>(FetchErrorView::Timeout),
{
}

/// Law: a non-zero exit is reported as `ProcessFailure` carrying the
/// captured stderr text, regardless of stdout content.
pub proof fn lemma_fetch_process_failure(o: FetchOutcomeView)
    requires
        o matches FetchOutcomeView::Completed { exit_ok: false, .. },
    ensures
        spec_fetch(o) == Err::<Seq<CandleView>, FetchErrorView>(
            FetchErrorView::ProcessFailure(lossy_of(o->Completed_stderr)),
        ),
{
}

/// Law: for every well-formed output of the external capability, the
/// gateway returns exactly the candles that were encoded — in particular,
/// as many candles as the array holds.
pub proof fn lemma_fetch_of_encoded(cs: Seq<CandleView>, stderr: Seq<u8>)
    requires
        forall|k: int| 0 <= k < cs.len() ==> candle_view_wf(cs[k]),
    ensures
        spec_fetch(
            FetchOutcomeView::Completed { exit_ok: true, stdout: spec_encode_candles(cs), stderr },
        ) == Ok::<Seq<CandleView>, FetchErrorView>(cs),
{
    lemma_parse_of_encode(cs);
}

} // verus!
