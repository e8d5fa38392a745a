//! The executable parser for the candle array format, proved equal to the
//! spec-level parse functions of `codec`.

use vstd::prelude::*;
use crate::candle::Candle;
use crate::candle::candle_view_wf;
use crate::codec::key_close_bytes;
use crate::codec::key_high_bytes;
use crate::codec::key_low_bytes;
use crate::codec::key_open_bytes;
use crate::codec::key_timestamp_bytes;
use crate::codec::key_volume_bytes;
use crate::codec::PartialCandleView;
use crate::codec::empty_partial;
use crate::codec::spec_colon_number;
use crate::codec::spec_colon_u64;
use crate::codec::spec_complete;
use crate::codec::spec_expect;
use crate::codec::spec_parse_candle;
use crate::codec::spec_parse_candles;
use crate::codec::spec_parse_elems;
use crate::codec::spec_parse_member;
use crate::codec::spec_parse_members;
use crate::codec::spec_parse_number;
use crate::codec::spec_skip_ws;
use crate::numtok::is_number_token;
use crate::numtok::parse_u64_at;
use crate::numtok::scan_number;

verus! {

/// Move past JSON whitespace.
pub fn skip_ws(s: &Vec<u8>, i: usize) -> (j: usize)
    requires
        i <= s@.len(),
    ensures
        j as int == spec_skip_ws(s@, i as int),
        i <= j <= s@.len(),
{
    let mut j: usize = i;
    while j < s.len() && (s[j] == 32 || s[j] == 9 || s[j] == 10 || s[j] == 13)
        invariant
            i <= j <= s@.len(),
            spec_skip_ws(s@, i as int) == spec_skip_ws(s@, j as int),
        decreases s@.len() - j,
    {
        j = j + 1;
    }
    j
}

/// Match one literal byte at `i`.
pub fn expect_byte(s: &Vec<u8>, i: usize, b: u8) -> (r: Option<usize>)
    requires
        i <= s@.len(),
    ensures
        match r {
            Some(j) => spec_expect(s@, i as int, seq![b]) == Some(j as int) && j == i + 1,
            None => spec_expect(s@, i as int, seq![b]) is None,
        },
{
    if i < s.len() && s[i] == b {
        proof {
            assert(s@.subrange(i as int, i as int + 1) =~= seq![b]);
        }
        Some(i + 1)
    } else {
        proof {
            if i + 1 <= s@.len() && s@[i as int] != b {
                assert(s@.subrange(i as int, i as int + 1)[0] == s@[i as int]);
                assert(s@.subrange(i as int, i as int + 1) != seq![b]);
            }
        }
        None
    }
}

/// Match the literal `lit` at `i`.
pub fn expect_bytes(s: &Vec<u8>, i: usize, lit: &Vec<u8>) -> (r: Option<usize>)
    requires
        i <= s@.len(),
    ensures
        match r {
            Some(j) => spec_expect(s@, i as int, lit@) == Some(j as int) && j as int == i + lit@.len(),
            None => spec_expect(s@, i as int, lit@) is None,
        },
{
    if s.len() - i < lit.len() {
        return None;
    }
    let mut k: usize = 0;
    while k < lit.len()
        invariant
            k <= lit@.len(),
            i + lit@.len() <= s@.len(),
            s@.len() <= usize::MAX,
            forall|q: int| 0 <= q < k as int ==> s@[i + q] == lit@[q],
        decreases lit@.len() - k,
    {
        proof {
            assert(i + k < s@.len());
        }
        if s[i + k] != lit[k] {
            proof {
                assert(s@.subrange(i as int, i + lit@.len())[k as int] == s@[i + k]);
                assert(s@.subrange(i as int, i + lit@.len()) != lit@);
            }
            return None;
        }
        k = k + 1;
    }
    proof {
        assert(s@.subrange(i as int, i + lit@.len()) =~= lit@);
    }
    Some(i + lit.len())
}

/// Copy the bytes of `s` between `i` and `j`.
pub fn copy_range(s: &Vec<u8>, i: usize, j: usize) -> (t: Vec<u8>)
    requires
        i <= j <= s@.len(),
    ensures
        t@ == s@.subrange(i as int, j as int),
{
    let mut t: Vec<u8> = Vec::new();
    let mut k: usize = i;
    while k < j
        invariant
            i <= k <= j <= s@.len(),
            t@ == s@.subrange(i as int, k as int),
        decreases j - k,
    {
        t.push(s[k]);
        proof {
            assert(s@.subrange(i as int, (k + 1) as int) =~= s@.subrange(i as int, k as int).push(
                s@[k as int],
            ));
        }
        k = k + 1;
    }
    t
}

/// Read one JSON number token at `i`.
pub fn parse_number_at(s: &Vec<u8>, i: usize) -> (r: Option<(Vec<u8>, usize)>)
    requires
        i <= s@.len(),
    ensures
        match r {
            Some(p) => {
                &&& spec_parse_number(s@, i as int) == Some((p.0@, p.1 as int))
                &&& i <= p.1 <= s@.len()
            },
            None => spec_parse_number(s@, i as int) is None,
        },
{
    let (j, ok) = scan_number(s, i);
    if ok {
        let t = copy_range(s, i, j);
        Some((t, j))
    } else {
        None
    }
}

/// A colon and then a number token.
pub fn parse_colon_number(s: &Vec<u8>, i: usize) -> (r: Option<(Vec<u8>, usize)>)
    requires
        i <= s@.len(),
    ensures
        match r {
            Some(p) => {
                &&& spec_colon_number(s@, i as int) == Some((p.0@, p.1 as int))
                &&& is_number_token(p.0@)
                &&& i <= p.1 <= s@.len()
            },
            None => spec_colon_number(s@, i as int) is None,
        },
{
    let j1 = skip_ws(s, i);
    match expect_byte(s, j1, 58) {
        None => None,
        Some(j2) => {
            let j3 = skip_ws(s, j2);
            parse_number_at(s, j3)
        },
    }
}

/// A colon and then an unsigned decimal integer.
pub fn parse_colon_u64(s: &Vec<u8>, i: usize) -> (r: Option<(u64, usize)>)
    requires
        i <= s@.len(),
    ensures
        match r {
            Some(p) => {
                &&& spec_colon_u64(s@, i as int) == Some((p.0, p.1 as int))
                &&& i <= p.1 <= s@.len()
            },
            None => spec_colon_u64(s@, i as int) is None,
        },
{
    let j1 = skip_ws(s, i);
    match expect_byte(s, j1, 58) {
        None => None,
        Some(j2) => {
            let j3 = skip_ws(s, j2);
            parse_u64_at(s, j3)
        },
    }
}

/// The members of a candle object read so far.
pub struct PartialCandle {
    pub timestamp: Option<u64>,
    pub open: Option<Vec<u8>>,
    pub high: Option<Vec<u8>>,
    pub low: Option<Vec<u8>>,
    pub close: Option<Vec<u8>>,
    pub volume: Option<Vec<u8>>,
}

impl View for PartialCandle {
    type V = PartialCandleView;

    open spec fn view(&self) -> PartialCandleView {
        PartialCandleView {
            timestamp: self.timestamp,
            open: match self.open {
                Some(v) => Some(v@),
                None => None,
            },
            high: match self.high {
                Some(v) => Some(v@),
                None => None,
            },
            low: match self.low {
                Some(v) => Some(v@),
                None => None,
            },
            close: match self.close {
                Some(v) => Some(v@),
                None => None,
            },
            volume: match self.volume {
                Some(v) => Some(v@),
                None => None,
            },
        }
    }
}

/// Every price field read so far is a well-formed number token.
pub open spec fn partial_wf(acc: PartialCandleView) -> bool {
    &&& (acc.open matches Some(t) ==> is_number_token(t))
    &&& (acc.high matches Some(t) ==> is_number_token(t))
    &&& (acc.low matches Some(t) ==> is_number_token(t))
    &&& (acc.close matches Some(t) ==> is_number_token(t))
    &&& (acc.volume matches Some(t) ==> is_number_token(t))
}

/// Read one object member at `i`: one of the six known names, a colon and
/// the value, refusing names outside the schema and repeated members.
pub fn parse_member(s: &Vec<u8>, i: usize, acc: PartialCandle) -> (r: Option<
    (PartialCandle, usize),
>)
    requires
        i <= s@.len(),
    ensures
        match r {
            Some(p) => {
                &&& spec_parse_member(s@, i as int, acc@) == Some((p.0@, p.1 as int))
                &&& (partial_wf(acc@) ==> partial_wf(p.0@))
                &&& i < p.1 <= s@.len()
            },
            None => spec_parse_member(s@, i as int, acc@) is None,
        },
{
    let j1 = skip_ws(s, i);
    let qt = key_timestamp_bytes();
    if let Some(j2) = expect_bytes(s, j1, &qt) {
        match parse_colon_u64(s, j2) {
            None => None,
            Some((n, j)) => match acc.timestamp {
                Some(_) => None,
                None => Some(
                    (
                        PartialCandle {
                            timestamp: Some(n),
                            open: acc.open,
                            high: acc.high,
                            low: acc.low,
                            close: acc.close,
                            volume: acc.volume,
                        },
                        j,
                    ),
                ),
            },
        }
    } else {
        let qo = key_open_bytes();
        if let Some(j2) = expect_bytes(s, j1, &qo) {
            match parse_colon_number(s, j2) {
                None => None,
                Some((t, j)) => match acc.open {
                    Some(_) => None,
                    None => Some(
                        (
                            PartialCandle {
                                timestamp: acc.timestamp,
                                open: Some(t),
                                high: acc.high,
                                low: acc.low,
                                close: acc.close,
                                volume: acc.volume,
                            },
                            j,
                        ),
                    ),
                },
            }
        } else {
            let qh = key_high_bytes();
            if let Some(j2) = expect_bytes(s, j1, &qh) {
                match parse_colon_number(s, j2) {
                    None => None,
                    Some((t, j)) => match acc.high {
                        Some(_) => None,
                        None => Some(
                            (
                                PartialCandle {
                                    timestamp: acc.timestamp,
                                    open: acc.open,
                                    high: Some(t),
                                    low: acc.low,
                                    close: acc.close,
                                    volume: acc.volume,
                                },
                                j,
                            ),
                        ),
                    },
                }
            } else {
                let ql = key_low_bytes();
                if let Some(j2) = expect_bytes(s, j1, &ql) {
                    match parse_colon_number(s, j2) {
                        None => None,
                        Some((t, j)) => match acc.low {
                            Some(_) => None,
                            None => Some(
                                (
                                    PartialCandle {
                                        timestamp: acc.timestamp,
                                        open: acc.open,
                                        high: acc.high,
                                        low: Some(t),
                                        close: acc.close,
                                        volume: acc.volume,
                                    },
                                    j,
                                ),
                            ),
                        },
                    }
                } else {
                    let qc = key_close_bytes();
                    if let Some(j2) = expect_bytes(s, j1, &qc) {
                        match parse_colon_number(s, j2) {
                            None => None,
                            Some((t, j)) => match acc.close {
                                Some(_) => None,
                                None => Some(
                                    (
                                        PartialCandle {
                                            timestamp: acc.timestamp,
                                            open: acc.open,
                                            high: acc.high,
                                            low: acc.low,
                                            close: Some(t),
                                            volume: acc.volume,
                                        },
                                        j,
                                    ),
                                ),
                            },
                        }
                    } else {
                        let qv = key_volume_bytes();
                        if let Some(j2) = expect_bytes(s, j1, &qv) {
                            match parse_colon_number(s, j2) {
                                None => None,
                                Some((t, j)) => match acc.volume {
                                    Some(_) => None,
                                    None => Some(
                                        (
                                            PartialCandle {
                                                timestamp: acc.timestamp,
                                                open: acc.open,
                                                high: acc.high,
                                                low: acc.low,
                                                close: acc.close,
                                                volume: Some(t),
                                            },
                                            j,
                                        ),
                                    ),
                                },
                            }
                        } else {
                            None
                        }
                    }
                }
            }
        }
    }
}

/// Assemble the candle once the object has closed; every member must have
/// been read.
fn complete(acc: PartialCandle) -> (r: Option<Candle>)
    ensures
        match r {
            Some(c) => spec_complete(acc@) == Some(c@),
            None => spec_complete(acc@) is None,
        },
{
    match (acc.timestamp, acc.open, acc.high, acc.low, acc.close, acc.volume) {
        (Some(ts), Some(o), Some(h), Some(l), Some(cl), Some(vo)) => Some(
            Candle { timestamp: ts, open: o, high: h, low: l, close: cl, volume: vo },
        ),
        _ => None,
    }
}

/// Read the members of a candle object until its closing brace.
pub fn parse_members(s: &Vec<u8>, i: usize, acc: PartialCandle) -> (r: Option<(Candle, usize)>)
    requires
        i <= s@.len(),
        partial_wf(acc@),
    ensures
        match r {
            Some(p) => {
                &&& spec_parse_members(s@, i as int, acc@) == Some((p.0@, p.1 as int))
                &&& candle_view_wf(p.0@)
                &&& i < p.1 <= s@.len()
            },
            None => spec_parse_members(s@, i as int, acc@) is None,
        },
    decreases s@.len() - i,
{
    let (acc2, j) = match parse_member(s, i, acc) {
        None => { return None; },
        Some(p) => p,
    };
    let k = skip_ws(s, j);
    if k < s.len() && s[k] == 44 {
        parse_members(s, k + 1, acc2)
    } else if k < s.len() && s[k] == 125 {
        match complete(acc2) {
            None => None,
            Some(c) => {
                proof {
                    assert(candle_view_wf(c@));
                }
                Some((c, k + 1))
            },
        }
    } else {
        None
    }
}

/// Read one candle object starting exactly at its opening brace.
pub fn parse_candle(s: &Vec<u8>, i: usize) -> (r: Option<(Candle, usize)>)
    requires
        i <= s@.len(),
    ensures
        match r {
            Some(p) => {
                &&& spec_parse_candle(s@, i as int) == Some((p.0@, p.1 as int))
                &&& candle_view_wf(p.0@)
                &&& i < p.1 <= s@.len()
            },
            None => spec_parse_candle(s@, i as int) is None,
        },
{
    let j0 = match expect_byte(s, i, 123) {
        None => { return None; },
        Some(j) => j,
    };
    let acc = PartialCandle {
        timestamp: None,
        open: None,
        high: None,
        low: None,
        close: None,
        volume: None,
    };
    proof {
        assert(acc@ =~= empty_partial());
    }
    parse_members(s, j0, acc)
}

/// Read candle objects separated by commas, then the closing bracket.
pub fn parse_elems(s: &Vec<u8>, i: usize) -> (r: Option<(Vec<Candle>, usize)>)
    requires
        i <= s@.len(),
    ensures
        match r {
            Some(p) => {
                &&& spec_parse_elems(s@, i as int) == Some((p.0.deep_view(), p.1 as int))
                &&& i < p.1 <= s@.len()
                &&& forall|k: int| 0 <= k < p.0.deep_view().len() ==> candle_view_wf(
                    p.0.deep_view()[k],
                )
            },
            None => spec_parse_elems(s@, i as int) is None,
        },
    decreases s@.len() - i,
{
    let (c, j) = match parse_candle(s, i) {
        None => { return None; },
        Some(p) => p,
    };
    let k = skip_ws(s, j);
    if k < s.len() && s[k] == 44 {
        let m = skip_ws(s, k + 1);
        match parse_elems(s, m) {
            None => None,
            Some((mut rest, e)) => {
                let ghost rv = rest.deep_view();
                rest.insert(0, c);
                proof {
                    assert(rest.deep_view() =~= seq![c@] + rv);
                }
                Some((rest, e))
            },
        }
    } else if k < s.len() && s[k] == 93 {
        let mut v: Vec<Candle> = Vec::new();
        v.push(c);
        proof {
            assert(v.deep_view() =~= seq![c@]);
        }
        Some((v, k + 1))
    } else {
        None
    }
}

/// Read a whole candle array, surrounded by optional whitespace, to the end
/// of the input.
pub fn parse_candles(s: &Vec<u8>) -> (r: Option<Vec<Candle>>)
    ensures
        match r {
            Some(cs) => {
                &&& spec_parse_candles(s@) == Some(cs.deep_view())
                &&& forall|k: int| 0 <= k < cs.deep_view().len() ==> candle_view_wf(
                    cs.deep_view()[k],
                )
            },
            None => spec_parse_candles(s@) is None,
        },
{
    let i0 = skip_ws(s, 0);
    let j = match expect_byte(s, i0, 91) {
        None => { return None; },
        Some(j) => j,
    };
    let k = skip_ws(s, j);
    if k < s.len() && s[k] == 93 {
        let m = skip_ws(s, k + 1);
        if m == s.len() {
            let v: Vec<Candle> = Vec::new();
            proof {
                assert(v.deep_view() =~= Seq::<crate::candle::CandleView>::empty());
            }
            Some(v)
        } else {
            None
        }
    } else {
        match parse_elems(s, k) {
            None => None,
            Some((cs, e)) => {
                let m = skip_ws(s, e);
                if m == s.len() {
                    Some(cs)
                } else {
                    None
                }
            },
        }
    }
}

} // verus!
