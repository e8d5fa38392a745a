//! The wire format, as a grammar on bytes.
//!
//! The data source prints a JSON array of candle objects; the service pushes
//! a JSON object `{"candles":[...]}` to its clients. Both sides of that
//! format live here: spec functions that define what the bytes of an
//! encoding are and what a parse of a byte sequence yields, and executable
//! functions proved against them.
//!
//! The grammar a parse accepts is the schema of the data source: an array
//! of objects holding exactly the six members `timestamp`, `open`, `high`,
//! `low`, `close`, `volume`, each exactly once and in any order, with JSON
//! whitespace allowed between any two tokens. The schema is closed: an
//! object member under any other name, or a repeated member, refuses the
//! whole input.

use vstd::prelude::*;
use crate::candle::Candle;
use crate::candle::CandleView;
use crate::numtok::NumState;
use crate::numtok::digits_of;
use crate::numtok::is_number_token;
use crate::numtok::num_scan;
use crate::numtok::spec_parse_u64;
use crate::numtok::u64_to_decimal;

verus! {

// ---------------------------------------------------------------------------
// Tokens of the format
// ---------------------------------------------------------------------------

/// One byte is JSON whitespace.
pub open spec fn is_ws(b: u8) -> bool {
    b == 32 || b == 9 || b == 10 || b == 13
}

pub open spec fn name_timestamp() -> Seq<u8> {
    seq![116u8, 105u8, 109u8, 101u8, 115u8, 116u8, 97u8, 109u8, 112u8]
}

pub open spec fn name_open() -> Seq<u8> {
    seq![111u8, 112u8, 101u8, 110u8]
}

pub open spec fn name_high() -> Seq<u8> {
    seq![104u8, 105u8, 103u8, 104u8]
}

pub open spec fn name_low() -> Seq<u8> {
    seq![108u8, 111u8, 119u8]
}

pub open spec fn name_close() -> Seq<u8> {
    seq![99u8, 108u8, 111u8, 115u8, 101u8]
}

pub open spec fn name_volume() -> Seq<u8> {
    seq![118u8, 111u8, 108u8, 117u8, 109u8, 101u8]
}

pub open spec fn name_candles() -> Seq<u8> {
    seq![99u8, 97u8, 110u8, 100u8, 108u8, 101u8, 115u8]
}

/// The bytes of a member name in quotes.
pub open spec fn quoted_name(name: Seq<u8>) -> Seq<u8> {
    seq![34u8] + name + seq![34u8]
}

/// The bytes of an object key: the name in quotes, followed by the colon.
pub open spec fn quoted_key(name: Seq<u8>) -> Seq<u8> {
    seq![34u8] + name + seq![34u8, 58u8]
}

// ---------------------------------------------------------------------------
// What an encoding is
// ---------------------------------------------------------------------------

/// The canonical bytes of one candle object.
pub open spec fn spec_encode_candle(c: CandleView) -> Seq<u8> {
    seq![123u8] + quoted_key(name_timestamp()) + digits_of(c.timestamp as nat) + seq![44u8]
        + quoted_key(name_open()) + c.open + seq![44u8] + quoted_key(name_high()) + c.high
        + seq![44u8] + quoted_key(name_low()) + c.low + seq![44u8] + quoted_key(name_close())
        + c.close + seq![44u8] + quoted_key(name_volume()) + c.volume + seq![125u8]
}

/// The canonical bytes of a comma-separated candle list.
pub open spec fn spec_encode_elems(cs: Seq<CandleView>) -> Seq<u8>
    decreases cs.len(),
{
    if cs.len() == 0 {
        Seq::empty()
    } else if cs.len() == 1 {
        spec_encode_candle(cs[0])
    } else {
        spec_encode_candle(cs[0]) + seq![44u8] + spec_encode_elems(cs.drop_first())
    }
}

/// The canonical bytes of a candle array.
pub open spec fn spec_encode_candles(cs: Seq<CandleView>) -> Seq<u8> {
    seq![91u8] + spec_encode_elems(cs) + seq![93u8]
}

/// The canonical bytes of the wire envelope `{"candles":[...]}`.
pub open spec fn spec_encode_update(cs: Seq<CandleView>) -> Seq<u8> {
    seq![123u8] + quoted_key(name_candles()) + spec_encode_candles(cs) + seq![125u8]
}

// ---------------------------------------------------------------------------
// What a parse yields
// ---------------------------------------------------------------------------

/// The first position at or after `i` that holds no whitespace.
pub open spec fn spec_skip_ws(s: Seq<u8>, i: int) -> int
    decreases s.len() - i,
        when 0 <= i <= s.len()
{
    if i < s.len() && is_ws(s[i]) {
        spec_skip_ws(s, i + 1)
    } else {
        i
    }
}

/// Match the literal `lit` exactly at `i`.
pub open spec fn spec_expect(s: Seq<u8>, i: int, lit: Seq<u8>) -> Option<int> {
    if 0 <= i && i + lit.len() <= s.len() && s.subrange(i, i + lit.len()) == lit {
        Some(i + lit.len())
    } else {
        None
    }
}

/// Read one JSON number token at `i`: its text and where it ends.
pub open spec fn spec_parse_number(s: Seq<u8>, i: int) -> Option<(Seq<u8>, int)> {
    let j = num_scan(s, i, NumState::Start);
    let t = s.subrange(i, j);
    if is_number_token(t) {
        Some((t, j))
    } else {
        None
    }
}

/// A colon and then a number token, whitespace allowed before each.
pub open spec fn spec_colon_number(s: Seq<u8>, i: int) -> Option<(Seq<u8>, int)> {
    let j1 = spec_skip_ws(s, i);
    match spec_expect(s, j1, seq![58u8]) {
        None => None,
        Some(j2) => {
            let j3 = spec_skip_ws(s, j2);
            spec_parse_number(s, j3)
        },
    }
}

/// A colon and then an unsigned decimal integer that fits in a `u64`,
/// whitespace allowed before each.
pub open spec fn spec_colon_u64(s: Seq<u8>, i: int) -> Option<(u64, int)> {
    let j1 = spec_skip_ws(s, i);
    match spec_expect(s, j1, seq![58u8]) {
        None => None,
        Some(j2) => {
            let j3 = spec_skip_ws(s, j2);
            spec_parse_u64(s, j3)
        },
    }
}

/// The members of a candle object read so far: each field is present at
/// most once, and all six must be present when the object closes.
#[verifier::ext_equal]
pub ghost struct PartialCandleView {
    pub timestamp: Option<u64>,
    pub open: Option<Seq<u8>>,
    pub high: Option<Seq<u8>>,
    pub low: Option<Seq<u8>>,
    pub close: Option<Seq<u8>>,
    pub volume: Option<Seq<u8>>,
}

/// No member read yet.
pub open spec fn empty_partial() -> PartialCandleView {
    PartialCandleView {
        timestamp: None,
        open: None,
        high: None,
        low: None,
        close: None,
        volume: None,
    }
}

/// A candle, once every member has been read exactly once.
pub open spec fn spec_complete(acc: PartialCandleView) -> Option<CandleView> {
    match (acc.timestamp, acc.open, acc.high, acc.low, acc.close, acc.volume) {
        (Some(ts), Some(o), Some(h), Some(l), Some(cl), Some(vo)) => Some(
            CandleView { timestamp: ts, open: o, high: h, low: l, close: cl, volume: vo },
        ),
        _ => None,
    }
}

/// Read one object member at `i`: whitespace, one of the six known names in
/// quotes, a colon and the value. A name outside the schema, or one whose
/// field was already read, refuses the member.
pub open spec fn spec_parse_member(s: Seq<u8>, i: int, acc: PartialCandleView) -> Option<
    (PartialCandleView, int),
> {
    let j1 = spec_skip_ws(s, i);
    match spec_expect(s, j1, quoted_name(name_timestamp())) {
        Some(j2) => match spec_colon_u64(s, j2) {
            None => None,
            Some((n, j)) => if acc.timestamp is Some {
                None
            } else {
                Some(
                    (
                        PartialCandleView {
                            timestamp: Some(n),
                            open: acc.open,
                            high: acc.high,
                            low: acc.low,
                            close: acc.close,
                            volume: acc.volume,
                        },
                        j,
                    ),
                )
            },
        },
        None => match spec_expect(s, j1, quoted_name(name_open())) {
            Some(j2) => match spec_colon_number(s, j2) {
                None => None,
                Some((t, j)) => if acc.open is Some {
                    None
                } else {
                    Some(
                        (
                            PartialCandleView {
                                timestamp: acc.timestamp,
                                open: Some(t),
                                high: acc.high,
                                low: acc.low,
                                close: acc.close,
                                volume: acc.volume,
                            },
                            j,
                        ),
                    )
                },
            },
            None => match spec_expect(s, j1, quoted_name(name_high())) {
                Some(j2) => match spec_colon_number(s, j2) {
                    None => None,
                    Some((t, j)) => if acc.high is Some {
                        None
                    } else {
                        Some(
                            (
                                PartialCandleView {
                                    timestamp: acc.timestamp,
                                    open: acc.open,
                                    high: Some(t),
                                    low: acc.low,
                                    close: acc.close,
                                    volume: acc.volume,
                                },
                                j,
                            ),
                        )
                    },
                },
                None => match spec_expect(s, j1, quoted_name(name_low())) {
                    Some(j2) => match spec_colon_number(s, j2) {
                        None => None,
                        Some((t, j)) => if acc.low is Some {
                            None
                        } else {
                            Some(
                                (
                                    PartialCandleView {
                                        timestamp: acc.timestamp,
                                        open: acc.open,
                                        high: acc.high,
                                        low: Some(t),
                                        close: acc.close,
                                        volume: acc.volume,
                                    },
                                    j,
                                ),
                            )
                        },
                    },
                    None => match spec_expect(s, j1, quoted_name(name_close())) {
                        Some(j2) => match spec_colon_number(s, j2) {
                            None => None,
                            Some((t, j)) => if acc.close is Some {
                                None
                            } else {
                                Some(
                                    (
                                        PartialCandleView {
                                            timestamp: acc.timestamp,
                                            open: acc.open,
                                            high: acc.high,
                                            low: acc.low,
                                            close: Some(t),
                                            volume: acc.volume,
                                        },
                                        j,
                                    ),
                                )
                            },
                        },
                        None => match spec_expect(s, j1, quoted_name(name_volume())) {
                            Some(j2) => match spec_colon_number(s, j2) {
                                None => None,
                                Some((t, j)) => if acc.volume is Some {
                                    None
                                } else {
                                    Some(
                                        (
                                            PartialCandleView {
                                                timestamp: acc.timestamp,
                                                open: acc.open,
                                                high: acc.high,
                                                low: acc.low,
                                                close: acc.close,
                                                volume: Some(t),
                                            },
                                            j,
                                        ),
                                    )
                                },
                            },
                            None => None,
                        },
                    },
                },
            },
        },
    }
}

/// Read the members of a candle object, separated by commas, until the
/// closing brace; the object must then hold all six fields.
pub open spec fn spec_parse_members(s: Seq<u8>, i: int, acc: PartialCandleView) -> Option<
    (CandleView, int),
>
    decreases s.len() - i,
        when 0 <= i <= s.len()
{
    match spec_parse_member(s, i, acc) {
        None => None,
        Some((acc2, j)) => {
            if !(i < j <= s.len()) {
                None
            } else {
                let k = spec_skip_ws(s, j);
                if !(j <= k <= s.len()) {
                    None
                } else if k < s.len() && s[k] == 44 {
                    spec_parse_members(s, k + 1, acc2)
                } else if k < s.len() && s[k] == 125 {
                    match spec_complete(acc2) {
                        Some(c) => Some((c, k + 1)),
                        None => None,
                    }
                } else {
                    None
                }
            }
        },
    }
}

/// Read one candle object starting exactly at its opening brace.
pub open spec fn spec_parse_candle(s: Seq<u8>, i: int) -> Option<(CandleView, int)> {
    match spec_expect(s, i, seq![123u8]) {
        None => None,
        Some(j0) => spec_parse_members(s, j0, empty_partial()),
    }
}

/// Read candle objects separated by commas, then the closing bracket.
/// `i` must stand at the first object's opening brace; the returned
/// position stands just past the `]`.
pub open spec fn spec_parse_elems(s: Seq<u8>, i: int) -> Option<(Seq<CandleView>, int)>
    decreases s.len() - i,
        when 0 <= i <= s.len()
{
    match spec_parse_candle(s, i) {
        None => None,
        Some((c, j)) => {
            if !(i < j <= s.len()) {
                None
            } else {
                let k = spec_skip_ws(s, j);
                if !(j <= k <= s.len()) {
                    None
                } else if k < s.len() && s[k] == 44 {
                    let m = spec_skip_ws(s, k + 1);
                    if !(k + 1 <= m <= s.len()) {
                        None
                    } else {
                        match spec_parse_elems(s, m) {
                            None => None,
                            Some((rest, e)) => Some((seq![c] + rest, e)),
                        }
                    }
                } else if k < s.len() && s[k] == 93 {
                    Some((seq![c], k + 1))
                } else {
                    None
                }
            }
        },
    }
}

/// Read a whole candle array: whitespace, `[`, the elements (possibly
/// none), `]`, whitespace, end of input.
pub open spec fn spec_parse_candles(s: Seq<u8>) -> Option<Seq<CandleView>> {
    let i0 = spec_skip_ws(s, 0);
    match spec_expect(s, i0, seq![91u8]) {
        None => None,
        Some(j) => {
            let k = spec_skip_ws(s, j);
            if k < s.len() && s[k] == 93 {
                let m = spec_skip_ws(s, k + 1);
                if m == s.len() {
                    Some(Seq::empty())
                } else {
                    None
                }
            } else {
                match spec_parse_elems(s, k) {
                    None => None,
                    Some((cs, e)) => {
                        if !(0 <= e <= s.len()) {
                            None
                        } else {
                            let m = spec_skip_ws(s, e);
                            if m == s.len() {
                                Some(cs)
                            } else {
                                None
                            }
                        }
                    },
                }
            }
        },
    }
}

// ---------------------------------------------------------------------------
// Executable encoder
// ---------------------------------------------------------------------------

/// Append all of `t` to `v`.
pub fn append_bytes(v: &mut Vec<u8>, t: &Vec<u8>)
    ensures
        final(v)@ == old(v)@ + t@,
{
    let mut k: usize = 0;
    while k < t.len()
        invariant
            k <= t@.len(),
            v@ == old(v)@ + t@.subrange(0, k as int),
        decreases t@.len() - k,
    {
        v.push(t[k]);
        proof {
            assert(t@.subrange(0, (k + 1) as int) =~= t@.subrange(0, k as int).push(t@[k as int]));
            assert(old(v)@ + t@.subrange(0, (k + 1) as int) =~= (old(v)@ + t@.subrange(
                0,
                k as int,
            )).push(t@[k as int]));
        }
        k = k + 1;
    }
    proof {
        assert(t@.subrange(0, t@.len() as int) =~= t@);
    }
}

/// The quoted `"timestamp"` member name, without its colon.
pub fn key_timestamp_bytes() -> (v: Vec<u8>)
    ensures
        v@ == quoted_name(name_timestamp()),
{
    let mut v: Vec<u8> = Vec::new();
    v.push(34);
    v.push(116);
    v.push(105);
    v.push(109);
    v.push(101);
    v.push(115);
    v.push(116);
    v.push(97);
    v.push(109);
    v.push(112);
    v.push(34);
    proof {
        assert(v@ =~= quoted_name(name_timestamp()));
    }
    v
}

/// The quoted `"open"` member name, without its colon.
pub fn key_open_bytes() -> (v: Vec<u8>)
    ensures
        v@ == quoted_name(name_open()),
{
    let mut v: Vec<u8> = Vec::new();
    v.push(34);
    v.push(111);
    v.push(112);
    v.push(101);
    v.push(110);
    v.push(34);
    proof {
        assert(v@ =~= quoted_name(name_open()));
    }
    v
}

/// The quoted `"high"` member name, without its colon.
pub fn key_high_bytes() -> (v: Vec<u8>)
    ensures
        v@ == quoted_name(name_high()),
{
    let mut v: Vec<u8> = Vec::new();
    v.push(34);
    v.push(104);
    v.push(105);
    v.push(103);
    v.push(104);
    v.push(34);
    proof {
        assert(v@ =~= quoted_name(name_high()));
    }
    v
}

/// The quoted `"low"` member name, without its colon.
pub fn key_low_bytes() -> (v: Vec<u8>)
    ensures
        v@ == quoted_name(name_low()),
{
    let mut v: Vec<u8> = Vec::new();
    v.push(34);
    v.push(108);
    v.push(111);
    v.push(119);
    v.push(34);
    proof {
        assert(v@ =~= quoted_name(name_low()));
    }
    v
}

/// The quoted `"close"` member name, without its colon.
pub fn key_close_bytes() -> (v: Vec<u8>)
    ensures
        v@ == quoted_name(name_close()),
{
    let mut v: Vec<u8> = Vec::new();
    v.push(34);
    v.push(99);
    v.push(108);
    v.push(111);
    v.push(115);
    v.push(101);
    v.push(34);
    proof {
        assert(v@ =~= quoted_name(name_close()));
    }
    v
}

/// The quoted `"volume"` member name, without its colon.
pub fn key_volume_bytes() -> (v: Vec<u8>)
    ensures
        v@ == quoted_name(name_volume()),
{
    let mut v: Vec<u8> = Vec::new();
    v.push(34);
    v.push(118);
    v.push(111);
    v.push(108);
    v.push(117);
    v.push(109);
    v.push(101);
    v.push(34);
    proof {
        assert(v@ =~= quoted_name(name_volume()));
    }
    v
}

/// The quoted `"candles"` member name, without its colon.
pub fn key_candles_bytes() -> (v: Vec<u8>)
    ensures
        v@ == quoted_name(name_candles()),
{
    let mut v: Vec<u8> = Vec::new();
    v.push(34);
    v.push(99);
    v.push(97);
    v.push(110);
    v.push(100);
    v.push(108);
    v.push(101);
    v.push(115);
    v.push(34);
    proof {
        assert(v@ =~= quoted_name(name_candles()));
    }
    v
}

/// Append the canonical encoding of one candle object.
#[verifier::rlimit(100)]
pub fn encode_candle_into(v: &mut Vec<u8>, c: &Candle)
    ensures
        final(v)@ == old(v)@ + spec_encode_candle(c@),
{
    v.push(123);
    let kt = key_timestamp_bytes();
    append_bytes(v, &kt);
    v.push(58);
    let ts = u64_to_decimal(c.timestamp);
    append_bytes(v, &ts);
    v.push(44);
    let ko = key_open_bytes();
    append_bytes(v, &ko);
    v.push(58);
    append_bytes(v, &c.open);
    v.push(44);
    let kh = key_high_bytes();
    append_bytes(v, &kh);
    v.push(58);
    append_bytes(v, &c.high);
    v.push(44);
    let kl = key_low_bytes();
    append_bytes(v, &kl);
    v.push(58);
    append_bytes(v, &c.low);
    v.push(44);
    let kc = key_close_bytes();
    append_bytes(v, &kc);
    v.push(58);
    append_bytes(v, &c.close);
    v.push(44);
    let kv = key_volume_bytes();
    append_bytes(v, &kv);
    v.push(58);
    append_bytes(v, &c.volume);
    v.push(125);
    proof {
        assert(v@ =~= old(v)@ + spec_encode_candle(c@));
    }
}

/// Growing the encoded list by one candle appends a comma (after the first)
/// and the candle's own encoding.
pub proof fn lemma_elems_snoc(cs: Seq<CandleView>, k: int)
    requires
        0 <= k < cs.len(),
    ensures
        spec_encode_elems(cs.take(k + 1)) == if k == 0 {
            spec_encode_candle(cs[0])
        } else {
            spec_encode_elems(cs.take(k)) + seq![44u8] + spec_encode_candle(cs[k])
        },
    decreases k,
{
    let t = cs.take(k + 1);
    if k == 0 {
        assert(t.len() == 1);
        assert(t[0] == cs[0]);
    } else {
        assert(t.len() >= 2);
        assert(t[0] == cs[0]);
        assert(t.drop_first() =~= cs.drop_first().take(k));
        lemma_elems_snoc(cs.drop_first(), k - 1);
        if k == 1 {
            assert(cs.drop_first().take(1)[0] == cs[1]);
            assert(spec_encode_elems(cs.drop_first().take(1)) == spec_encode_candle(cs[1]));
            assert(cs.take(1).len() == 1);
            assert(cs.take(1)[0] == cs[0]);
            assert(spec_encode_elems(cs.take(1)) == spec_encode_candle(cs[0]));
            assert(spec_encode_elems(cs.take(2)) == spec_encode_candle(cs[0]) + seq![44u8]
                + spec_encode_candle(cs[1]));
        } else {
            assert(cs.take(k).len() >= 2);
            assert(cs.take(k)[0] == cs[0]);
            assert(cs.take(k).drop_first() =~= cs.drop_first().take(k - 1));
            assert(cs.drop_first()[k - 1] == cs[k]);
            assert(spec_encode_elems(cs.take(k + 1)) == spec_encode_candle(cs[0]) + seq![44u8]
                + (spec_encode_elems(cs.drop_first().take(k - 1)) + seq![44u8]
                + spec_encode_candle(cs[k])));
            assert(spec_encode_elems(cs.take(k)) + seq![44u8] + spec_encode_candle(cs[k])
                == (spec_encode_candle(cs[0]) + seq![44u8] + spec_encode_elems(
                cs.drop_first().take(k - 1),
            )) + seq![44u8] + spec_encode_candle(cs[k]));
            assert(spec_encode_candle(cs[0]) + seq![44u8] + (spec_encode_elems(
                cs.drop_first().take(k - 1),
            ) + seq![44u8] + spec_encode_candle(cs[k])) =~= (spec_encode_candle(cs[0]) + seq![44u8]
                + spec_encode_elems(cs.drop_first().take(k - 1))) + seq![44u8]
                + spec_encode_candle(cs[k]));
        }
    }
}

/// Encode a candle array in its canonical form.
pub fn encode_candles(cs: &Vec<Candle>) -> (v: Vec<u8>)
    ensures
        v@ == spec_encode_candles(cs.deep_view()),
{
    let mut v: Vec<u8> = Vec::new();
    v.push(91);
    proof {
        assert(cs.deep_view().take(0) =~= Seq::<CandleView>::empty());
        assert(v@ =~= seq![91u8] + spec_encode_elems(cs.deep_view().take(0)));
    }
    let mut k: usize = 0;
    while k < cs.len()
        invariant
            k <= cs@.len(),
            cs.deep_view().len() == cs@.len(),
            v@ == seq![91u8] + spec_encode_elems(cs.deep_view().take(k as int)),
        decreases cs@.len() - k,
    {
        if k > 0 {
            v.push(44);
        }
        encode_candle_into(&mut v, &cs[k]);
        proof {
            assert(cs.deep_view()[k as int] == cs@[k as int].deep_view());
            lemma_elems_snoc(cs.deep_view(), k as int);
            if k == 0 {
                assert(v@ =~= seq![91u8] + spec_encode_elems(cs.deep_view().take(k + 1)));
            } else {
                assert(v@ =~= seq![91u8] + spec_encode_elems(cs.deep_view().take(k + 1)));
            }
        }
        k = k + 1;
    }
    proof {
        assert(cs.deep_view().take(cs@.len() as int) =~= cs.deep_view());
    }
    v.push(93);
    proof {
        assert(v@ =~= spec_encode_candles(cs.deep_view()));
    }
    v
}

/// Encode the wire envelope `{"candles":[...]}` in its canonical form.
pub fn encode_update(u: &crate::candle::PriceUpdate) -> (v: Vec<u8>)
    ensures
        v@ == spec_encode_update(u@),
{
    let mut v: Vec<u8> = Vec::new();
    v.push(123);
    let kc = key_candles_bytes();
    append_bytes(&mut v, &kc);
    v.push(58);
    let arr = encode_candles(&u.candles);
    append_bytes(&mut v, &arr);
    v.push(125);
    proof {
        assert(v@ =~= spec_encode_update(u@));
    }
    v
}

} // verus!
