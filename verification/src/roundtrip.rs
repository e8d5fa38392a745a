//! The round-trip law of the wire format: parsing the canonical encoding of
//! any candle sequence yields that sequence again.

use vstd::prelude::*;
use crate::candle::CandleView;
use crate::candle::candle_view_wf;
use crate::codec::name_close;
use crate::codec::name_high;
use crate::codec::name_low;
use crate::codec::name_open;
use crate::codec::name_timestamp;
use crate::codec::name_volume;
use crate::codec::quoted_key;
use crate::codec::is_ws;
use crate::codec::spec_encode_candle;
use crate::codec::spec_encode_candles;
use crate::codec::spec_encode_elems;
use crate::codec::spec_expect;
use crate::codec::spec_parse_candle;
use crate::codec::spec_parse_candles;
use crate::codec::spec_parse_elems;
use crate::codec::PartialCandleView;
use crate::codec::empty_partial;
use crate::codec::quoted_name;
use crate::codec::spec_colon_number;
use crate::codec::spec_colon_u64;
use crate::codec::spec_complete;
use crate::codec::spec_parse_member;
use crate::codec::spec_parse_members;
use crate::codec::spec_parse_number;
use crate::codec::spec_skip_ws;
use crate::numtok::NumState;
use crate::numtok::digit_scan;
use crate::numtok::digits_of;
use crate::numtok::digits_val;
use crate::numtok::is_digit;
use crate::numtok::is_int_token;
use crate::numtok::is_number_token;
use crate::numtok::lemma_digit_scan_exact;
use crate::numtok::lemma_digits_of_val;
use crate::numtok::lemma_num_run_append;
use crate::numtok::lemma_num_run_reject;
use crate::numtok::lemma_num_scan_exact;
use crate::numtok::num_run;
use crate::numtok::num_scan;
use crate::numtok::num_step;
use crate::numtok::spec_parse_u64;

verus! {

/// A well-formed number token is nonempty and starts with a minus sign or a
/// digit; in particular it does not start with whitespace.
proof fn lemma_number_first(t: Seq<u8>)
    requires
        is_number_token(t),
    ensures
        t.len() > 0,
        t[0] == 45 || is_digit(t[0]),
        !is_ws(t[0]),
{
    if t.len() == 0 {
        assert(num_run(NumState::Start, t) == NumState::Start);
        assert(false);
    }
    let st1 = num_step(NumState::Start, t[0]);
    assert(t =~= seq![t[0]] + t.drop_first());
    lemma_num_run_append(NumState::Start, seq![t[0]], t.drop_first());
    assert(seq![t[0]].drop_last() =~= Seq::<u8>::empty());
    assert(num_run(NumState::Start, Seq::<u8>::empty()) == NumState::Start);
    assert(num_run(NumState::Start, seq![t[0]]) == st1);
    if !(t[0] == 45 || is_digit(t[0])) {
        assert(st1 is Reject);
        lemma_num_run_reject(st1, t.drop_first());
        assert(false);
    }
}

/// A comma, a closing bracket or a closing brace never extends a number
/// token.
proof fn lemma_delims_reject(st: NumState, b: u8)
    requires
        b == 44 || b == 93 || b == 125,
    ensures
        num_step(st, b) is Reject,
{
}

/// A subrange of a subrange: where a span of `s` equals `whole`, the part of
/// that span at offset `off` equals the same part of `whole`.
proof fn lemma_piece(s: Seq<u8>, i: int, whole: Seq<u8>, off: int, piece: Seq<u8>)
    requires
        0 <= i,
        i + whole.len() <= s.len(),
        s.subrange(i, i + whole.len()) == whole,
        0 <= off,
        off + piece.len() <= whole.len(),
        whole.subrange(off, off + piece.len()) == piece,
    ensures
        s.subrange(i + off, i + off + piece.len()) == piece,
{
    assert forall|q: int| 0 <= q < piece.len() implies s.subrange(
        i + off,
        i + off + piece.len(),
    )[q] == piece[q] by {
        assert(s.subrange(i, i + whole.len())[off + q] == s[i + off + q]);
        assert(whole.subrange(off, off + piece.len())[q] == whole[off + q]);
    }
    assert(s.subrange(i + off, i + off + piece.len()) =~= piece);
}

/// A literal whose second byte differs from the input cannot match there.
proof fn lemma_expect_differs(s: Seq<u8>, i: int, lit: Seq<u8>)
    requires
        lit.len() >= 2,
        0 <= i,
        i + 2 <= s.len(),
        s[i + 1] != lit[1],
    ensures
        spec_expect(s, i, lit) is None,
{
    if i + lit.len() <= s.len() {
        if s.subrange(i, i + lit.len()) == lit {
            assert(s.subrange(i, i + lit.len())[1] == s[i + 1]);
            assert(false);
        }
    }
}

/// The second byte of each quoted member name is the name's first letter,
/// and the six letters are pairwise distinct.
proof fn lemma_name_first_letters()
    ensures
        quoted_name(name_timestamp()).len() == 11,
        quoted_name(name_open()).len() == 6,
        quoted_name(name_high()).len() == 6,
        quoted_name(name_low()).len() == 5,
        quoted_name(name_close()).len() == 7,
        quoted_name(name_volume()).len() == 8,
        quoted_name(name_timestamp())[0] == 34,
        quoted_name(name_open())[0] == 34,
        quoted_name(name_high())[0] == 34,
        quoted_name(name_low())[0] == 34,
        quoted_name(name_close())[0] == 34,
        quoted_name(name_volume())[0] == 34,
        quoted_name(name_timestamp())[1] == 116,
        quoted_name(name_open())[1] == 111,
        quoted_name(name_high())[1] == 104,
        quoted_name(name_low())[1] == 108,
        quoted_name(name_close())[1] == 99,
        quoted_name(name_volume())[1] == 118,
{
}

/// A colon standing at `p`, followed (after no whitespace, as the canonical
/// encoding has none) by a number token whose next byte cannot extend it,
/// parses as that token.
proof fn lemma_colon_number_exact(s: Seq<u8>, p: int, t: Seq<u8>)
    requires
        0 <= p < s.len(),
        s[p] == 58,
        is_number_token(t),
        p + 1 + t.len() <= s.len(),
        s.subrange(p + 1, p + 1 + t.len()) == t,
        p + 1 + t.len() == s.len() || num_step(num_run(NumState::Start, t), s[p + 1 + t.len()])
            is Reject,
    ensures
        spec_colon_number(s, p) == Some((t, p + 1 + t.len())),
{
    let e = p + 1 + t.len();
    assert(spec_skip_ws(s, p) == p);
    assert(s.subrange(p, p + 1) =~= seq![58u8]);
    assert(spec_expect(s, p, seq![58u8]) == Some(p + 1));
    lemma_number_first(t);
    assert(s[p + 1] == t[0]);
    assert(spec_skip_ws(s, p + 1) == p + 1);
    assert(!(num_run(NumState::Start, s.subrange(p + 1, e)) is Reject));
    lemma_num_scan_exact(s, p + 1, NumState::Start, e);
    assert(spec_parse_number(s, p + 1) == Some((t, e)));
}

/// A colon standing at `p`, followed by the decimal digits of `n` and then
/// a non-digit, parses as `n`.
proof fn lemma_colon_u64_exact(s: Seq<u8>, p: int, n: u64)
    requires
        0 <= p < s.len(),
        s[p] == 58,
        p + 1 + digits_of(n as nat).len() <= s.len(),
        s.subrange(p + 1, p + 1 + digits_of(n as nat).len()) == digits_of(n as nat),
        p + 1 + digits_of(n as nat).len() == s.len() || !is_digit(
            s[p + 1 + digits_of(n as nat).len()],
        ),
    ensures
        spec_colon_u64(s, p) == Some((n, p + 1 + digits_of(n as nat).len())),
{
    let d = digits_of(n as nat);
    let e = p + 1 + d.len();
    lemma_digits_of_val(n as nat);
    assert(spec_skip_ws(s, p) == p);
    assert(s.subrange(p, p + 1) =~= seq![58u8]);
    assert(spec_expect(s, p, seq![58u8]) == Some(p + 1));
    assert(s[p + 1] == d[0]);
    assert(is_digit(d[0]));
    assert(spec_skip_ws(s, p + 1) == p + 1);
    assert forall|k: int| p + 1 <= k < e implies is_digit(s[k]) by {
        assert(s.subrange(p + 1, e)[k - p - 1] == s[k]);
    }
    lemma_digit_scan_exact(s, p + 1, e);
    assert(s.subrange(p + 1, digit_scan(s, p + 1)) == d);
    assert(is_int_token(d));
    assert(digits_val(d) == n as nat);
    assert(spec_parse_u64(s, p + 1) == Some((n, e)));
}

/// The common facts of one member standing at `i` in canonical form: the
/// quote, the name, the colon right after it, and the value bytes.
proof fn lemma_member_pieces(s: Seq<u8>, i: int, name: Seq<u8>, val: Seq<u8>)
    requires
        0 <= i,
        i + quoted_key(name).len() + val.len() <= s.len(),
        s.subrange(i, i + quoted_key(name).len() + val.len()) == quoted_key(name) + val,
    ensures
        s.subrange(i, i + quoted_name(name).len()) == quoted_name(name),
        s[i] == 34,
        i + quoted_name(name).len() < s.len(),
        s[i + quoted_name(name).len()] == 58,
        s.subrange(
            i + quoted_name(name).len() + 1,
            i + quoted_name(name).len() + 1 + val.len(),
        ) == val,
        name.len() >= 1 ==> s[i + 1] == name[0],
{
    let qn = quoted_name(name);
    let qk = quoted_key(name);
    let whole = qk + val;
    assert(qk =~= qn + seq![58u8]);
    assert(whole.subrange(0, qn.len() as int) =~= qn);
    lemma_piece(s, i, whole, 0, qn);
    assert(whole.subrange(qn.len() as int, qn.len() as int + 1) =~= seq![58u8]);
    lemma_piece(s, i, whole, qn.len() as int, seq![58u8]);
    assert(s.subrange(i + qn.len(), i + qn.len() + 1)[0] == s[i + qn.len()]);
    assert(whole.subrange(qk.len() as int, whole.len() as int) =~= val);
    lemma_piece(s, i, whole, qk.len() as int, val);
    assert(s.subrange(i, i + qn.len())[0] == s[i]);
    if name.len() >= 1 {
        assert(s.subrange(i, i + qn.len())[1] == s[i + 1]);
    }
}

/// A canonical `"timestamp":<digits>` member at `i`, followed by a
/// non-digit, parses as that member.
proof fn lemma_member_timestamp(s: Seq<u8>, i: int, acc: PartialCandleView, n: u64)
    requires
        0 <= i,
        acc.timestamp is None,
        i + quoted_key(name_timestamp()).len() + digits_of(n as nat).len() <= s.len(),
        s.subrange(i, i + quoted_key(name_timestamp()).len() + digits_of(n as nat).len())
            == quoted_key(name_timestamp()) + digits_of(n as nat),
        i + quoted_key(name_timestamp()).len() + digits_of(n as nat).len() == s.len() || !is_digit(
            s[i + quoted_key(name_timestamp()).len() + digits_of(n as nat).len()],
        ),
    ensures
        spec_parse_member(s, i, acc) == Some(
            (
                PartialCandleView {
                    timestamp: Some(n),
                    open: acc.open,
                    high: acc.high,
                    low: acc.low,
                    close: acc.close,
                    volume: acc.volume,
                },
                i + quoted_key(name_timestamp()).len() + digits_of(n as nat).len(),
            ),
        ),
{
    lemma_name_first_letters();
    lemma_member_pieces(s, i, name_timestamp(), digits_of(n as nat));
    assert(spec_skip_ws(s, i) == i);
    assert(spec_expect(s, i, quoted_name(name_timestamp())) == Some(i + 11));
    lemma_colon_u64_exact(s, i + 11, n);
}

/// A canonical price member at `i` under one of the five price names,
/// followed by a byte that cannot extend the number token, parses as that
/// member. `which` selects the field: 0 open, 1 high, 2 low, 3 close,
/// 4 volume.
proof fn lemma_member_price(s: Seq<u8>, i: int, acc: PartialCandleView, which: int, t: Seq<u8>)
    requires
        0 <= i,
        0 <= which < 5,
        is_number_token(t),
        ({
            let name = price_name(which);
            &&& (which == 0 ==> acc.open is None)
            &&& (which == 1 ==> acc.high is None)
            &&& (which == 2 ==> acc.low is None)
            &&& (which == 3 ==> acc.close is None)
            &&& (which == 4 ==> acc.volume is None)
            &&& i + quoted_key(name).len() + t.len() <= s.len()
            &&& s.subrange(i, i + quoted_key(name).len() + t.len()) == quoted_key(name) + t
            &&& (i + quoted_key(name).len() + t.len() == s.len() || num_step(
                num_run(NumState::Start, t),
                s[i + quoted_key(name).len() + t.len()],
            ) is Reject)
        }),
    ensures
        spec_parse_member(s, i, acc) == Some(
            (price_updated(acc, which, t), i + quoted_key(price_name(which)).len() + t.len()),
        ),
{
    lemma_name_first_letters();
    let name = price_name(which);
    let qn = quoted_name(name);
    lemma_member_pieces(s, i, name, t);
    assert(spec_skip_ws(s, i) == i);
    // the names all differ in their first letter, so exactly one key matches
    assert(i + 2 <= s.len());
    lemma_expect_differs(s, i, quoted_name(name_timestamp()));
    if which == 0 {
        assert(spec_expect(s, i, qn) == Some(i + 6));
        lemma_colon_number_exact(s, i + 6, t);
    } else if which == 1 {
        lemma_expect_differs(s, i, quoted_name(name_open()));
        assert(spec_expect(s, i, qn) == Some(i + 6));
        lemma_colon_number_exact(s, i + 6, t);
    } else if which == 2 {
        lemma_expect_differs(s, i, quoted_name(name_open()));
        lemma_expect_differs(s, i, quoted_name(name_high()));
        assert(spec_expect(s, i, qn) == Some(i + 5));
        lemma_colon_number_exact(s, i + 5, t);
    } else if which == 3 {
        lemma_expect_differs(s, i, quoted_name(name_open()));
        lemma_expect_differs(s, i, quoted_name(name_high()));
        lemma_expect_differs(s, i, quoted_name(name_low()));
        assert(spec_expect(s, i, qn) == Some(i + 7));
        lemma_colon_number_exact(s, i + 7, t);
    } else {
        lemma_expect_differs(s, i, quoted_name(name_open()));
        lemma_expect_differs(s, i, quoted_name(name_high()));
        lemma_expect_differs(s, i, quoted_name(name_low()));
        lemma_expect_differs(s, i, quoted_name(name_close()));
        assert(spec_expect(s, i, qn) == Some(i + 8));
        lemma_colon_number_exact(s, i + 8, t);
    }
}

/// The name of the price field selected by `which`.
spec fn price_name(which: int) -> Seq<u8> {
    if which == 0 {
        name_open()
    } else if which == 1 {
        name_high()
    } else if which == 2 {
        name_low()
    } else if which == 3 {
        name_close()
    } else {
        name_volume()
    }
}

/// The accumulator with the price field selected by `which` set to `t`.
spec fn price_updated(acc: PartialCandleView, which: int, t: Seq<u8>) -> PartialCandleView {
    if which == 0 {
        PartialCandleView {
            timestamp: acc.timestamp,
            open: Some(t),
            high: acc.high,
            low: acc.low,
            close: acc.close,
            volume: acc.volume,
        }
    } else if which == 1 {
        PartialCandleView {
            timestamp: acc.timestamp,
            open: acc.open,
            high: Some(t),
            low: acc.low,
            close: acc.close,
            volume: acc.volume,
        }
    } else if which == 2 {
        PartialCandleView {
            timestamp: acc.timestamp,
            open: acc.open,
            high: acc.high,
            low: Some(t),
            close: acc.close,
            volume: acc.volume,
        }
    } else if which == 3 {
        PartialCandleView {
            timestamp: acc.timestamp,
            open: acc.open,
            high: acc.high,
            low: acc.low,
            close: Some(t),
            volume: acc.volume,
        }
    } else {
        PartialCandleView {
            timestamp: acc.timestamp,
            open: acc.open,
            high: acc.high,
            low: acc.low,
            close: acc.close,
            volume: Some(t),
        }
    }
}

/// Parsing at the place where the canonical encoding of a candle stands
/// yields that candle and stops right after its closing brace.
#[verifier::rlimit(100)]
proof fn lemma_candle_exact(s: Seq<u8>, i: int, c: CandleView)
    requires
        candle_view_wf(c),
        0 <= i,
        i + spec_encode_candle(c).len() <= s.len(),
        s.subrange(i, i + spec_encode_candle(c).len()) == spec_encode_candle(c),
    ensures
        spec_parse_candle(s, i) == Some((c, i + spec_encode_candle(c).len())),
{
    let enc = spec_encode_candle(c);
    let kts = quoted_key(name_timestamp());
    let dts = digits_of(c.timestamp as nat);
    let ko = quoted_key(name_open());
    let kh = quoted_key(name_high());
    let kl = quoted_key(name_low());
    let kc = quoted_key(name_close());
    let kv = quoted_key(name_volume());
    lemma_digits_of_val(c.timestamp as nat);
    // offsets of the pieces inside the encoding
    let o1 = 1int;
    let o2 = o1 + kts.len() + dts.len();  // at the comma after the timestamp
    let o3 = o2 + 1;
    let o4 = o3 + ko.len() + c.open.len();
    let o5 = o4 + 1;
    let o6 = o5 + kh.len() + c.high.len();
    let o7 = o6 + 1;
    let o8 = o7 + kl.len() + c.low.len();
    let o9 = o8 + 1;
    let o10 = o9 + kc.len() + c.close.len();
    let o11 = o10 + 1;
    let o12 = o11 + kv.len() + c.volume.len();  // at the closing brace
    assert(enc.len() == o12 + 1);
    // each piece of the encoding stands at its offset
    assert(enc.subrange(0, 1) =~= seq![123u8]);
    assert(enc.subrange(o1, o2) =~= kts + dts);
    assert(enc.subrange(o2, o3) =~= seq![44u8]);
    assert(enc.subrange(o3, o4) =~= ko + c.open);
    assert(enc.subrange(o4, o5) =~= seq![44u8]);
    assert(enc.subrange(o5, o6) =~= kh + c.high);
    assert(enc.subrange(o6, o7) =~= seq![44u8]);
    assert(enc.subrange(o7, o8) =~= kl + c.low);
    assert(enc.subrange(o8, o9) =~= seq![44u8]);
    assert(enc.subrange(o9, o10) =~= kc + c.close);
    assert(enc.subrange(o10, o11) =~= seq![44u8]);
    assert(enc.subrange(o11, o12) =~= kv + c.volume);
    assert(enc.subrange(o12, o12 + 1) =~= seq![125u8]);
    lemma_piece(s, i, enc, 0, seq![123u8]);
    lemma_piece(s, i, enc, o1, kts + dts);
    lemma_piece(s, i, enc, o2, seq![44u8]);
    lemma_piece(s, i, enc, o3, ko + c.open);
    lemma_piece(s, i, enc, o4, seq![44u8]);
    lemma_piece(s, i, enc, o5, kh + c.high);
    lemma_piece(s, i, enc, o6, seq![44u8]);
    lemma_piece(s, i, enc, o7, kl + c.low);
    lemma_piece(s, i, enc, o8, seq![44u8]);
    lemma_piece(s, i, enc, o9, kc + c.close);
    lemma_piece(s, i, enc, o10, seq![44u8]);
    lemma_piece(s, i, enc, o11, kv + c.volume);
    lemma_piece(s, i, enc, o12, seq![125u8]);
    // the opening brace
    assert(s.subrange(i, i + 1)[0] == s[i]);
    assert(s[i] == 123);
    assert(s.subrange(i, i + 1) =~= seq![123u8]);
    assert(spec_expect(s, i, seq![123u8]) == Some(i + 1));
    // the separating commas and the closing brace
    assert(s.subrange(i + o2, i + o2 + 1)[0] == s[i + o2]);
    assert(s[i + o2] == 44);
    assert(s.subrange(i + o4, i + o4 + 1)[0] == s[i + o4]);
    assert(s[i + o4] == 44);
    assert(s.subrange(i + o6, i + o6 + 1)[0] == s[i + o6]);
    assert(s[i + o6] == 44);
    assert(s.subrange(i + o8, i + o8 + 1)[0] == s[i + o8]);
    assert(s[i + o8] == 44);
    assert(s.subrange(i + o10, i + o10 + 1)[0] == s[i + o10]);
    assert(s[i + o10] == 44);
    assert(s.subrange(i + o12, i + o12 + 1)[0] == s[i + o12]);
    assert(s[i + o12] == 125);
    // the six members, one after the other, each ending at a comma or at
    // the closing brace
    let acc0 = empty_partial();
    lemma_member_timestamp(s, i + o1, acc0, c.timestamp);
    let acc1 = PartialCandleView { timestamp: Some(c.timestamp), ..acc0 };
    assert(spec_parse_member(s, i + o1, acc0) == Some((acc1, i + o2)));
    assert(spec_skip_ws(s, i + o2) == i + o2);
    lemma_delims_reject(num_run(NumState::Start, c.open), 44);
    lemma_member_price(s, i + o3, acc1, 0, c.open);
    let acc2 = PartialCandleView { open: Some(c.open), ..acc1 };
    assert(spec_parse_member(s, i + o3, acc1) == Some((acc2, i + o4)));
    assert(spec_skip_ws(s, i + o4) == i + o4);
    lemma_delims_reject(num_run(NumState::Start, c.high), 44);
    lemma_member_price(s, i + o5, acc2, 1, c.high);
    let acc3 = PartialCandleView { high: Some(c.high), ..acc2 };
    assert(spec_parse_member(s, i + o5, acc2) == Some((acc3, i + o6)));
    assert(spec_skip_ws(s, i + o6) == i + o6);
    lemma_delims_reject(num_run(NumState::Start, c.low), 44);
    lemma_member_price(s, i + o7, acc3, 2, c.low);
    let acc4 = PartialCandleView { low: Some(c.low), ..acc3 };
    assert(spec_parse_member(s, i + o7, acc3) == Some((acc4, i + o8)));
    assert(spec_skip_ws(s, i + o8) == i + o8);
    lemma_delims_reject(num_run(NumState::Start, c.close), 44);
    lemma_member_price(s, i + o9, acc4, 3, c.close);
    let acc5 = PartialCandleView { close: Some(c.close), ..acc4 };
    assert(spec_parse_member(s, i + o9, acc4) == Some((acc5, i + o10)));
    assert(spec_skip_ws(s, i + o10) == i + o10);
    lemma_delims_reject(num_run(NumState::Start, c.volume), 125);
    lemma_member_price(s, i + o11, acc5, 4, c.volume);
    let acc6 = PartialCandleView { volume: Some(c.volume), ..acc5 };
    assert(spec_parse_member(s, i + o11, acc5) == Some((acc6, i + o12)));
    assert(spec_skip_ws(s, i + o12) == i + o12);
    // the object closes with all six members present
    assert(spec_complete(acc6) == Some(c));
    assert(spec_parse_members(s, i + o11, acc5) == Some((c, i + o12 + 1)));
    assert(spec_parse_members(s, i + o9, acc4) == Some((c, i + o12 + 1)));
    assert(spec_parse_members(s, i + o7, acc3) == Some((c, i + o12 + 1)));
    assert(spec_parse_members(s, i + o5, acc2) == Some((c, i + o12 + 1)));
    assert(spec_parse_members(s, i + o3, acc1) == Some((c, i + o12 + 1)));
    assert(spec_parse_members(s, i + o1, acc0) == Some((c, i + o12 + 1)));
    assert(spec_parse_candle(s, i) == Some((c, i + enc.len())));
}

/// Parsing at the place where the canonical encodings of one or more
/// candles stand, separated by commas and closed by the bracket, yields
/// exactly those candles.
#[verifier::rlimit(100)]
proof fn lemma_elems_exact(s: Seq<u8>, i: int, cs: Seq<CandleView>)
    requires
        cs.len() >= 1,
        forall|k: int| 0 <= k < cs.len() ==> candle_view_wf(cs[k]),
        0 <= i,
        i + spec_encode_elems(cs).len() + 1 <= s.len(),
        s.subrange(i, i + spec_encode_elems(cs).len() + 1) == spec_encode_elems(cs) + seq![93u8],
    ensures
        spec_parse_elems(s, i) == Some((cs, i + spec_encode_elems(cs).len() + 1)),
    decreases cs.len(),
{
    let whole = spec_encode_elems(cs) + seq![93u8];
    let c0 = cs[0];
    let enc0 = spec_encode_candle(c0);
    let e = i + spec_encode_elems(cs).len() + 1;
    if cs.len() == 1 {
        assert(spec_encode_elems(cs) == enc0);
        assert(whole.subrange(0, enc0.len() as int) =~= enc0);
        lemma_piece(s, i, whole, 0, enc0);
        lemma_candle_exact(s, i, c0);
        let j = i + enc0.len();
        assert(whole.subrange(enc0.len() as int, enc0.len() as int + 1) =~= seq![93u8]);
        lemma_piece(s, i, whole, enc0.len() as int, seq![93u8]);
        assert(s.subrange(j, j + 1)[0] == s[j]);
        assert(s[j] == 93);
        assert(enc0.len() >= 1);
        assert(spec_skip_ws(s, j) == j);
        assert(spec_parse_elems(s, i) == Some((seq![c0], j + 1)));
        assert(seq![c0] =~= cs);
    } else {
        let rest = cs.drop_first();
        assert(spec_encode_elems(cs) == enc0 + seq![44u8] + spec_encode_elems(rest));
        let j = i + enc0.len();
        assert(whole.subrange(0, enc0.len() as int) =~= enc0);
        lemma_piece(s, i, whole, 0, enc0);
        lemma_candle_exact(s, i, c0);
        assert(whole.subrange(enc0.len() as int, enc0.len() as int + 1) =~= seq![44u8]);
        lemma_piece(s, i, whole, enc0.len() as int, seq![44u8]);
        assert(s.subrange(j, j + 1)[0] == s[j]);
        assert(s[j] == 44);
        assert(spec_skip_ws(s, j) == j);
        // everything after the comma is the encoding of the rest, closed by
        // the same bracket
        let off = enc0.len() + 1;
        assert(whole.subrange(off as int, whole.len() as int) =~= spec_encode_elems(rest)
            + seq![93u8]);
        lemma_piece(s, i, whole, off as int, spec_encode_elems(rest) + seq![93u8]);
        assert(s.subrange(j + 1, e) == spec_encode_elems(rest) + seq![93u8]);
        lemma_elems_exact(s, j + 1, rest);
        // the next candle begins with its opening brace, so no whitespace
        // is skipped after the comma
        let encr = spec_encode_candle(rest[0]);
        assert(spec_encode_elems(rest).len() >= 1) by {
            if rest.len() == 1 {
                assert(spec_encode_elems(rest) == encr);
            } else {
                assert(spec_encode_elems(rest) == encr + seq![44u8] + spec_encode_elems(
                    rest.drop_first(),
                ));
            }
            assert(encr.len() >= 1);
            assert(encr[0] == 123);
        }
        assert(s.subrange(j + 1, e)[0] == s[j + 1]);
        assert((spec_encode_elems(rest) + seq![93u8])[0] == spec_encode_elems(rest)[0]);
        assert(spec_encode_elems(rest)[0] == 123) by {
            if rest.len() == 1 {
                assert(spec_encode_elems(rest) == encr);
            } else {
                assert(spec_encode_elems(rest) == encr + seq![44u8] + spec_encode_elems(
                    rest.drop_first(),
                ));
            }
            assert(encr[0] == 123);
        }
        assert(s[j + 1] == 123);
        assert(spec_skip_ws(s, j + 1) == j + 1);
        assert(spec_parse_elems(s, i) == Some((seq![c0] + rest, e)));
        assert(seq![c0] + rest =~= cs);
    }
}

/// The round-trip law of the wire format: the canonical encoding of any
/// well-formed candle sequence parses back to exactly that sequence. In
/// particular the parse yields as many candles as were encoded.
pub proof fn lemma_parse_of_encode(cs: Seq<CandleView>)
    requires
        forall|k: int| 0 <= k < cs.len() ==> candle_view_wf(cs[k]),
    ensures
        spec_parse_candles(spec_encode_candles(cs)) == Some(cs),
{
    let s = spec_encode_candles(cs);
    assert(s == seq![91u8] + spec_encode_elems(cs) + seq![93u8]);
    assert(s[0] == 91);
    assert(spec_skip_ws(s, 0) == 0);
    assert(s.subrange(0, 1) =~= seq![91u8]);
    assert(spec_expect(s, 0, seq![91u8]) == Some(1int));
    if cs.len() == 0 {
        assert(spec_encode_elems(cs) == Seq::<u8>::empty());
        assert(s.len() == 2);
        assert(s[1] == 93);
        assert(spec_skip_ws(s, 1) == 1);
        assert(spec_skip_ws(s, 2) == 2);
        assert(spec_parse_candles(s) == Some(Seq::<CandleView>::empty()));
        assert(Seq::<CandleView>::empty() =~= cs);
    } else {
        let enc0 = spec_encode_candle(cs[0]);
        assert(spec_encode_elems(cs)[0] == 123) by {
            if cs.len() == 1 {
                assert(spec_encode_elems(cs) == enc0);
            } else {
                assert(spec_encode_elems(cs) == enc0 + seq![44u8] + spec_encode_elems(
                    cs.drop_first(),
                ));
            }
            assert(enc0[0] == 123);
        }
        assert(s[1] == spec_encode_elems(cs)[0]);
        assert(spec_skip_ws(s, 1) == 1);
        assert(s.subrange(1, s.len() as int) =~= spec_encode_elems(cs) + seq![93u8]);
        lemma_elems_exact(s, 1, cs);
        assert(spec_parse_elems(s, 1) == Some((cs, s.len() as int)));
        assert(spec_skip_ws(s, s.len() as int) == s.len());
        assert(spec_parse_candles(s) == Some(cs));
    }
}

} // verus!
