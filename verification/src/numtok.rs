//! Lexical layer of the wire format: JSON number tokens and decimal integers.
//!
//! A price field travels as the exact text of a JSON number, so the library
//! recognizes number tokens with a small state machine, and reads and writes
//! unsigned decimal integers for timestamps.

use vstd::prelude::*;

verus! {

/// One byte is an ASCII decimal digit.
pub open spec fn is_digit(b: u8) -> bool {
    48 <= b && b <= 57
}

/// States of the recognizer for JSON number tokens.
#[derive(Clone, Copy, PartialEq, Eq, Structural)]
pub enum NumState {
    Start,
    Minus,
    IntZero,
    IntDigits,
    Dot,
    Frac,
    ExpMark,
    ExpSign,
    ExpDigits,
    Reject,
}

/// One transition of the number recognizer.
pub open spec fn num_step(st: NumState, b: u8) -> NumState {
    match st {
        NumState::Start => if b == 45 {
            NumState::Minus
        } else if b == 48 {
            NumState::IntZero
        } else if 49 <= b && b <= 57 {
            NumState::IntDigits
        } else {
            NumState::Reject
        },
        NumState::Minus => if b == 48 {
            NumState::IntZero
        } else if 49 <= b && b <= 57 {
            NumState::IntDigits
        } else {
            NumState::Reject
        },
        NumState::IntZero => if b == 46 {
            NumState::Dot
        } else if b == 101 || b == 69 {
            NumState::ExpMark
        } else {
            NumState::Reject
        },
        NumState::IntDigits => if is_digit(b) {
            NumState::IntDigits
        } else if b == 46 {
            NumState::Dot
        } else if b == 101 || b == 69 {
            NumState::ExpMark
        } else {
            NumState::Reject
        },
        NumState::Dot => if is_digit(b) {
            NumState::Frac
        } else {
            NumState::Reject
        },
        NumState::Frac => if is_digit(b) {
            NumState::Frac
        } else if b == 101 || b == 69 {
            NumState::ExpMark
        } else {
            NumState::Reject
        },
        NumState::ExpMark => if b == 43 || b == 45 {
            NumState::ExpSign
        } else if is_digit(b) {
            NumState::ExpDigits
        } else {
            NumState::Reject
        },
        NumState::ExpSign => if is_digit(b) {
            NumState::ExpDigits
        } else {
            NumState::Reject
        },
        NumState::ExpDigits => if is_digit(b) {
            NumState::ExpDigits
        } else {
            NumState::Reject
        },
        NumState::Reject => NumState::Reject,
    }
}

/// Executable twin of `num_step`.
pub fn num_step_exec(st: NumState, b: u8) -> (r: NumState)
    ensures
        r == num_step(st, b),
{
    match st {
        NumState::Start => if b == 45 {
            NumState::Minus
        } else if b == 48 {
            NumState::IntZero
        } else if 49 <= b && b <= 57 {
            NumState::IntDigits
        } else {
            NumState::Reject
        },
        NumState::Minus => if b == 48 {
            NumState::IntZero
        } else if 49 <= b && b <= 57 {
            NumState::IntDigits
        } else {
            NumState::Reject
        },
        NumState::IntZero => if b == 46 {
            NumState::Dot
        } else if b == 101 || b == 69 {
            NumState::ExpMark
        } else {
            NumState::Reject
        },
        NumState::IntDigits => if 48 <= b && b <= 57 {
            NumState::IntDigits
        } else if b == 46 {
            NumState::Dot
        } else if b == 101 || b == 69 {
            NumState::ExpMark
        } else {
            NumState::Reject
        },
        NumState::Dot => if 48 <= b && b <= 57 {
            NumState::Frac
        } else {
            NumState::Reject
        },
        NumState::Frac => if 48 <= b && b <= 57 {
            NumState::Frac
        } else if b == 101 || b == 69 {
            NumState::ExpMark
        } else {
            NumState::Reject
        },
        NumState::ExpMark => if b == 43 || b == 45 {
            NumState::ExpSign
        } else if 48 <= b && b <= 57 {
            NumState::ExpDigits
        } else {
            NumState::Reject
        },
        NumState::ExpSign => if 48 <= b && b <= 57 {
            NumState::ExpDigits
        } else {
            NumState::Reject
        },
        NumState::ExpDigits => if 48 <= b && b <= 57 {
            NumState::ExpDigits
        } else {
            NumState::Reject
        },
        NumState::Reject => NumState::Reject,
    }
}

/// States in which the bytes read so far form a complete number token.
pub open spec fn num_accepts(st: NumState) -> bool {
    match st {
        NumState::IntZero | NumState::IntDigits | NumState::Frac | NumState::ExpDigits => true,
        _ => false,
    }
}

/// Executable twin of `num_accepts`.
pub fn num_accepts_exec(st: NumState) -> (r: bool)
    ensures
        r == num_accepts(st),
{
    match st {
        NumState::IntZero | NumState::IntDigits | NumState::Frac | NumState::ExpDigits => true,
        _ => false,
    }
}

/// The state after running the recognizer from `st` over all of `s`.
pub open spec fn num_run(st: NumState, s: Seq<u8>) -> NumState
    decreases s.len(),
{
    if s.len() == 0 {
        st
    } else {
        num_step(num_run(st, s.drop_last()), s.last())
    }
}

/// A byte sequence is exactly one well-formed JSON number token.
pub open spec fn is_number_token(s: Seq<u8>) -> bool {
    num_accepts(num_run(NumState::Start, s))
}

/// Running the recognizer over a concatenation runs it over each part in turn.
pub proof fn lemma_num_run_append(st: NumState, a: Seq<u8>, b: Seq<u8>)
    ensures
        num_run(st, a + b) == num_run(num_run(st, a), b),
    decreases b.len(),
{
    if b.len() == 0 {
        assert(a + b =~= a);
    } else {
        assert((a + b).drop_last() =~= a + b.drop_last());
        lemma_num_run_append(st, a, b.drop_last());
        assert((a + b).last() == b.last());
    }
}

/// The reject state absorbs every further byte.
pub proof fn lemma_num_run_reject(st: NumState, s: Seq<u8>)
    requires
        st is Reject,
    ensures
        num_run(st, s) is Reject,
    decreases s.len(),
{
    if s.len() == 0 {
    } else {
        lemma_num_run_reject(st, s.drop_last());
    }
}

/// Where a number token that begins at `i` ends: the scan extends while the
/// next byte keeps the recognizer out of the reject state.
pub open spec fn num_scan(s: Seq<u8>, i: int, st: NumState) -> int
    decreases s.len() - i,
        when 0 <= i <= s.len()
{
    if i == s.len() {
        i
    } else if num_step(st, s[i]) is Reject {
        i
    } else {
        num_scan(s, i + 1, num_step(st, s[i]))
    }
}

pub proof fn lemma_num_scan_range(s: Seq<u8>, i: int, st: NumState)
    requires
        0 <= i <= s.len(),
    ensures
        i <= num_scan(s, i, st) <= s.len(),
    decreases s.len() - i,
{
    if i == s.len() {
    } else if num_step(st, s[i]) is Reject {
    } else {
        lemma_num_scan_range(s, i + 1, num_step(st, s[i]));
    }
}

/// A scan that starts at the front of a token which the recognizer accepts,
/// and whose following byte (if any) would be rejected, ends exactly at the
/// token's end.
pub proof fn lemma_num_scan_exact(s: Seq<u8>, i: int, st: NumState, j: int)
    requires
        0 <= i <= j <= s.len(),
        !(num_run(st, s.subrange(i, j)) is Reject),
        j == s.len() || num_step(num_run(st, s.subrange(i, j)), s[j]) is Reject,
    ensures
        num_scan(s, i, st) == j,
    decreases j - i,
{
    if i == j {
        assert(s.subrange(i, j) =~= Seq::<u8>::empty());
    } else {
        let st1 = num_step(st, s[i]);
        assert(s.subrange(i, j) =~= seq![s[i]] + s.subrange(i + 1, j));
        lemma_num_run_append(st, seq![s[i]], s.subrange(i + 1, j));
        assert(seq![s[i]].drop_last() =~= Seq::<u8>::empty());
        assert(num_run(st, Seq::<u8>::empty()) == st);
        assert(num_run(st, seq![s[i]]) == num_step(num_run(st, seq![s[i]].drop_last()), s[i]));
        assert(num_run(st, seq![s[i]]) == st1);
        if st1 is Reject {
            lemma_num_run_reject(st1, s.subrange(i + 1, j));
            assert(false);
        }
        lemma_num_scan_exact(s, i + 1, st1, j);
    }
}

/// Scan one number token of `s` starting at `i`: returns where the token ends
/// and whether the scanned text is a well-formed number token.
pub fn scan_number(s: &Vec<u8>, i: usize) -> (r: (usize, bool))
    requires
        i <= s@.len(),
    ensures
        r.0 as int == num_scan(s@, i as int, NumState::Start),
        i <= r.0 <= s@.len(),
        r.1 == is_number_token(s@.subrange(i as int, r.0 as int)),
{
    let mut j: usize = i;
    let mut st: NumState = NumState::Start;
    loop
        invariant
            i <= j <= s@.len(),
            st == num_run(NumState::Start, s@.subrange(i as int, j as int)),
            num_scan(s@, i as int, NumState::Start) == num_scan(s@, j as int, st),
        ensures
            i <= j <= s@.len(),
            st == num_run(NumState::Start, s@.subrange(i as int, j as int)),
            num_scan(s@, i as int, NumState::Start) == j,
        decreases s@.len() - j,
    {
        proof {
            assert(s@.subrange(i as int, i as int) =~= Seq::<u8>::empty());
        }
        if j == s.len() {
            break;
        }
        let nx = num_step_exec(st, s[j]);
        if nx == NumState::Reject {
            break;
        }
        proof {
            assert(s@.subrange(i as int, (j + 1) as int).drop_last() =~= s@.subrange(
                i as int,
                j as int,
            ));
            assert(s@.subrange(i as int, (j + 1) as int).last() == s@[j as int]);
        }
        st = nx;
        j = j + 1;
    }
    let ok = num_accepts_exec(st);
    (j, ok)
}

/// Where a run of decimal digits that begins at `i` ends.
pub open spec fn digit_scan(s: Seq<u8>, i: int) -> int
    decreases s.len() - i,
        when 0 <= i <= s.len()
{
    if i < s.len() && is_digit(s[i]) {
        digit_scan(s, i + 1)
    } else {
        i
    }
}

pub proof fn lemma_digit_scan_range(s: Seq<u8>, i: int)
    requires
        0 <= i <= s.len(),
    ensures
        i <= digit_scan(s, i) <= s.len(),
    decreases s.len() - i,
{
    if i < s.len() && is_digit(s[i]) {
        lemma_digit_scan_range(s, i + 1);
    }
}

/// A digit scan over a known digit run followed by a non-digit ends exactly
/// at the end of the run.
pub proof fn lemma_digit_scan_exact(s: Seq<u8>, i: int, j: int)
    requires
        0 <= i <= j <= s.len(),
        forall|k: int| i <= k < j ==> is_digit(s[k]),
        j == s.len() || !is_digit(s[j]),
    ensures
        digit_scan(s, i) == j,
    decreases j - i,
{
    if i < j {
        lemma_digit_scan_exact(s, i + 1, j);
    }
}

/// The value of a sequence of decimal digits, most significant first.
pub open spec fn digits_val(s: Seq<u8>) -> int
    decreases s.len(),
{
    if s.len() == 0 {
        0
    } else {
        digits_val(s.drop_last()) * 10 + (s.last() - 48)
    }
}

/// A byte sequence is one well-formed JSON unsigned integer token:
/// nonempty digits with no superfluous leading zero.
pub open spec fn is_int_token(s: Seq<u8>) -> bool {
    &&& s.len() > 0
    &&& forall|k: int| 0 <= k < s.len() ==> is_digit(s[k])
    &&& (s[0] == 48 ==> s.len() == 1)
}

/// The canonical decimal digits of a natural number.
pub open spec fn digits_of(n: nat) -> Seq<u8>
    decreases n,
{
    if n < 10 {
        seq![(48 + n) as u8]
    } else {
        digits_of(n / 10).push((48 + n % 10) as u8)
    }
}

/// The canonical digits of `n` form a well-formed integer token whose value
/// is `n` again.
pub proof fn lemma_digits_of_val(n: nat)
    ensures
        digits_of(n).len() >= 1,
        is_int_token(digits_of(n)),
        digits_val(digits_of(n)) == n,
        n > 0 ==> digits_of(n)[0] != 48,
    decreases n,
{
    if n < 10 {
        assert(digits_of(n) =~= seq![(48 + n) as u8]);
        assert(digits_val(digits_of(n)) == digits_val(
            digits_of(n).drop_last(),
        ) * 10 + (digits_of(n).last() - 48));
        assert(digits_of(n).drop_last() =~= Seq::<u8>::empty());
    } else {
        lemma_digits_of_val(n / 10);
        let pre = digits_of(n / 10);
        let d = (48 + n % 10) as u8;
        assert(pre.push(d).drop_last() =~= pre);
        assert(pre.push(d).last() == d);
        assert(n / 10 * 10 + n % 10 == n);
        assert(digits_of(n)[0] == pre[0]);
        assert(n / 10 > 0);
    }
}

/// Read an unsigned decimal integer token at `i`: its value and where it
/// ends, or nothing where the text there is not a well-formed `u64`.
pub fn parse_u64_at(s: &Vec<u8>, i: usize) -> (r: Option<(u64, usize)>)
    requires
        i <= s@.len(),
    ensures
        match r {
            Some(p) => {
                &&& spec_parse_u64(s@, i as int) == Some((p.0, p.1 as int))
                &&& i <= p.1 <= s@.len()
            },
            None => spec_parse_u64(s@, i as int) is None,
        },
{
    let mut j: usize = i;
    let mut val: u64 = 0;
    let mut over = false;
    loop
        invariant
            i <= j <= s@.len(),
            forall|k: int| i as int <= k < j as int ==> is_digit(s@[k]),
            digit_scan(s@, i as int) == digit_scan(s@, j as int),
            !over ==> val == digits_val(s@.subrange(i as int, j as int)),
            over ==> digits_val(s@.subrange(i as int, j as int)) > u64::MAX,
        ensures
            i <= j <= s@.len(),
            digit_scan(s@, i as int) == j,
            forall|k: int| i as int <= k < j as int ==> is_digit(s@[k]),
            !over ==> val == digits_val(s@.subrange(i as int, j as int)),
            over ==> digits_val(s@.subrange(i as int, j as int)) > u64::MAX,
        decreases s@.len() - j,
    {
        proof {
            assert(s@.subrange(i as int, i as int) =~= Seq::<u8>::empty());
        }
        if j == s.len() {
            break;
        }
        let b: u8 = s[j];
        if !(48 <= b && b <= 57) {
            break;
        }
        let d: u8 = b - 48;
        proof {
            let t0 = s@.subrange(i as int, j as int);
            let t1 = s@.subrange(i as int, (j + 1) as int);
            assert(t1.drop_last() =~= t0);
            assert(t1.last() == s@[j as int]);
        }
        if over {
            // the value already exceeds u64::MAX, and more digits keep it there
        } else if val > u64::MAX / 10 || (val == u64::MAX / 10 && d > 5) {
            over = true;
        } else {
            val = val * 10 + (d as u64);
        }
        j = j + 1;
    }
    let t_ghost: Ghost<Seq<u8>> = Ghost(s@.subrange(i as int, j as int));
    if j == i {
        // no digits at all
        return None;
    }
    if s[i] == 48 && j > i + 1 {
        // a superfluous leading zero is not a well-formed integer token
        proof {
            assert(!is_int_token(t_ghost@));
        }
        return None;
    }
    if over {
        return None;
    }
    proof {
        assert(t_ghost@[0] == s@[i as int]);
        assert(is_int_token(t_ghost@));
    }
    Some((val, j))
}

/// Read an unsigned decimal integer at `i`: a digit run forming a
/// well-formed token whose value fits in a `u64`.
pub open spec fn spec_parse_u64(s: Seq<u8>, i: int) -> Option<(u64, int)> {
    let j = digit_scan(s, i);
    let t = s.subrange(i, j);
    if is_int_token(t) && digits_val(t) <= u64::MAX {
        Some((digits_val(t) as u64, j))
    } else {
        None
    }
}

/// Write `n` in decimal, most significant digit first.
pub fn u64_to_decimal(n: u64) -> (v: Vec<u8>)
    ensures
        v@ == digits_of(n as nat),
    decreases n,
{
    if n < 10 {
        let mut v: Vec<u8> = Vec::new();
        v.push(48 + (n as u8));
        proof {
            assert(v@ =~= digits_of(n as nat));
        }
        v
    } else {
        let mut v = u64_to_decimal(n / 10);
        v.push(48 + ((n % 10) as u8));
        proof {
            assert(v@ =~= digits_of(n as nat));
        }
        v
    }
}

} // verus!
