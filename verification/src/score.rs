//! Scores as whole tenths of a point, and how a score is read from text.

use crate::text::{chars_of, first_index_of, lemma_first_index_is};
use vstd::prelude::*;

verus! {

/// A score in tenths of a point: 123.5 points are the integer 1235.
pub type Score = i64;

/// A score together with the time of the file it was read from, in whole
/// seconds relative to the Unix epoch.
#[derive(Clone, Copy, Debug)]
pub struct TimedScore {
    pub score: Score,
    pub time: Option<i64>,
}

impl View for TimedScore {
    type V = TimedScore;

    open spec fn view(&self) -> TimedScore {
        *self
    }
}

/// The larger of two scores.
pub open spec fn max_score(a: int, b: int) -> int {
    if a >= b {
        a
    } else {
        b
    }
}

/// `c` is one of the ten decimal digits.
pub open spec fn is_digit(c: char) -> bool {
    '0' <= c <= '9'
}

/// The value of a decimal digit.
pub open spec fn digit_value(c: char) -> int {
    c as int - '0' as int
}

/// Every character of `s` is a decimal digit.
pub open spec fn all_digits(s: Seq<char>) -> bool {
    forall|i: int| 0 <= i < s.len() ==> is_digit(#[trigger] s[i])
}

/// The number that a run of decimal digits writes.
pub open spec fn digits_value(s: Seq<char>) -> nat
    decreases s.len(),
{
    if s.len() == 0 {
        0
    } else {
        (digits_value(s.drop_last()) * 10 + digit_value(s.last())) as nat
    }
}

/// The tenths that an unsigned decimal writes, rounded half up on the second
/// decimal place: digits, then optionally a point and more digits, with at
/// least one digit in all.
pub open spec fn unsigned_tenths(body: Seq<char>) -> Option<int> {
    let dot = first_index_of(body, '.');
    let whole = body.take(dot);
    let fraction = if dot < body.len() {
        body.skip(dot + 1)
    } else {
        Seq::<char>::empty()
    };
    if all_digits(whole) && all_digits(fraction) && whole.len() + fraction.len() > 0 {
        let first = if fraction.len() > 0 {
            digit_value(fraction[0])
        } else {
            0
        };
        let carry: int = if fraction.len() > 1 && digit_value(fraction[1]) >= 5 {
            1
        } else {
            0
        };
        Some(digits_value(whole) * 10 + first + carry)
    } else {
        None
    }
}

/// The tenths that a decimal with an optional sign writes, rounded half away
/// from zero; `None` where the text is no such decimal. Blanks, an exponent,
/// or a word in place of the digits make a text no decimal.
pub open spec fn decimal_tenths(field: Seq<char>) -> Option<int> {
    if field.len() > 0 && field[0] == '-' {
        match unsigned_tenths(field.skip(1)) {
            Some(v) => Some(-v),
            None => None,
        }
    } else if field.len() > 0 && field[0] == '+' {
        unsigned_tenths(field.skip(1))
    } else {
        unsigned_tenths(field)
    }
}

/// A number of tenths as a score; what lies beyond the range of a score is
/// held at the nearest end of it.
pub open spec fn clamp_score(v: int) -> Score {
    if v > i64::MAX {
        i64::MAX
    } else if v < i64::MIN {
        i64::MIN
    } else {
        v as i64
    }
}

/// The score that a field of a log line writes.
pub open spec fn parsed_score(field: Seq<char>) -> Option<Score> {
    match decimal_tenths(field) {
        Some(v) => Some(clamp_score(v)),
        None => None,
    }
}

/// From this many whole points on, a score lies beyond the range of `Score`.
const WHOLE_CAP: u64 = 922337203685477581;

/// The value of the digits in `v[from..to]`, held at `WHOLE_CAP`; `None` where
/// a character in that range is no digit.
fn read_digits(v: &Vec<char>, from: usize, to: usize) -> (r: Option<u64>)
    requires
        from <= to <= v.len(),
    ensures
        r is Some <==> all_digits(v@.subrange(from as int, to as int)),
        r matches Some(n) ==> n <= WHOLE_CAP && (n < WHOLE_CAP ==> n == digits_value(
            v@.subrange(from as int, to as int),
        )) && (n == WHOLE_CAP ==> digits_value(v@.subrange(from as int, to as int)) >= WHOLE_CAP),
{
    let mut acc: u64 = 0;
    let mut i: usize = from;
    assert(v@.subrange(from as int, from as int) =~= Seq::<char>::empty());
    while i < to
        invariant
            from <= i <= to <= v.len(),
            all_digits(v@.subrange(from as int, i as int)),
            acc <= WHOLE_CAP,
            acc < WHOLE_CAP ==> acc == digits_value(v@.subrange(from as int, i as int)),
            acc == WHOLE_CAP ==> digits_value(v@.subrange(from as int, i as int)) >= WHOLE_CAP,
        decreases to - i,
    {
        let c = v[i];
        let ghost head = v@.subrange(from as int, i as int);
        let ghost next = v@.subrange(from as int, i + 1);
        proof {
            assert(next.drop_last() =~= head);
            assert(next.last() == c);
        }
        if c < '0' || c > '9' {
            proof {
                let whole = v@.subrange(from as int, to as int);
                assert(whole[i - from] == c);
            }
            return None;
        }
        let d: u64 = (c as u32 - '0' as u32) as u64;
        assert(d == digit_value(c));
        if acc < WHOLE_CAP {
            let grown: u64 = acc * 10 + d;
            acc = if grown > WHOLE_CAP {
                WHOLE_CAP
            } else {
                grown
            };
        }
        proof {
            assert forall|k: int| 0 <= k < next.len() implies is_digit(#[trigger] next[k]) by {
                if k < head.len() {
                    assert(head[k] == next[k]);
                }
            }
        }
        i += 1;
    }
    Some(acc)
}

/// The score written by `v[from..to]`.
pub fn parse_score_in(v: &Vec<char>, from: usize, to: usize) -> (r: Option<Score>)
    requires
        from <= to <= v.len(),
    ensures
        r == parsed_score(v@.subrange(from as int, to as int)),
{
    let ghost field = v@.subrange(from as int, to as int);
    let negative = from < to && v[from] == '-';
    let signed = from < to && (v[from] == '-' || v[from] == '+');
    let start: usize = if signed {
        from + 1
    } else {
        from
    };
    let ghost body = v@.subrange(start as int, to as int);
    proof {
        if signed {
            assert(field[0] == v@[from as int]);
            assert(field.skip(1) =~= body);
        } else {
            if field.len() > 0 {
                assert(field[0] == v@[from as int]);
            }
            assert(field =~= body);
        }
    }
    let mut dot: usize = start;
    while dot < to && v[dot] != '.'
        invariant
            start <= dot <= to <= v.len(),
            body == v@.subrange(start as int, to as int),
            forall|j: int| 0 <= j < dot - start ==> body[j] != '.',
        decreases to - dot,
    {
        dot += 1;
    }
    proof {
        if dot < to {
            assert(body[dot - start] == v@[dot as int]);
        }
        lemma_first_index_is(body, '.', dot - start);
    }
    let ghost whole = body.take(dot - start);
    let ghost fraction = if dot < to {
        body.skip(dot - start + 1)
    } else {
        Seq::<char>::empty()
    };
    let frac_start: usize = if dot < to {
        dot + 1
    } else {
        to
    };
    proof {
        assert(whole =~= v@.subrange(start as int, dot as int));
        assert(fraction =~= v@.subrange(frac_start as int, to as int));
    }
    let whole_value = match read_digits(v, start, dot) {
        Some(n) => n,
        None => {
            return None;
        },
    };
    if read_digits(v, frac_start, to).is_none() {
        return None;
    }
    if dot - start + (to - frac_start) == 0 {
        return None;
    }
    let first: u64 = if frac_start < to {
        (v[frac_start] as u32 - '0' as u32) as u64
    } else {
        0
    };
    let carry: u64 = if to - frac_start > 1 && v[frac_start + 1] >= '5' {
        1
    } else {
        0
    };
    proof {
        if frac_start < to {
            assert(fraction[0] == v@[frac_start as int]);
            assert(is_digit(fraction[0]));
        }
        if to - frac_start > 1 {
            assert(fraction[1] == v@[frac_start + 1]);
            assert(is_digit(fraction[1]));
        }
        assert(unsigned_tenths(body) == Some(digits_value(whole) * 10 + first + carry));
    }
    let magnitude: u128 = whole_value as u128 * 10 + first as u128 + carry as u128;
    let limit: u128 = 9223372036854775807;
    if negative {
        if magnitude > limit {
            Some(i64::MIN)
        } else {
            Some(-(magnitude as i64))
        }
    } else {
        if magnitude > limit {
            Some(i64::MAX)
        } else {
            Some(magnitude as i64)
        }
    }
}

/// The score that a field of a log line writes.
pub fn parse_score(field: &str) -> (r: Option<Score>)
    ensures
        r == parsed_score(field@),
{
    let v = chars_of(field);
    assert(v@.subrange(0, v@.len() as int) =~= v@);
    parse_score_in(&v, 0, v.len())
}

} // verus!
