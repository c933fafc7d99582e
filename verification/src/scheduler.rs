//! Scheduler windows: which `HH:MM` minute ticks fall between two clock times.

use vstd::prelude::*;
use crate::automation::AutomationTickResult;
use crate::text::{chars_of, find_char, index_of_char, lemma_index_of_char, push_char};

verus! {

/// Minutes in a day.
pub const MINUTES_PER_DAY: u16 = 1440u16;

/// The span of clock time a scheduler run covers: after `from_hh_mm`, up to and
/// including `to_hh_mm`.
#[derive(Debug, Clone)]
pub struct SchedulerWindow {
    pub from_hh_mm: String,
    pub to_hh_mm: String,
}

/// What to do with ticks that were missed.
#[derive(Debug, Clone, Copy, PartialEq, Eq, Structural)]
pub enum SchedulerCatchUpMode {
    SkipMissed,
    RunDueTicks,
}

/// How a scheduler catches up, and how many ticks it runs at most.
#[derive(Debug, Clone)]
pub struct SchedulerCatchUpPolicy {
    pub mode: SchedulerCatchUpMode,
    pub max_ticks: usize,
}

impl Default for SchedulerCatchUpPolicy {
    /// Run the due ticks, at most 120 of them.
    fn default() -> (r: SchedulerCatchUpPolicy)
        ensures
            r.mode == SchedulerCatchUpMode::RunDueTicks,
            r.max_ticks == 120,
    {
        SchedulerCatchUpPolicy { mode: SchedulerCatchUpMode::RunDueTicks, max_ticks: 120 }
    }
}

/// What a scheduler run did, tick by tick.
#[derive(Debug, Clone)]
pub struct SchedulerRunResult {
    pub window: SchedulerWindow,
    pub policy: SchedulerCatchUpPolicy,
    pub ticks_checked: usize,
    pub tick_results: Vec<AutomationTickResult>,
}

/// A clock time that is not a valid `HH:MM`.
#[derive(Debug, Clone)]
pub enum SchedulerWindowError {
    InvalidTime(String),
}

impl SchedulerWindowError {
    /// The error's text: `invalid HH:MM value: ` and the offending value.
    pub fn message(&self) -> (r: String)
        ensures
            match self {
                SchedulerWindowError::InvalidTime(v) => r@ == "invalid HH:MM value: "@ + v@,
            },
    {
        match self {
            SchedulerWindowError::InvalidTime(v) => {
                let mut r = String::from_str("invalid HH:MM value: ");
                crate::text::append_str(&mut r, v.as_str());
                r
            },
        }
    }
}

pub open spec fn is_digit(c: char) -> bool {
    '0' <= c && c <= '9'
}

/// The value of a string of decimal digits.
pub open spec fn decimal_value(s: Seq<char>) -> nat
    decreases s.len(),
{
    if s.len() == 0 {
        0
    } else {
        decimal_value(s.drop_last()) * 10 + ((s.last() as int) - ('0' as int)) as nat
    }
}

/// `s` without one leading `+`, if it has one.
pub open spec fn without_plus(s: Seq<char>) -> Seq<char> {
    if s.len() > 0 && s[0] == '+' {
        s.drop_first()
    } else {
        s
    }
}

pub open spec fn all_digits(s: Seq<char>) -> bool {
    forall|i: int| 0 <= i < s.len() ==> is_digit(#[trigger] s[i])
}

/// The number an unsigned integer parse reads from `s`: an optional `+`, then
/// one or more decimal digits and nothing else.
pub open spec fn unsigned_text(s: Seq<char>) -> Option<nat> {
    if without_plus(s).len() > 0 && all_digits(without_plus(s)) {
        Some(decimal_value(without_plus(s)))
    } else {
        None
    }
}

/// The minute of the day an `HH:MM` text names: five characters, split at the
/// first `:` into an hour below 24 and a minute below 60.
pub open spec fn hh_mm_minutes(s: Seq<char>) -> Option<nat> {
    let p = index_of_char(s, ':');
    if s.len() == 5 && p < s.len() {
        match (unsigned_text(s.subrange(0, p)), unsigned_text(s.subrange(p + 1, s.len() as int))) {
            (Some(h), Some(m)) => if h < 24 && m < 60 {
                Some(h * 60 + m)
            } else {
                None
            },
            _ => None,
        }
    } else {
        None
    }
}

/// The decimal digit character for `d`.
pub open spec fn digit_char(d: nat) -> char {
    if d == 0 {
        '0'
    } else if d == 1 {
        '1'
    } else if d == 2 {
        '2'
    } else if d == 3 {
        '3'
    } else if d == 4 {
        '4'
    } else if d == 5 {
        '5'
    } else if d == 6 {
        '6'
    } else if d == 7 {
        '7'
    } else if d == 8 {
        '8'
    } else {
        '9'
    }
}

/// `n` (below 100) written with two digits.
pub open spec fn two_digits(n: nat) -> Seq<char> {
    seq![digit_char(n / 10), digit_char(n % 10)]
}

/// The `HH:MM` text of a minute of the day.
pub open spec fn hh_mm_text(minute: nat) -> Seq<char> {
    two_digits(minute / 60) + seq![':'] + two_digits(minute % 60)
}

/// How many minutes after `from` the clock reaches `to` (a whole day when they are equal).
pub open spec fn minutes_until(from: nat, to: nat) -> nat {
    if from < to {
        (to - from) as nat
    } else {
        (to + 1440 - from) as nat
    }
}

/// `x` (below two days of minutes) brought back into one day.
pub open spec fn wrap_minute(x: int) -> int {
    if x < 1440 {
        x
    } else {
        x - 1440
    }
}

proof fn lemma_wrap_minute(x: nat)
    requires
        x < 2880,
    ensures
        x % 1440 == wrap_minute(x as int),
{
    assert(x % 1440 == wrap_minute(x as int)) by (nonlinear_arith)
        requires
            x < 2880,
    ;
}

/// The ticks after `from`, up to `to` or `max_ticks` ticks, whichever comes first.
pub open spec fn window_ticks(from: nat, to: nat, max_ticks: nat) -> Seq<Seq<char>> {
    let n = if minutes_until(from, to) < max_ticks {
        minutes_until(from, to)
    } else {
        max_ticks
    };
    Seq::new(n, |i: int| hh_mm_text(((from + i + 1) % 1440) as nat))
}

fn digit_value(c: char) -> (r: u32)
    requires
        is_digit(c),
    ensures
        r == (c as int) - ('0' as int),
{
    (c as u32) - ('0' as u32)
}

/// The value of `cs[from..to]` read as an unsigned number; the range holds at most four characters.
fn unsigned_value(cs: &Vec<char>, from: usize, to: usize) -> (r: Option<u32>)
    requires
        from <= to <= cs@.len(),
        to - from <= 4,
    ensures
        r matches Some(v) ==> unsigned_text(cs@.subrange(from as int, to as int)) == Some(v as nat),
        r is None ==> unsigned_text(cs@.subrange(from as int, to as int)) is None,
{
    let ghost s = cs@.subrange(from as int, to as int);
    let mut start = from;
    if from < to && cs[from] == '+' {
        start = from + 1;
    }
    let ghost d = cs@.subrange(start as int, to as int);
    proof {
        if from < to && s[0] == '+' {
            assert(d =~= s.drop_first());
        } else {
            assert(d =~= s);
        }
    }
    if start == to {
        return None;
    }
    let mut v: u32 = 0;
    let mut i: usize = start;
    while i < to
        invariant
            from <= start < to <= cs@.len(),
            to - from <= 4,
            d == cs@.subrange(start as int, to as int),
            s == cs@.subrange(from as int, to as int),
            d == without_plus(s),
            start <= i <= to,
            forall|k: int| start <= k < i ==> is_digit(#[trigger] cs@[k]),
            v == decimal_value(cs@.subrange(start as int, i as int)),
            v < 10000,
            i - start <= 4,
        decreases to - i,
    {
        if !('0' <= cs[i] && cs[i] <= '9') {
            proof {
                assert(d[i - start] == cs@[i as int]);
                assert(!is_digit(d[i - start]));
                assert(!all_digits(d));
            }
            return None;
        }
        let dv = digit_value(cs[i]);
        proof {
            let t = cs@.subrange(start as int, i + 1);
            assert(t.drop_last() =~= cs@.subrange(start as int, i as int));
            assert(decimal_value(cs@.subrange(start as int, i as int)) < 1000) by {
                lemma_decimal_bound(cs@.subrange(start as int, i as int));
            }
        }
        v = v * 10 + dv;
        i = i + 1;
    }
    proof {
        assert forall|k: int| 0 <= k < d.len() implies is_digit(#[trigger] d[k]) by {
            assert(d[k] == cs@[start + k]);
        }
    }
    Some(v)
}

proof fn lemma_decimal_bound(s: Seq<char>)
    requires
        s.len() <= 3,
        forall|k: int| 0 <= k < s.len() ==> is_digit(#[trigger] s[k]),
    ensures
        decimal_value(s) < 1000,
        s.len() <= 2 ==> decimal_value(s) < 100,
        s.len() <= 1 ==> decimal_value(s) < 10,
    decreases s.len(),
{
    if s.len() > 0 {
        assert(is_digit(s[s.len() - 1]));
        lemma_decimal_bound(s.drop_last());
    }
}

/// The minute of the day named by `value`, or the error that names `value`.
pub(crate) fn parse_hh_mm(value: &str) -> (r: Result<u16, SchedulerWindowError>)
    ensures
        match r {
            Ok(m) => hh_mm_minutes(value@) == Some(m as nat),
            Err(SchedulerWindowError::InvalidTime(v)) => hh_mm_minutes(value@) is None && v@ == value@,
        },
{
    let cs = chars_of(value);
    let p = find_char(value, ':');
    proof {
        lemma_index_of_char(value@, ':');
    }
    if cs.len() != 5 || p >= cs.len() {
        return Err(SchedulerWindowError::InvalidTime(String::from_str(value)));
    }
    let hh = unsigned_value(&cs, 0, p);
    let mm = unsigned_value(&cs, p + 1, cs.len());
    match (hh, mm) {
        (Some(h), Some(m)) => {
            if h < 24 && m < 60 {
                Ok((h * 60 + m) as u16)
            } else {
                Err(SchedulerWindowError::InvalidTime(String::from_str(value)))
            }
        },
        _ => Err(SchedulerWindowError::InvalidTime(String::from_str(value))),
    }
}

fn digit_to_char(d: u16) -> (r: char)
    requires
        d < 10,
    ensures
        r == digit_char(d as nat),
{
    if d == 0 {
        '0'
    } else if d == 1 {
        '1'
    } else if d == 2 {
        '2'
    } else if d == 3 {
        '3'
    } else if d == 4 {
        '4'
    } else if d == 5 {
        '5'
    } else if d == 6 {
        '6'
    } else if d == 7 {
        '7'
    } else if d == 8 {
        '8'
    } else {
        '9'
    }
}

/// The `HH:MM` text of a minute of the day, zero-padded.
fn format_hh_mm(minutes: u16) -> (r: String)
    requires
        minutes < 1440,
    ensures
        r@ == hh_mm_text(minutes as nat),
{
    let h = minutes / 60;
    let m = minutes % 60;
    let mut r = String::new();
    push_char(&mut r, digit_to_char(h / 10));
    push_char(&mut r, digit_to_char(h % 10));
    push_char(&mut r, ':');
    push_char(&mut r, digit_to_char(m / 10));
    push_char(&mut r, digit_to_char(m % 10));
    assert(r@ =~= hh_mm_text(minutes as nat));
    r
}

/// The minute ticks of a window: every minute after the start, up to and
/// including the end (wrapping past midnight), at most `max_ticks` of them.
/// Either bound that is not a valid `HH:MM` is an error, the start checked first;
/// with `max_ticks` zero there are no ticks and nothing is checked.
pub fn enumerate_hh_mm_window(window: &SchedulerWindow, max_ticks: usize) -> (r: Result<
    Vec<String>,
    SchedulerWindowError,
>)
    ensures
        max_ticks == 0 ==> (r matches Ok(v) && v@.len() == 0),
        max_ticks > 0 ==> match (hh_mm_minutes(window.from_hh_mm@), hh_mm_minutes(window.to_hh_mm@)) {
            (None, _) => (r matches Err(SchedulerWindowError::InvalidTime(v)) && v@ == window.from_hh_mm@),
            (Some(_), None) => (r matches Err(SchedulerWindowError::InvalidTime(v)) && v@
                == window.to_hh_mm@),
            (Some(from), Some(to)) => (r matches Ok(v) && v@.map_values(|s: String| s@) == window_ticks(
                from,
                to,
                max_ticks as nat,
            )),
        },
{
    if max_ticks == 0 {
        return Ok(Vec::new());
    }
    let from = match parse_hh_mm(window.from_hh_mm.as_str()) {
        Ok(m) => m,
        Err(e) => return Err(e),
    };
    let to = match parse_hh_mm(window.to_hh_mm.as_str()) {
        Ok(m) => m,
        Err(e) => return Err(e),
    };
    let ghost want = window_ticks(from as nat, to as nat, max_ticks as nat);
    let ghost n = want.len();
    let mut cursor: u16 = from;
    let mut ticks: Vec<String> = Vec::new();
    let mut k: u16 = 0;
    while k < MINUTES_PER_DAY
        invariant_except_break
            from < 1440,
            to < 1440,
            max_ticks > 0,
            want == window_ticks(from as nat, to as nat, max_ticks as nat),
            n == want.len(),
            k == ticks@.len(),
            k < n,
            cursor == wrap_minute(from + k),
            ticks@.map_values(|s: String| s@) == want.subrange(0, k as int),
        ensures
            ticks@.map_values(|s: String| s@) == want,
        decreases MINUTES_PER_DAY - k,
    {
        cursor = if cursor + 1 == MINUTES_PER_DAY {
            0
        } else {
            cursor + 1
        };
        let t = format_hh_mm(cursor);
        let ghost before = ticks@;
        ticks.push(t);
        k = k + 1;
        proof {
            lemma_wrap_minute((from + k) as nat);
            assert(want[k - 1] == hh_mm_text(((from + (k - 1) + 1) % 1440) as nat));
            assert(ticks@.map_values(|s: String| s@) =~= want.subrange(0, k as int));
        }
        if cursor == to || ticks.len() >= max_ticks {
            proof {
                assert(want.subrange(0, k as int) =~= want);
            }
            break;
        }
    }
    Ok(ticks)
}

} // verus!
