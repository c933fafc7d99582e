//! Numeric readings held as text, compared by the number they stand for.

use vstd::prelude::*;
use crate::migration::{first_in, lower_string, lower_text, mantissa_check, mantissa_ok, without_sign};
use crate::text::{chars_of, index_of_char, lemma_index_of_char, str_eq, string_from_chars};

verus! {

/// Whether the text starts with a minus sign.
pub open spec fn negative(s: Seq<char>) -> bool {
    s.len() > 0 && s[0] == '-'
}

/// A plain decimal: an optional sign, then digits with at most one `.` and at least one digit.
pub open spec fn is_plain_decimal(s: Seq<char>) -> bool {
    mantissa_ok(without_sign(s))
}

/// The digits of a mantissa, its `.` left out.
pub open spec fn digits_of(m: Seq<char>) -> Seq<char> {
    let q = index_of_char(m, '.');
    if q < m.len() {
        m.subrange(0, q) + m.subrange(q + 1, m.len() as int)
    } else {
        m
    }
}

/// How many `0` digits the digits start with.
pub open spec fn lead(d: Seq<char>) -> int
    decreases d.len(),
{
    if d.len() == 0 || d[0] != '0' {
        0
    } else {
        1 + lead(d.drop_first())
    }
}

/// How many `0` digits the digits end with.
pub open spec fn trail(d: Seq<char>) -> int
    decreases d.len(),
{
    if d.len() == 0 || d.last() != '0' {
        0
    } else {
        1 + trail(d.drop_last())
    }
}

/// The significant digits: without the zeros in front and behind; empty for zero.
pub open spec fn significant(d: Seq<char>) -> Seq<char> {
    if lead(d) >= d.len() {
        Seq::empty()
    } else {
        d.subrange(lead(d), d.len() - trail(d))
    }
}

/// Where the point stands relative to the first significant digit: the value
/// of mantissa `m` is `0.` followed by its significant digits, times ten to this.
pub open spec fn point_of(m: Seq<char>) -> int {
    index_of_char(m, '.') - lead(digits_of(m))
}

/// Two plain decimals stand for the same number: both are zero, or they have
/// the same sign, the same significant digits and the same point.
pub open spec fn same_plain(a: Seq<char>, b: Seq<char>) -> bool {
    let ma = without_sign(a);
    let mb = without_sign(b);
    let da = significant(digits_of(ma));
    let db = significant(digits_of(mb));
    if da.len() == 0 && db.len() == 0 {
        true
    } else {
        negative(a) == negative(b) && da == db && point_of(ma) == point_of(mb)
    }
}

pub open spec fn is_infinity(s: Seq<char>) -> bool {
    lower_text(without_sign(s)) == "inf"@ || lower_text(without_sign(s)) == "infinity"@
}

pub open spec fn is_nan(s: Seq<char>) -> bool {
    lower_text(without_sign(s)) == "nan"@
}

/// Whether two numeric readings are the same number: "not a number" equals
/// nothing, plain decimals compare by value (`21.5` is `21.50`), infinities by
/// sign; any other texts (with an exponent) compare as text.
pub open spec fn same_number(a: Seq<char>, b: Seq<char>) -> bool {
    if is_nan(a) || is_nan(b) {
        false
    } else if is_plain_decimal(a) && is_plain_decimal(b) {
        same_plain(a, b)
    } else if is_infinity(a) && is_infinity(b) {
        negative(a) == negative(b)
    } else {
        a == b
    }
}

proof fn lemma_lead_is(d: Seq<char>, k: int)
    requires
        0 <= k <= d.len(),
        forall|j: int| 0 <= j < k ==> d[j] == '0',
        k < d.len() ==> d[k] != '0',
    ensures
        lead(d) == k,
    decreases k,
{
    if k > 0 {
        lemma_lead_is(d.drop_first(), k - 1);
    }
}

proof fn lemma_trail_is(d: Seq<char>, k: int)
    requires
        0 <= k <= d.len(),
        forall|j: int| d.len() - k <= j < d.len() ==> d[j] == '0',
        k < d.len() ==> d[d.len() - 1 - k] != '0',
    ensures
        trail(d) == k,
    decreases k,
{
    if k > 0 {
        lemma_trail_is(d.drop_last(), k - 1);
    }
}

/// The text after one leading sign.
fn body_of(cs: &Vec<char>) -> (r: Vec<char>)
    ensures
        r@ == without_sign(cs@),
{
    let mut start: usize = 0;
    if cs.len() > 0 && (cs[0] == '+' || cs[0] == '-') {
        start = 1;
    }
    let mut out: Vec<char> = Vec::new();
    let mut i: usize = start;
    while i < cs.len()
        invariant
            start <= i <= cs@.len(),
            start <= 1,
            out@ == cs@.subrange(start as int, i as int),
        decreases cs@.len() - i,
    {
        out.push(cs[i]);
        i = i + 1;
        proof {
            assert(out@ =~= cs@.subrange(start as int, i as int));
        }
    }
    proof {
        assert(without_sign(cs@) =~= cs@.subrange(start as int, cs@.len() as int));
    }
    out
}

/// The digits of a mantissa, and where its `.` stands.
fn digits_and_point(m: &Vec<char>) -> (r: (Vec<char>, usize))
    ensures
        r.0@ == digits_of(m@),
        r.1 == index_of_char(m@, '.'),
{
    let q = first_in(m, 0, m.len(), '.');
    proof {
        assert(m@.subrange(0, m@.len() as int) =~= m@);
        lemma_index_of_char(m@, '.');
    }
    let mut out: Vec<char> = Vec::new();
    let mut i: usize = 0;
    while i < m.len()
        invariant
            i <= m@.len(),
            q == index_of_char(m@, '.'),
            q <= m@.len(),
            i <= q ==> out@ == m@.subrange(0, i as int),
            i > q ==> out@ == m@.subrange(0, q as int) + m@.subrange(q + 1, i as int),
        decreases m@.len() - i,
    {
        if i != q {
            out.push(m[i]);
        }
        i = i + 1;
        proof {
            if i <= q {
                assert(out@ =~= m@.subrange(0, i as int));
            } else if i == q + 1 {
                assert(out@ =~= m@.subrange(0, q as int) + m@.subrange(q + 1, i as int));
            } else {
                assert(out@ =~= m@.subrange(0, q as int) + m@.subrange(q + 1, i as int));
            }
        }
    }
    proof {
        if q < m@.len() {
            assert(out@ =~= digits_of(m@));
        } else {
            assert(out@ =~= m@);
        }
    }
    (out, q)
}

/// The significant digits, and how many zeros come before them.
fn significant_digits(d: &Vec<char>) -> (r: (Vec<char>, usize))
    ensures
        r.0@ == significant(d@),
        r.1 == lead(d@),
{
    let mut k: usize = 0;
    while k < d.len() && d[k] == '0'
        invariant
            k <= d@.len(),
            forall|j: int| 0 <= j < k ==> d@[j] == '0',
        decreases d@.len() - k,
    {
        k = k + 1;
    }
    proof {
        lemma_lead_is(d@, k as int);
    }
    if k == d.len() {
        return (Vec::new(), k);
    }
    let mut t: usize = 0;
    while t < d.len() - k - 1 && d[d.len() - 1 - t] == '0'
        invariant
            k < d@.len(),
            t <= d@.len() - k - 1,
            forall|j: int| d@.len() - t <= j < d@.len() ==> d@[j] == '0',
        decreases d@.len() - t,
    {
        t = t + 1;
    }
    proof {
        assert(d@[k as int] != '0');
        if t == d@.len() - k - 1 {
            assert(d@[d@.len() - 1 - t] == d@[k as int]);
        }
        lemma_trail_is(d@, t as int);
    }
    let mut out: Vec<char> = Vec::new();
    let mut i: usize = k;
    while i < d.len() - t
        invariant
            k <= i <= d@.len() - t,
            out@ == d@.subrange(k as int, i as int),
        decreases d@.len() - t - i,
    {
        out.push(d[i]);
        i = i + 1;
        proof {
            assert(out@ =~= d@.subrange(k as int, i as int));
        }
    }
    (out, k)
}

fn same_chars(a: &Vec<char>, b: &Vec<char>) -> (r: bool)
    ensures
        r == (a@ == b@),
{
    if a.len() != b.len() {
        return false;
    }
    let mut i: usize = 0;
    while i < a.len()
        invariant
            a@.len() == b@.len(),
            i <= a@.len(),
            forall|j: int| 0 <= j < i ==> a@[j] == b@[j],
        decreases a@.len() - i,
    {
        if a[i] != b[i] {
            return false;
        }
        i = i + 1;
    }
    assert(a@ =~= b@);
    true
}

/// Whether two numeric readings are the same number, as `same_number` says.
pub fn same_number_text(a: &str, b: &str) -> (r: bool)
    ensures
        r == same_number(a@, b@),
{
    let ca = chars_of(a);
    let cb = chars_of(b);
    let ba = body_of(&ca);
    let bb = body_of(&cb);
    let la = lower_string(string_from_chars(&ba).as_str());
    let lb = lower_string(string_from_chars(&bb).as_str());
    if str_eq(la.as_str(), "nan") || str_eq(lb.as_str(), "nan") {
        return false;
    }
    let plain_a = mantissa_check(&ba, ba.len());
    let plain_b = mantissa_check(&bb, bb.len());
    proof {
        assert(ba@.subrange(0, ba@.len() as int) =~= ba@);
        assert(bb@.subrange(0, bb@.len() as int) =~= bb@);
    }
    let neg_a = ca.len() > 0 && ca[0] == '-';
    let neg_b = cb.len() > 0 && cb[0] == '-';
    if plain_a && plain_b {
        let (da, qa) = digits_and_point(&ba);
        let (db, qb) = digits_and_point(&bb);
        let (sa, za) = significant_digits(&da);
        let (sb, zb) = significant_digits(&db);
        if sa.len() == 0 && sb.len() == 0 {
            return true;
        }
        let same_point = (qa as u128) + (zb as u128) == (qb as u128) + (za as u128);
        return neg_a == neg_b && same_chars(&sa, &sb) && same_point;
    }
    let inf_a = str_eq(la.as_str(), "inf") || str_eq(la.as_str(), "infinity");
    let inf_b = str_eq(lb.as_str(), "inf") || str_eq(lb.as_str(), "infinity");
    if inf_a && inf_b {
        return neg_a == neg_b;
    }
    str_eq(a, b)
}

} // verus!
