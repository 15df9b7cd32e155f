//! The visitor counter: at most one visit per visitor per calendar day, so
//! recording is idempotent within a day, and the stats count distinct
//! visitor-day pairs.

use vstd::prelude::*;
use vstd::string::*;

use crate::text::{padded_dec, padded_u64, push_char, str_eq};

verus! {

/// A calendar date, as plain numbers.
#[derive(Debug, Clone, Copy, PartialEq, Eq, Structural)]
pub struct Date {
    pub year: i32,
    pub month: u8,
    pub day: u8,
}

/// One recorded visitor-day pair.
#[derive(Debug)]
pub struct Visit {
    pub visitor_id: String,
    pub date: Date,
}

/// The storage key of a date's month: zero-padded year and month.
pub open spec fn month_key_spec(d: Date) -> Seq<char> {
    padded_dec(d.year as int, 4) + seq!['-'] + padded_dec(d.month as int, 2)
}

/// The storage key of a date: its month's key followed by the zero-padded
/// day.
pub open spec fn date_key_spec(d: Date) -> Seq<char> {
    month_key_spec(d) + seq!['-'] + padded_dec(d.day as int, 2)
}

/// Every day's key begins with its month's key, which is what makes prefix
/// matching over stored day keys count a whole month correctly.
pub proof fn lemma_date_key_extends_month_key(d: Date)
    ensures
        date_key_spec(d).take(month_key_spec(d).len() as int) == month_key_spec(d),
{
    assert(date_key_spec(d).take(month_key_spec(d).len() as int) =~= month_key_spec(d));
}

/// Renders a date's month key, `YYYY-MM`.
pub fn month_key(d: Date) -> (r: String)
    requires
        d.year >= 0,
    ensures
        r@ == month_key_spec(d),
{
    let mut out = padded_u64(d.year as u64, 4);
    push_char(&mut out, '-');
    let month = padded_u64(d.month as u64, 2);
    out.append(month.as_str());
    proof {
        assert(out@ =~= month_key_spec(d));
    }
    out
}

/// Renders a date's storage key, `YYYY-MM-DD`.
pub fn date_key(d: Date) -> (r: String)
    requires
        d.year >= 0,
    ensures
        r@ == date_key_spec(d),
{
    let mut out = month_key(d);
    push_char(&mut out, '-');
    let day = padded_u64(d.day as u64, 2);
    out.append(day.as_str());
    proof {
        assert(out@ =~= date_key_spec(d));
    }
    out
}

/// No visitor-day pair appears twice.
pub open spec fn visits_unique(s: Seq<Visit>) -> bool {
    forall|i: int, j: int|
        0 <= i < j < s.len() ==> !((#[trigger] s[i]).visitor_id@ == (#[trigger] s[j]).visitor_id@
            && s[i].date == s[j].date)
}

/// Whether this visitor already counted on this day.
pub open spec fn has_visit(s: Seq<Visit>, visitor_id: Seq<char>, date: Date) -> bool {
    exists|i: int| 0 <= i < s.len() && (#[trigger] s[i]).visitor_id@ == visitor_id && s[i].date == date
}

/// Records a visit unless the visitor already counted today — the
/// insert-or-ignore that makes daily counting idempotent.
pub fn record_visit(log: &mut Vec<Visit>, visitor_id: &str, date: Date) -> (added: bool)
    requires
        visits_unique(old(log)@),
    ensures
        visits_unique(final(log)@),
        added == !has_visit(old(log)@, visitor_id@, date),
        !added ==> *final(log) == *old(log),
        added ==> final(log)@.len() == old(log)@.len() + 1
            && final(log)@.take(old(log)@.len() as int) == old(log)@
            && final(log)@.last().visitor_id@ == visitor_id@
            && final(log)@.last().date == date,
{
    let n = log.len();
    let mut i: usize = 0;
    while i < n
        invariant
            i <= n,
            n == log@.len(),
            log@ == old(log)@,
            visits_unique(log@),
            forall|j: int|
                0 <= j < i ==> !((#[trigger] log@[j]).visitor_id@ == visitor_id@ && log@[j].date
                    == date),
        decreases n - i,
    {
        let v = &log[i];
        if v.date == date && str_eq(v.visitor_id.as_str(), visitor_id) {
            return false;
        }
        i = i + 1;
    }
    let entry = Visit { visitor_id: String::from_str(visitor_id), date };
    let ghost prev = log@;
    log.push(entry);
    proof {
        assert(log@.take(prev.len() as int) =~= prev);
        assert forall|p: int, q: int| 0 <= p < q < log@.len() implies !((
        #[trigger] log@[p]).visitor_id@ == (#[trigger] log@[q]).visitor_id@ && log@[p].date
            == log@[q].date) by {
            if q == log@.len() - 1 {
                assert(log@[p] == prev[p]);
            }
        }
    }
    true
}

/// How many recorded visits satisfy a predicate.
pub open spec fn count_matching(s: Seq<Visit>, p: spec_fn(Visit) -> bool) -> int
    decreases s.len(),
{
    if s.len() == 0 {
        0
    } else {
        count_matching(s.drop_last(), p) + if p(s.last()) {
            1int
        } else {
            0int
        }
    }
}

proof fn lemma_count_bound(s: Seq<Visit>, p: spec_fn(Visit) -> bool)
    ensures
        0 <= count_matching(s, p) <= s.len(),
    decreases s.len(),
{
    if s.len() > 0 {
        lemma_count_bound(s.drop_last(), p);
    }
}

/// Today's, this month's and the all-time visit counts.
pub fn visit_stats(log: &Vec<Visit>, today: Date) -> (r: (usize, usize, usize))
    ensures
        r.0 == count_matching(log@, |v: Visit| v.date == today),
        r.1 == count_matching(
            log@,
            |v: Visit| v.date.year == today.year && v.date.month == today.month,
        ),
        r.2 == log@.len(),
{
    let ghost day_p = |v: Visit| v.date == today;
    let ghost month_p = |v: Visit| v.date.year == today.year && v.date.month == today.month;
    let n = log.len();
    let mut day_count: usize = 0;
    let mut month_count: usize = 0;
    let mut i: usize = 0;
    while i < n
        invariant
            i <= n,
            n == log@.len(),
            day_count == count_matching(log@.take(i as int), day_p),
            month_count == count_matching(log@.take(i as int), month_p),
            day_p == (|v: Visit| v.date == today),
            month_p == (|v: Visit| v.date.year == today.year && v.date.month == today.month),
        decreases n - i,
    {
        proof {
            lemma_count_bound(log@.take(i as int), day_p);
            lemma_count_bound(log@.take(i as int), month_p);
            assert(log@.take(i as int + 1).drop_last() =~= log@.take(i as int));
            assert(log@.take(i as int + 1).last() == log@[i as int]);
        }
        let v = &log[i];
        if v.date.year == today.year && v.date.month == today.month {
            month_count = month_count + 1;
            if v.date.day == today.day {
                day_count = day_count + 1;
            }
        }
        i = i + 1;
    }
    proof {
        assert(log@.take(n as int) =~= log@);
    }
    (day_count, month_count, n)
}

} // verus!
