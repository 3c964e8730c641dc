use vstd::prelude::*;
use crate::record::{Category, DailyLog, LogView, NutritionType, logs_view};

verus! {

/// At most one record per date.
pub open spec fn dates_unique(m: Seq<LogView>) -> bool {
    forall|i: int, j: int| 0 <= i < j < m.len() ==> m[i].date != m[j].date
}

/// Some record of `m` carries date `d`.
pub open spec fn has_date(m: Seq<LogView>, d: Seq<char>) -> bool {
    exists|i: int| 0 <= i < m.len() && m[i].date == d
}

/// `i` is the position of the first record of `m` that carries date `d`.
pub open spec fn is_first(m: Seq<LogView>, d: Seq<char>, i: int) -> bool {
    &&& 0 <= i < m.len()
    &&& m[i].date == d
    &&& forall|j: int| 0 <= j < i ==> m[j].date != d
}

/// The position of the first record for `d` (meaningful when `has_date(m, d)`).
pub open spec fn first_of(m: Seq<LogView>, d: Seq<char>) -> int {
    choose|i: int| is_first(m, d, i)
}

/// The record for `d`, if any: the first match wins.
pub open spec fn lookup(m: Seq<LogView>, d: Seq<char>) -> Option<LogView> {
    if has_date(m, d) {
        Some(m[first_of(m, d)])
    } else {
        None
    }
}

/// The accumulator of `c` for date `d`; a date with no record counts as zero.
pub open spec fn amount_on(m: Seq<LogView>, d: Seq<char>, c: Category) -> int {
    match lookup(m, d) {
        Some(l) => l.get(c),
        None => 0,
    }
}

/// The collection after adding `a` to category `c` on date `d`: the record
/// for `d` is updated in place, or a zeroed one is appended first.
pub open spec fn apply_log(m: Seq<LogView>, d: Seq<char>, c: Category, a: int) -> Seq<LogView> {
    if has_date(m, d) {
        let i = first_of(m, d);
        m.update(i, m[i].set(c, m[i].get(c) + a))
    } else {
        m.push(LogView::zero(d).set(c, a))
    }
}

/// The collection after zeroing the record for `d`; unchanged if there is none.
pub open spec fn reset_date(m: Seq<LogView>, d: Seq<char>) -> Seq<LogView> {
    if has_date(m, d) {
        m.update(first_of(m, d), LogView::zero(d))
    } else {
        m
    }
}

/// The collection after logging every entry of `es`, in order, on date `d`.
pub open spec fn apply_all(m: Seq<LogView>, d: Seq<char>, es: Seq<NutritionType>) -> Seq<LogView>
    decreases es.len(),
{
    if es.len() == 0 {
        m
    } else {
        let e = es.last();
        apply_log(apply_all(m, d, es.drop_last()), d, e.spec_category(), e.spec_amount())
    }
}

/// The sum of the amounts of the entries of `es` that fall in category `c`.
pub open spec fn sum_for(es: Seq<NutritionType>, c: Category) -> int
    decreases es.len(),
{
    if es.len() == 0 {
        0
    } else {
        let e = es.last();
        sum_for(es.drop_last(), c) + if e.spec_category() == c {
            e.spec_amount()
        } else {
            0
        }
    }
}

/// Why a log request was refused.
#[derive(Clone, Copy, Debug, PartialEq, Eq, Structural)]
pub enum LogError {
    /// The new total does not fit in the accumulator.
    Overflow,
}

/// Whenever some record carries `d`, a first one does.
pub proof fn lemma_first_exists(m: Seq<LogView>, d: Seq<char>)
    requires
        has_date(m, d),
    ensures
        is_first(m, d, first_of(m, d)),
    decreases m.len(),
{
    if m[0].date == d {
        assert(is_first(m, d, 0));
    } else {
        let t = m.drop_first();
        let i = choose|i: int| 0 <= i < m.len() && m[i].date == d;
        assert(t[i - 1].date == d);
        lemma_first_exists(t, d);
        let k = first_of(t, d);
        assert forall|j: int| 0 <= j < k + 1 implies m[j].date != d by {
            if j > 0 {
                assert(m[j] == t[j - 1]);
            }
        }
        assert(is_first(m, d, k + 1));
    }
}

/// There is only one first position.
pub proof fn lemma_first_unique(m: Seq<LogView>, d: Seq<char>, i: int)
    requires
        is_first(m, d, i),
    ensures
        has_date(m, d),
        first_of(m, d) == i,
{
    assert(has_date(m, d));
    let k = first_of(m, d);
    assert(is_first(m, d, k));
    if k < i {
        assert(m[k].date != d);
    }
    if i < k {
        assert(m[i].date != d);
    }
}

/// The position of the first record for `date`, or `None` if no record has it.
pub fn find_log(logs: &Vec<DailyLog>, date: &str) -> (r: Option<usize>)
    ensures
        match r {
            Some(i) => is_first(logs_view(logs@), date@, i as int),
            None => !has_date(logs_view(logs@), date@),
        },
{
    let ghost m = logs_view(logs@);
    let key = String::from_str(date);
    let mut i: usize = 0;
    while i < logs.len()
        invariant
            i <= logs.len(),
            m == logs_view(logs@),
            key@ == date@,
            forall|j: int| 0 <= j < i ==> m[j].date != date@,
        decreases logs.len() - i,
    {
        assert(m[i as int] == logs@[i as int]@);
        if logs[i].date == key {
            return Some(i);
        }
        i += 1;
    }
    None
}

/// The position of the record for `today`, appending a zeroed one first when
/// there is none; an existing record leaves the collection untouched.
pub fn get_or_create_today_log(logs: &mut Vec<DailyLog>, today: &str) -> (r: usize)
    ensures
        has_date(logs_view(old(logs)@), today@) ==> {
            &&& *final(logs) == *old(logs)
            &&& r as int == first_of(logs_view(old(logs)@), today@)
        },
        !has_date(logs_view(old(logs)@), today@) ==> {
            &&& logs_view(final(logs)@) == logs_view(old(logs)@).push(LogView::zero(today@))
            &&& r as int == old(logs)@.len()
        },
        is_first(logs_view(final(logs)@), today@, r as int),
{
    match find_log(logs, today) {
        Some(i) => {
            proof {
                lemma_first_unique(logs_view(logs@), today@, i as int);
            }
            i
        },
        None => {
            let ghost before = logs@;
            logs.push(DailyLog::new(String::from_str(today)));
            let r = logs.len() - 1;
            assert(logs_view(logs@) =~= logs_view(before).push(LogView::zero(today@)));
            r
        },
    }
}

/// Adds the entry's amount to its category in the record for `today`,
/// creating that record if needed, and returns the new total. The request is
/// refused, and nothing changes, when the total would not fit.
pub fn log_nutrition(logs: &mut Vec<DailyLog>, today: &str, entry: NutritionType) -> (r: Result<
    i64,
    LogError,
>)
    ensures
        ({
            let m = logs_view(old(logs)@);
            let total = amount_on(m, today@, entry.spec_category()) + entry.spec_amount();
            &&& r is Ok <==> i64::MIN <= total <= i64::MAX
            &&& r is Ok ==> r->Ok_0 as int == total && logs_view(final(logs)@) == apply_log(
                m,
                today@,
                entry.spec_category(),
                entry.spec_amount(),
            )
            &&& r is Err ==> r->Err_0 == LogError::Overflow && *final(logs) == *old(logs)
            &&& dates_unique(m) ==> dates_unique(logs_view(final(logs)@))
        }),
{
    let ghost m = logs_view(logs@);
    let c = entry.category();
    let a = entry.amount();
    proof {
        if dates_unique(m) {
            lemma_unique_preserved(m, today@, c, a as int);
        }
    }
    if let Some(i) = find_log(logs, today) {
        proof {
            lemma_first_unique(m, today@, i as int);
        }
        assert(logs@[i as int]@ == m[i as int]);
        let cur = logs[i].get(c);
        match cur.checked_add(a) {
            Some(t) => {
                let mut rec = logs.remove(i);
                rec.set(c, t);
                logs.insert(i, rec);
                assert(logs_view(logs@) =~= m.update(i as int, m[i as int].set(c, t as int)));
                Ok(t)
            },
            None => Err(LogError::Overflow),
        }
    } else {
        let mut rec = DailyLog::new(String::from_str(today));
        rec.set(c, a);
        logs.push(rec);
        assert(logs_view(logs@) =~= m.push(LogView::zero(today@).set(c, a as int)));
        Ok(a)
    }
}

/// Zeroes the record for `today`. Returns whether there was one; without one
/// nothing changes and no record is created.
pub fn reset_today_log(logs: &mut Vec<DailyLog>, today: &str) -> (r: bool)
    ensures
        r == has_date(logs_view(old(logs)@), today@),
        logs_view(final(logs)@) == reset_date(logs_view(old(logs)@), today@),
        dates_unique(logs_view(old(logs)@)) ==> dates_unique(logs_view(final(logs)@)),
{
    let ghost m = logs_view(logs@);
    proof {
        if dates_unique(m) {
            lemma_unique_preserved(m, today@, Category::Calories, 0);
        }
    }
    match find_log(logs, today) {
        Some(i) => {
            proof {
                lemma_first_unique(m, today@, i as int);
            }
            logs.set(i, DailyLog::new(String::from_str(today)));
            assert(logs_view(logs@) =~= m.update(i as int, LogView::zero(today@)));
            true
        },
        None => false,
    }
}

/// Every entry of `es`, logged in order on date `d`, has a total that fits.
pub open spec fn all_fit(m: Seq<LogView>, d: Seq<char>, es: Seq<NutritionType>) -> bool
    decreases es.len(),
{
    if es.len() == 0 {
        true
    } else {
        let e = es.last();
        let total = amount_on(apply_all(m, d, es.drop_last()), d, e.spec_category())
            + e.spec_amount();
        all_fit(m, d, es.drop_last()) && i64::MIN <= total <= i64::MAX
    }
}

/// If a whole sequence of entries fits, so does each of its prefixes.
pub proof fn lemma_all_fit_prefix(m: Seq<LogView>, d: Seq<char>, es: Seq<NutritionType>, k: int)
    requires
        0 <= k <= es.len(),
        all_fit(m, d, es),
    ensures
        all_fit(m, d, es.subrange(0, k)),
    decreases es.len(),
{
    if k < es.len() {
        assert(es.drop_last().subrange(0, k) =~= es.subrange(0, k));
        lemma_all_fit_prefix(m, d, es.drop_last(), k);
    } else {
        assert(es.subrange(0, k) =~= es);
    }
}

/// Logs every entry of `entries` on `today`, in order. Stops at the first
/// entry whose total would not fit and returns its position; the entries
/// before it stay logged.
pub fn log_entries(logs: &mut Vec<DailyLog>, today: &str, entries: &Vec<NutritionType>) -> (r:
    Result<(), usize>)
    ensures
        ({
            let m = logs_view(old(logs)@);
            let es = entries@;
            &&& r is Ok <==> all_fit(m, today@, es)
            &&& r is Ok ==> logs_view(final(logs)@) == apply_all(m, today@, es)
            &&& r is Err ==> {
                let k = r->Err_0 as int;
                &&& 0 <= k < es.len()
                &&& all_fit(m, today@, es.subrange(0, k))
                &&& !all_fit(m, today@, es.subrange(0, k + 1))
                &&& logs_view(final(logs)@) == apply_all(m, today@, es.subrange(0, k))
            }
            &&& dates_unique(m) ==> dates_unique(logs_view(final(logs)@))
        }),
{
    let ghost m = logs_view(logs@);
    let ghost es = entries@;
    let mut i: usize = 0;
    while i < entries.len()
        invariant
            i <= entries.len(),
            es == entries@,
            m == logs_view(old(logs)@),
            all_fit(m, today@, es.subrange(0, i as int)),
            logs_view(logs@) == apply_all(m, today@, es.subrange(0, i as int)),
            dates_unique(m) ==> dates_unique(logs_view(logs@)),
        decreases entries.len() - i,
    {
        let e = entries[i];
        let ghost pre = es.subrange(0, i as int);
        proof {
            let next = es.subrange(0, i + 1);
            assert(next.drop_last() =~= pre);
            assert(next.last() == e);
        }
        match log_nutrition(logs, today, e) {
            Ok(_) => {},
            Err(_) => {
                proof {
                    if all_fit(m, today@, es) {
                        lemma_all_fit_prefix(m, today@, es, i + 1);
                    }
                }
                return Err(i);
            },
        }
        i += 1;
    }
    proof {
        assert(es.subrange(0, es.len() as int) =~= es);
    }
    Ok(())
}

/// Logging one entry adds its amount to its own category on that date and
/// leaves the other categories of that date as they were.
pub proof fn lemma_apply_log_amount(m: Seq<LogView>, d: Seq<char>, e: Category, a: int, c: Category)
    ensures
        amount_on(apply_log(m, d, e, a), d, c) == amount_on(m, d, c) + if e == c {
            a
        } else {
            0
        },
{
    let m2 = apply_log(m, d, e, a);
    if has_date(m, d) {
        lemma_first_exists(m, d);
        let i = first_of(m, d);
        assert(is_first(m2, d, i));
        lemma_first_unique(m2, d, i);
    } else {
        assert(is_first(m2, d, m.len() as int));
        lemma_first_unique(m2, d, m.len() as int);
    }
}

/// After any sequence of log operations on one date, each accumulator of that
/// date equals its starting value plus the sum of the amounts logged to it.
pub proof fn lemma_log_totals(m: Seq<LogView>, d: Seq<char>, es: Seq<NutritionType>, c: Category)
    ensures
        amount_on(apply_all(m, d, es), d, c) == amount_on(m, d, c) + sum_for(es, c),
    decreases es.len(),
{
    if es.len() > 0 {
        let e = es.last();
        lemma_log_totals(m, d, es.drop_last(), c);
        lemma_apply_log_amount(
            apply_all(m, d, es.drop_last()),
            d,
            e.spec_category(),
            e.spec_amount(),
            c,
        );
    }
}

/// The amounts of two consecutive batches of entries add up.
pub proof fn lemma_sum_for_concat(a: Seq<NutritionType>, b: Seq<NutritionType>, c: Category)
    ensures
        sum_for(a + b, c) == sum_for(a, c) + sum_for(b, c),
    decreases b.len(),
{
    if b.len() > 0 {
        assert((a + b).drop_last() =~= a + b.drop_last());
        assert((a + b).last() == b.last());
        lemma_sum_for_concat(a, b.drop_last(), c);
    }
}

/// Order does not matter: logging batch `a` then batch `b` on one date gives
/// the same totals for that date as logging `b` then `a`.
pub proof fn lemma_log_order(
    m: Seq<LogView>,
    d: Seq<char>,
    a: Seq<NutritionType>,
    b: Seq<NutritionType>,
    c: Category,
)
    ensures
        amount_on(apply_all(m, d, a + b), d, c) == amount_on(apply_all(m, d, b + a), d, c),
{
    lemma_log_totals(m, d, a + b, c);
    lemma_log_totals(m, d, b + a, c);
    lemma_sum_for_concat(a, b, c);
    lemma_sum_for_concat(b, a, c);
}

/// Logging and resetting keep dates unique.
pub proof fn lemma_unique_preserved(m: Seq<LogView>, d: Seq<char>, c: Category, a: int)
    requires
        dates_unique(m),
    ensures
        dates_unique(apply_log(m, d, c, a)),
        dates_unique(reset_date(m, d)),
{
    if has_date(m, d) {
        lemma_first_exists(m, d);
    }
}

} // verus!
