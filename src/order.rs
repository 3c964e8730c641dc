use vstd::prelude::*;
use crate::record::DailyLog;

verus! {

/// `k` is where `a` and `b` first differ, and there `a` is the smaller one
/// (or `a` has ended while `b` goes on).
pub open spec fn less_at(a: Seq<char>, b: Seq<char>, k: int) -> bool {
    &&& 0 <= k <= a.len()
    &&& k <= b.len()
    &&& a.subrange(0, k) == b.subrange(0, k)
    &&& {
        ||| k == a.len() && k < b.len()
        ||| k < a.len() && k < b.len() && (a[k] as u32) < (b[k] as u32)
    }
}

/// Lexicographic order on texts, by code point; for `YYYY-MM-DD` dates it is
/// chronological order.
pub open spec fn date_less(a: Seq<char>, b: Seq<char>) -> bool {
    exists|k: int| less_at(a, b, k)
}

/// Newest first: no record is followed by a later one.
pub open spec fn sorted_desc(s: Seq<DailyLog>) -> bool {
    forall|i: int, j: int| 0 <= i < j < s.len() ==> !date_less(s[i].date@, s[j].date@)
}

/// `date_less` is a strict order: transitive ...
pub proof fn lemma_less_transitive(a: Seq<char>, b: Seq<char>, c: Seq<char>)
    requires
        date_less(a, b),
        date_less(b, c),
    ensures
        date_less(a, c),
{
    let k1 = choose|k: int| less_at(a, b, k);
    let k2 = choose|k: int| less_at(b, c, k);
    let k = if k1 < k2 { k1 } else { k2 };
    assert(a.subrange(0, k) =~= c.subrange(0, k)) by {
        assert forall|j: int| 0 <= j < k implies a[j] == c[j] by {
            assert(a.subrange(0, k1)[j] == b.subrange(0, k1)[j]);
            assert(b.subrange(0, k2)[j] == c.subrange(0, k2)[j]);
        }
    }
    if k1 < k2 {
        assert(b.subrange(0, k2)[k1] == c.subrange(0, k2)[k1]);
    } else if k2 < k1 {
        assert(a.subrange(0, k1)[k2] == b.subrange(0, k1)[k2]);
    }
    assert(less_at(a, c, k));
}

/// ... and asymmetric.
pub proof fn lemma_less_asymmetric(a: Seq<char>, b: Seq<char>)
    requires
        date_less(a, b),
    ensures
        !date_less(b, a),
{
    if date_less(b, a) {
        lemma_less_transitive(a, b, a);
    }
}

/// Whether `a` comes strictly before `b` in text order.
pub fn date_before(a: &str, b: &str) -> (r: bool)
    ensures
        r == date_less(a@, b@),
{
    let n = a.unicode_len();
    let m = b.unicode_len();
    let mut i: usize = 0;
    while i < n && i < m
        invariant
            n == a@.len(),
            m == b@.len(),
            i <= n,
            i <= m,
            a@.subrange(0, i as int) == b@.subrange(0, i as int),
        decreases n - i,
    {
        let x = a.get_char(i);
        let y = b.get_char(i);
        if x != y {
            let r = (x as u32) < (y as u32);
            if r {
                assert(less_at(a@, b@, i as int));
            } else {
                assert forall|k: int| !less_at(a@, b@, k) by {
                    if 0 <= k && k < i {
                        assert(a@.subrange(0, i as int)[k] == b@.subrange(0, i as int)[k]);
                    } else if k > i && k <= n && k <= m {
                        if a@.subrange(0, k) == b@.subrange(0, k) {
                            assert(a@.subrange(0, k)[i as int] == b@.subrange(0, k)[i as int]);
                        }
                    }
                }
            }
            return r;
        }
        assert(a@.subrange(0, i + 1) =~= a@.subrange(0, i as int).push(x));
        assert(b@.subrange(0, i + 1) =~= b@.subrange(0, i as int).push(y));
        i += 1;
    }
    let r = n < m;
    if r {
        assert(less_at(a@, b@, i as int));
    } else {
        assert forall|k: int| !less_at(a@, b@, k) by {
            if 0 <= k && k < i {
                assert(a@.subrange(0, i as int)[k] == b@.subrange(0, i as int)[k]);
            }
        }
    }
    r
}

pub open spec fn date_is(d: Seq<char>) -> spec_fn(DailyLog) -> bool {
    |l: DailyLog| l.date@ == d
}

/// The records of `s` dated `d`, in their order in `s`.
pub open spec fn with_date(s: Seq<DailyLog>, d: Seq<char>) -> Seq<DailyLog> {
    s.filter(date_is(d))
}

/// No record of `s` is dated `d`.
proof fn lemma_with_date_empty(s: Seq<DailyLog>, d: Seq<char>)
    requires
        forall|j: int| 0 <= j < s.len() ==> s[j].date@ != d,
    ensures
        with_date(s, d) == Seq::<DailyLog>::empty(),
    decreases s.len(),
{
    reveal(Seq::filter);
    if s.len() > 0 {
        lemma_with_date_empty(s.drop_last(), d);
    } else {
        assert(s =~= Seq::<DailyLog>::empty());
    }
}

/// Appending a record appends it to the records of its own date only.
proof fn lemma_with_date_push(s: Seq<DailyLog>, x: DailyLog, d: Seq<char>)
    ensures
        with_date(s.push(x), d) == if x.date@ == d {
            with_date(s, d).push(x)
        } else {
            with_date(s, d)
        },
{
    reveal(Seq::filter);
    assert(s.push(x).drop_last() =~= s);
}

/// The records ordered newest first: a rearrangement of `logs` in which no
/// record is followed by one with a later date, and records that share a
/// date keep their order in `logs`.
pub fn sort_by_date_desc(logs: Vec<DailyLog>) -> (r: Vec<DailyLog>)
    ensures
        sorted_desc(r@),
        r@.to_multiset() == logs@.to_multiset(),
        forall|d: Seq<char>| #[trigger] with_date(r@, d) == with_date(logs@, d),
{
    let ghost all = logs@;
    let mut rest = logs;
    let mut out: Vec<DailyLog> = Vec::new();
    let ghost mut i: int = 0;
    proof {
        broadcast use vstd::seq_lib::group_to_multiset_ensures;
        assert(all.subrange(0, 0) =~= Seq::<DailyLog>::empty());
        assert(forall|d: Seq<char>| #[trigger] with_date(out@, d) == with_date(all.subrange(0, 0), d));
    }
    while rest.len() > 0
        invariant
            0 <= i <= all.len(),
            rest@ == all.subrange(i, all.len() as int),
            sorted_desc(out@),
            out@.to_multiset() == all.subrange(0, i).to_multiset(),
            forall|d: Seq<char>| #[trigger] with_date(out@, d) == with_date(all.subrange(0, i), d),
        decreases rest.len(),
    {
        let ghost out0 = out@;
        let x = rest.remove(0);
        proof {
            broadcast use vstd::seq_lib::group_to_multiset_ensures;
            assert(x == all[i]);
            assert(all.subrange(0, i + 1) =~= all.subrange(0, i).push(x));
            assert(rest@ =~= all.subrange(i + 1, all.len() as int));
        }
        let mut k: usize = 0;
        while k < out.len()
            invariant
                out@ == out0,
                k <= out.len(),
                forall|j: int| 0 <= j < k ==> !date_less(out@[j].date@, x.date@),
            ensures
                out@ == out0,
                k <= out.len(),
                forall|j: int| 0 <= j < k ==> !date_less(out@[j].date@, x.date@),
                k < out.len() ==> date_less(out@[k as int].date@, x.date@),
            decreases out.len() - k,
        {
            if date_before(out[k].date.as_str(), x.date.as_str()) {
                break;
            }
            k += 1;
        }
        out.insert(k, x);
        proof {
            broadcast use vstd::seq_lib::group_to_multiset_ensures;
            let front = out0.subrange(0, k as int);
            let back = out0.subrange(k as int, out0.len() as int);
            assert(out@ =~= front + seq![x] + back);
            assert(out0 =~= front + back);
            vstd::seq_lib::lemma_multiset_commutative(front + seq![x], back);
            vstd::seq_lib::lemma_multiset_commutative(front, seq![x]);
            vstd::seq_lib::lemma_multiset_commutative(front, back);
            assert(out@.to_multiset() =~= out0.to_multiset().insert(x));
            assert forall|i: int, j: int| 0 <= i < j < out@.len() implies !date_less(out@[i].date@, out@[j].date@) by {
                if j == k {
                } else if i == k {
                    let y = out0[j - 1];
                    assert(date_less(out0[k as int].date@, x.date@));
                    if j - 1 > k {
                        assert(!date_less(out0[k as int].date@, y.date@));
                    }
                    if date_less(x.date@, y.date@) {
                        lemma_less_transitive(out0[k as int].date@, x.date@, y.date@);
                        if j - 1 == k {
                            lemma_less_asymmetric(out0[k as int].date@, x.date@);
                        }
                    }
                } else {
                    let ii = if i < k { i } else { i - 1 };
                    let jj = if j < k { j } else { j - 1 };
                    assert(out@[i] == out0[ii]);
                    assert(out@[j] == out0[jj]);
                }
            }
            // every record from position k on is strictly older than x
            assert forall|j: int| 0 <= j < back.len() implies back[j].date@ != x.date@ by {
                assert(back[j] == out0[k + j]);
                assert(date_less(out0[k as int].date@, x.date@));
                if back[j].date@ == x.date@ {
                    if j == 0 {
                        lemma_less_asymmetric(x.date@, x.date@);
                    } else {
                        assert(!date_less(out0[k as int].date@, out0[k + j].date@));
                    }
                }
            }
            assert forall|d: Seq<char>| #[trigger] with_date(out@, d) == with_date(all.subrange(0, i + 1), d) by {
                let p = date_is(d);
                Seq::filter_distributes_over_add(front + seq![x], back, p);
                Seq::filter_distributes_over_add(front, seq![x], p);
                Seq::filter_distributes_over_add(front, back, p);
                lemma_with_date_push(all.subrange(0, i), x, d);
                lemma_with_date_push(Seq::<DailyLog>::empty(), x, d);
                assert(Seq::<DailyLog>::empty().push(x) =~= seq![x]);
                lemma_with_date_empty(Seq::<DailyLog>::empty(), d);
                if x.date@ == d {
                    lemma_with_date_empty(back, d);
                    assert(with_date(seq![x], d) =~= seq![x]);
                    assert(with_date(out@, d) =~= with_date(out0, d).push(x));
                } else {
                    assert(with_date(seq![x], d) =~= Seq::<DailyLog>::empty());
                    assert(with_date(out@, d) =~= with_date(out0, d));
                }
            }
            i = i + 1;
        }
    }
    proof {
        assert(all.subrange(0, i) =~= all);
    }
    out
}

} // verus!
