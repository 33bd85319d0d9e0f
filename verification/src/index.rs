//! The temporal index: an ordered mapping from calendar date to page.
//!
//! At most one page per date; a later page with a colliding date overwrites
//! the earlier entry's slot. Supports ascending iteration, year and month
//! range queries, and nearest-neighbor lookups, all against the invariant
//! that entries are strictly sorted by date and each entry's key equals its
//! page's resolved entry date.

use vstd::prelude::*;
use crate::date::{Date, PageTime, date_le, date_lt};
use crate::page::Page;

verus! {

/// One slot of the temporal index.
pub struct Entry {
    pub date: Date,
    pub page: Page,
}

/// Entries strictly ascending by date.
pub open spec fn entries_sorted(s: Seq<Entry>) -> bool {
    forall|i: int, j: int| 0 <= i < j < s.len() ==> date_lt(s[i].date, s[j].date)
}

/// Every entry's key is a real date and equals its page's entry date.
pub open spec fn entries_wf(s: Seq<Entry>) -> bool {
    forall|i: int|
        0 <= i < s.len() ==> (#[trigger] s[i]).date.wf() && s[i].page.wf() && s[i].page.date
            == Some(PageTime::Day(s[i].date))
}

/// Sorted insertion with overwrite: the entry for `e.date`, if any, is
/// replaced; otherwise `e` takes its place in date order.
pub open spec fn seq_insert(s: Seq<Entry>, e: Entry) -> Seq<Entry>
    decreases s.len(),
{
    if s.len() == 0 {
        seq![e]
    } else if date_lt(s.last().date, e.date) {
        s.push(e)
    } else if s.last().date == e.date {
        s.drop_last().push(e)
    } else {
        seq_insert(s.drop_last(), e).push(s.last())
    }
}

/// Sorted insertion keeps entries sorted and well-formed, adds the new
/// entry, keeps every entry with a different date, and adds nothing else.
pub proof fn lemma_seq_insert(s: Seq<Entry>, e: Entry)
    requires
        entries_sorted(s),
    ensures
        entries_sorted(seq_insert(s, e)),
        entries_wf(s) && e.date.wf() && e.page.wf() && e.page.date == Some(PageTime::Day(e.date))
            ==> entries_wf(seq_insert(s, e)),
        seq_insert(s, e).len() >= 1,
        seq_insert(s, e).len() <= s.len() + 1,
        seq_insert(s, e).contains(e),
        forall|x: Entry|
            seq_insert(s, e).contains(x) <==> (x == e || (s.contains(x) && x.date != e.date)),
    decreases s.len(),
{
    let r = seq_insert(s, e);
    if s.len() == 0 {
        assert(r =~= seq![e]);
        assert(r.contains(e)) by { assert(r[0] == e) }
        assert forall|x: Entry| r.contains(x) implies x == e by {}
    } else if date_lt(s.last().date, e.date) {
        assert(r =~= s.push(e));
        assert(r.contains(e)) by { assert(r[s.len() as int] == e) }
        assert forall|i: int| 0 <= i < s.len() implies date_lt(s[i].date, e.date) by {
            if i < s.len() - 1 {
                assert(date_lt(s[i].date, s.last().date));
            }
        }
        assert(entries_sorted(r)) by {
            assert(forall|i: int, j: int|
                0 <= i < j < r.len() && j < s.len() ==> date_lt(r[i].date, r[j].date));
        }
        assert forall|x: Entry| r.contains(x) implies (x == e || (s.contains(x) && x.date
            != e.date)) by {
            let i = choose|i: int| 0 <= i < r.len() && r[i] == x;
            if i < s.len() {
                assert(s[i] == x);
                assert(s.contains(x));
                assert(date_lt(s[i].date, e.date));
            }
        }
        assert forall|x: Entry| (x == e || (s.contains(x) && x.date != e.date)) implies r.contains(
            x,
        ) by {
            if x == e {
                assert(r[s.len() as int] == e);
            } else {
                let i = choose|i: int| 0 <= i < s.len() && s[i] == x;
                assert(r[i] == x);
            }
        }
    } else if s.last().date == e.date {
        assert(r =~= s.drop_last().push(e));
        assert(r.contains(e)) by { assert(r[s.len() - 1] == e) }
        assert forall|i: int| 0 <= i < s.len() - 1 implies date_lt(s[i].date, e.date) by {
            assert(date_lt(s[i].date, s.last().date));
        }
        assert(entries_sorted(r)) by {
            assert(forall|i: int, j: int|
                0 <= i < j < r.len() && j < s.len() - 1 ==> date_lt(r[i].date, r[j].date));
        }
        assert forall|x: Entry| r.contains(x) implies (x == e || (s.contains(x) && x.date
            != e.date)) by {
            let i = choose|i: int| 0 <= i < r.len() && r[i] == x;
            if i < s.len() - 1 {
                assert(s[i] == x);
                assert(s.contains(x));
                assert(date_lt(s[i].date, e.date));
            }
        }
        assert forall|x: Entry| (x == e || (s.contains(x) && x.date != e.date)) implies r.contains(
            x,
        ) by {
            if x == e {
                assert(r[s.len() - 1] == e);
            } else {
                let i = choose|i: int| 0 <= i < s.len() && s[i] == x;
                assert(i < s.len() - 1);
                assert(r[i] == x);
            }
        }
    } else {
        let front = s.drop_last();
        assert(entries_sorted(front)) by {
            assert(forall|i: int, j: int|
                0 <= i < j < front.len() ==> date_lt(front[i].date, front[j].date));
        }
        lemma_seq_insert(front, e);
        let rf = seq_insert(front, e);
        assert(r =~= rf.push(s.last()));
        assert(r.contains(e)) by {
            let i = choose|i: int| 0 <= i < rf.len() && rf[i] == e;
            assert(r[i] == e);
        }
        // The kept last entry stays above everything inserted before it.
        assert forall|i: int| 0 <= i < rf.len() implies date_lt(rf[i].date, s.last().date) by {
            assert(rf.contains(rf[i]));
            if rf[i] == e {
                assert(date_lt(e.date, s.last().date));
            } else {
                assert(front.contains(rf[i]));
                let j = choose|j: int| 0 <= j < front.len() && front[j] == rf[i];
                assert(s[j] == rf[i]);
                assert(date_lt(s[j].date, s.last().date));
            }
        }
        assert(entries_sorted(r)) by {
            assert(forall|i: int, j: int|
                0 <= i < j < r.len() && j < rf.len() ==> date_lt(r[i].date, r[j].date));
        }
        assert forall|x: Entry| r.contains(x) implies (x == e || (s.contains(x) && x.date
            != e.date)) by {
            let i = choose|i: int| 0 <= i < r.len() && r[i] == x;
            if i < rf.len() {
                assert(rf.contains(x));
                if x != e {
                    assert(front.contains(x));
                    let j = choose|j: int| 0 <= j < front.len() && front[j] == x;
                    assert(s[j] == x);
                    assert(s.contains(x));
                }
            } else {
                assert(x == s.last());
                assert(s.contains(x));
                assert(date_lt(e.date, s.last().date));
            }
        }
        assert forall|x: Entry| (x == e || (s.contains(x) && x.date != e.date)) implies r.contains(
            x,
        ) by {
            if x == e {
                assert(r.contains(e));
            } else {
                let j = choose|j: int| 0 <= j < s.len() && s[j] == x;
                if j < s.len() - 1 {
                    assert(front[j] == x);
                    assert(front.contains(x));
                    assert(rf.contains(x));
                    let i = choose|i: int| 0 <= i < rf.len() && rf[i] == x;
                    assert(r[i] == x);
                } else {
                    assert(x == s.last());
                    assert(r[r.len() - 1] == x);
                }
            }
        }
    }
    if entries_wf(s) && e.date.wf() && e.page.wf() && e.page.date == Some(PageTime::Day(e.date)) {
        assert forall|i: int| 0 <= i < r.len() implies (#[trigger] r[i]).date.wf() && r[i].page.wf()
            && r[i].page.date == Some(PageTime::Day(r[i].date)) by {
            assert(r.contains(r[i]));
            if r[i] != e {
                assert(s.contains(r[i]));
                let j = choose|j: int| 0 <= j < s.len() && s[j] == r[i];
            }
        }
    }
}

/// Whether `d` lies in year `y`'s query range `[Jan 1 of y, Jan 1 of y+1)`.
pub open spec fn in_year_range(d: Date, y: int) -> bool {
    &&& date_le(Date { year: y as i32, month: 1, day: 1 }, d)
    &&& date_lt(d, Date { year: (y + 1) as i32, month: 1, day: 1 })
}

/// Whether `d` lies in the query range of month `m` of year `y`:
/// `[1st of the month, 1st of the following month)`.
pub open spec fn in_month_range(d: Date, y: int, m: int) -> bool {
    &&& date_le(Date { year: y as i32, month: m as u8, day: 1 }, d)
    &&& date_lt(
        d,
        if m == 12 {
            Date { year: (y + 1) as i32, month: 1, day: 1 }
        } else {
            Date { year: y as i32, month: (m + 1) as u8, day: 1 }
        },
    )
}

/// Law: for well-formed dates, a year's range holds exactly the dates of
/// that year, and a month's range exactly the dates of that month. Hence
/// the union of the twelve month ranges of a year equals the year's range,
/// and distinct month ranges are disjoint: no date is double-counted.
pub proof fn lemma_ranges_partition(d: Date, y: int)
    requires
        d.wf(),
        0 <= y <= 9999,
    ensures
        in_year_range(d, y) <==> d.year == y,
        forall|m: int| 1 <= m <= 12 ==> (in_month_range(d, y, m) <==> d.year == y && d.month == m),
        in_year_range(d, y) <==> exists|m: int| 1 <= m <= 12 && in_month_range(d, y, m),
        forall|m1: int, m2: int|
            1 <= m1 <= 12 && 1 <= m2 <= 12 && m1 != m2 ==> !(in_month_range(d, y, m1)
                && in_month_range(d, y, m2)),
{
    assert forall|m: int| 1 <= m <= 12 implies (in_month_range(d, y, m) <==> d.year == y && d.month
        == m) by {
        assert(1 <= (d.month as int) <= 12);
    }
    if in_year_range(d, y) {
        assert(in_month_range(d, y, d.month as int));
    }
    if exists|m: int| 1 <= m <= 12 && in_month_range(d, y, m) {
        let m = choose|m: int| 1 <= m <= 12 && in_month_range(d, y, m);
        assert(d.year == y);
    }
}

/// The ordered temporal index.
pub struct TemporalIndex {
    entries: Vec<Entry>,
}

impl View for TemporalIndex {
    type V = Seq<Entry>;

    closed spec fn view(&self) -> Seq<Entry> {
        self.entries@
    }
}

impl TemporalIndex {
    /// The index invariant: strictly sorted, well-formed entries whose keys
    /// equal their pages' entry dates.
    pub open spec fn wf(&self) -> bool {
        entries_sorted(self@) && entries_wf(self@)
    }

    pub fn new() -> (r: TemporalIndex)
        ensures
            r@ == Seq::<Entry>::empty(),
            r.wf(),
    {
        TemporalIndex { entries: Vec::new() }
    }

    pub fn len(&self) -> (r: usize)
        ensures
            r == self@.len(),
    {
        self.entries.len()
    }

    pub fn entry(&self, i: usize) -> (r: &Entry)
        requires
            i < self@.len(),
        ensures
            *r == self@[i as int],
    {
        &self.entries[i]
    }

    /// Insert `page` under `date`, overwriting any entry with that date.
    pub fn insert(&mut self, date: Date, page: Page)
        requires
            old(self).wf(),
            date.wf(),
            page.wf(),
            page.date == Some(PageTime::Day(date)),
        ensures
            final(self).wf(),
            final(self)@ == seq_insert(old(self)@, Entry { date, page }),
    {
        let e = Entry { date, page };
        proof {
            lemma_seq_insert(old(self)@, e);
        }
        Self::insert_rec(&mut self.entries, e);
    }

    /// The least index whose entry's date is on or after `d`: entries below
    /// it lie strictly before `d`, entries from it on lie on or after it.
    pub fn lower_bound(&self, d: Date) -> (r: usize)
        requires
            self.wf(),
        ensures
            r <= self@.len(),
            forall|j: int| 0 <= j < r ==> date_lt(self@[j].date, d),
            forall|j: int| r <= j < self@.len() ==> date_le(d, self@[j].date),
    {
        let mut lo: usize = 0;
        let mut hi: usize = self.entries.len();
        while lo < hi
            invariant
                lo <= hi <= self@.len(),
                self.wf(),
                forall|j: int| 0 <= j < lo ==> date_lt(self@[j].date, d),
                forall|j: int| hi <= j < self@.len() ==> date_le(d, self@[j].date),
            decreases hi - lo,
        {
            let mid = lo + (hi - lo) / 2;
            if self.entries[mid].date.lt(&d) {
                proof {
                    assert forall|j: int| 0 <= j < mid + 1 implies date_lt(
                        self@[j].date,
                        d,
                    ) by {
                        if j < mid {
                            assert(date_lt(self@[j].date, self@[mid as int].date));
                        }
                    }
                }
                lo = mid + 1;
            } else {
                proof {
                    assert forall|j: int| mid <= j < self@.len() implies date_le(
                        d,
                        self@[j].date,
                    ) by {
                        if j > mid {
                            assert(date_lt(self@[mid as int].date, self@[j].date));
                        }
                    }
                }
                hi = mid;
            }
        }
        lo
    }

    /// The least index whose entry's date is strictly after `d`.
    pub fn upper_bound(&self, d: Date) -> (r: usize)
        requires
            self.wf(),
        ensures
            r <= self@.len(),
            forall|j: int| 0 <= j < r ==> date_le(self@[j].date, d),
            forall|j: int| r <= j < self@.len() ==> date_lt(d, self@[j].date),
    {
        let mut lo: usize = 0;
        let mut hi: usize = self.entries.len();
        while lo < hi
            invariant
                lo <= hi <= self@.len(),
                self.wf(),
                forall|j: int| 0 <= j < lo ==> date_le(self@[j].date, d),
                forall|j: int| hi <= j < self@.len() ==> date_lt(d, self@[j].date),
            decreases hi - lo,
        {
            let mid = lo + (hi - lo) / 2;
            if d.lt(&self.entries[mid].date) {
                proof {
                    assert forall|j: int| mid <= j < self@.len() implies date_lt(
                        d,
                        self@[j].date,
                    ) by {
                        if j > mid {
                            assert(date_lt(self@[mid as int].date, self@[j].date));
                        }
                    }
                }
                hi = mid;
            } else {
                proof {
                    assert forall|j: int| 0 <= j < mid + 1 implies date_le(
                        self@[j].date,
                        d,
                    ) by {
                        if j < mid {
                            assert(date_lt(self@[j].date, self@[mid as int].date));
                        }
                    }
                }
                lo = mid + 1;
            }
        }
        lo
    }

    /// Indices of the entries falling in year `y`: the range
    /// `[Jan 1 of y, Jan 1 of y+1)`.
    pub fn year_range(&self, y: i32) -> (r: (usize, usize))
        requires
            self.wf(),
            0 <= y <= 9999,
        ensures
            r.0 <= r.1 <= self@.len(),
            forall|i: int|
                0 <= i < self@.len() ==> (in_year_range(self@[i].date, y as int) <==> r.0 <= i
                    < r.1),
    {
        let first = Date { year: y, month: 1, day: 1 };
        let next = Date { year: y + 1, month: 1, day: 1 };
        let lo = self.lower_bound(first);
        let hi = self.lower_bound(next);
        proof {
            assert forall|i: int| 0 <= i < self@.len() implies (in_year_range(
                self@[i].date,
                y as int,
            ) <==> lo <= i < hi) by {
                if i < lo {
                    assert(date_lt(self@[i].date, first));
                }
                if lo <= i < hi && hi <= self@.len() {
                    assert(date_le(first, self@[i as int].date));
                    assert(date_lt(self@[i].date, next));
                }
            }
            assert(lo <= hi) by {
                if lo > hi && hi < self@.len() {
                    assert(date_le(next, self@[hi as int].date));
                    assert(date_lt(self@[hi as int].date, first));
                }
            }
        }
        (lo, hi)
    }

    /// Indices of the entries falling in month `m` of year `y`: the range
    /// `[1st of the month, 1st of the following month)`, December rolling
    /// into January of the next year.
    pub fn month_range(&self, y: i32, m: u8) -> (r: (usize, usize))
        requires
            self.wf(),
            0 <= y <= 9999,
            1 <= m <= 12,
        ensures
            r.0 <= r.1 <= self@.len(),
            forall|i: int|
                0 <= i < self@.len() ==> (in_month_range(self@[i].date, y as int, m as int) <==> r.0
                    <= i < r.1),
    {
        let first = Date { year: y, month: m, day: 1 };
        let next = if m == 12 {
            Date { year: y + 1, month: 1, day: 1 }
        } else {
            Date { year: y, month: m + 1, day: 1 }
        };
        let lo = self.lower_bound(first);
        let hi = self.lower_bound(next);
        proof {
            assert forall|i: int| 0 <= i < self@.len() implies (in_month_range(
                self@[i].date,
                y as int,
                m as int,
            ) <==> lo <= i < hi) by {
                if i < lo {
                    assert(date_lt(self@[i].date, first));
                }
                if lo <= i < hi && hi <= self@.len() {
                    assert(date_le(first, self@[i as int].date));
                    assert(date_lt(self@[i].date, next));
                }
            }
            assert(lo <= hi) by {
                if lo > hi && hi < self@.len() {
                    assert(date_le(next, self@[hi as int].date));
                    assert(date_lt(self@[hi as int].date, first));
                }
            }
        }
        (lo, hi)
    }

    /// The entry nearest strictly before `d`, as an index.
    pub fn neighbor_before(&self, d: Date) -> (r: Option<usize>)
        requires
            self.wf(),
        ensures
            match r {
                None => forall|j: int| 0 <= j < self@.len() ==> !date_lt(self@[j].date, d),
                Some(i) => i < self@.len() && date_lt(self@[i as int].date, d) && (forall|j: int|
                    i < j < self@.len() ==> !date_lt(self@[j].date, d)),
            },
    {
        let i = self.lower_bound(d);
        if i > 0 {
            Some(i - 1)
        } else {
            None
        }
    }

    /// The entry nearest strictly after `d`, as an index.
    pub fn neighbor_after(&self, d: Date) -> (r: Option<usize>)
        requires
            self.wf(),
        ensures
            match r {
                None => forall|j: int| 0 <= j < self@.len() ==> !date_lt(d, self@[j].date),
                Some(i) => i < self@.len() && date_lt(d, self@[i as int].date) && (forall|j: int|
                    0 <= j < i ==> !date_lt(d, self@[j].date)),
            },
    {
        let i = self.upper_bound(d);
        if i < self.entries.len() {
            Some(i)
        } else {
            None
        }
    }

    fn insert_rec(v: &mut Vec<Entry>, e: Entry)
        ensures
            final(v)@ == seq_insert(old(v)@, e),
        decreases old(v)@.len(),
    {
        if v.len() == 0 {
            v.push(e);
            proof {
                assert(v@ =~= seq![e]);
            }
        } else {
            let n = v.len();
            let last_lt = v[n - 1].date.lt(&e.date);
            let last_eq = v[n - 1].date == e.date;
            proof {
                assert(old(v)@.last() == old(v)@[n - 1]);
            }
            if last_lt {
                v.push(e);
            } else if last_eq {
                let _ = v.pop();
                v.push(e);
                proof {
                    assert(v@ =~= old(v)@.drop_last().push(e));
                }
            } else {
                let tail = v.pop().unwrap();
                Self::insert_rec(v, e);
                v.push(tail);
            }
        }
    }
}

} // verus!
