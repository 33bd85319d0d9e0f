//! The feed composer: one globally time-ordered sequence of publications.
//!
//! Slug-anchored pages (in input order) and date-anchored pages (in
//! ascending date order) that carry a publish value are merged and ordered
//! by that publish timestamp, a bare date counting as midnight UTC. Ties
//! keep the merge order: the sort specification inserts each later source
//! behind every earlier one whose key is not greater, so it is stable by
//! construction. Pages without a publish value contribute nothing.

use vstd::prelude::*;
use vstd::seq_lib::group_to_multiset_ensures;
use crate::date::{DateTime, datetime_le, datetime_lt};
use crate::generator::Generator;
use crate::index::Entry;
use crate::page::Page;
use crate::text::{format_day, spec_format_day};

verus! {

/// One publication in the feed: what the syndication document needs,
/// plus the page identity so the caller can render the matching content.
pub struct FeedItem {
    pub id: u128,
    pub url: String,
    pub title: String,
    pub summary: String,
    pub published: DateTime,
    pub updated: DateTime,
}

/// A publication as the specifications see it.
pub struct FeedItemV {
    pub id: u128,
    pub url: Seq<char>,
    pub title: Seq<char>,
    pub summary: Seq<char>,
    pub published: DateTime,
    pub updated: DateTime,
}

impl View for FeedItem {
    type V = FeedItemV;

    open spec fn view(&self) -> FeedItemV {
        FeedItemV {
            id: self.id,
            url: self.url@,
            title: self.title@,
            summary: self.summary@,
            published: self.published,
            updated: self.updated,
        }
    }
}

/// The views of a run of publications.
pub open spec fn views_of(s: Seq<FeedItem>) -> Seq<FeedItemV> {
    s.map_values(|it: FeedItem| it@)
}

/// The candidate a slug page contributes, if it carries a publish value:
/// keyed by that value's instant, tagged with the slug as its URL.
pub open spec fn spec_cands_slugs(s: Seq<(String, Page)>) -> Seq<FeedItemV>
    decreases s.len(),
{
    if s.len() == 0 {
        Seq::empty()
    } else {
        spec_cands_slugs(s.drop_last()) + (match s.last().1.published {
            Some(t) => seq![
                FeedItemV {
                    id: s.last().1.id,
                    url: s.last().0@,
                    title: s.last().1.title@,
                    summary: s.last().1.description@,
                    published: t.spec_instant(),
                    updated: s.last().1.last_edited,
                },
            ],
            None => Seq::<FeedItemV>::empty(),
        })
    }
}

/// The candidate an index entry contributes, if its page carries a publish
/// value: keyed by that value's instant, tagged with its day link.
pub open spec fn spec_cands_tree(s: Seq<Entry>) -> Seq<FeedItemV>
    decreases s.len(),
{
    if s.len() == 0 {
        Seq::empty()
    } else {
        spec_cands_tree(s.drop_last()) + (match s.last().page.published {
            Some(t) => seq![
                FeedItemV {
                    id: s.last().page.id,
                    url: spec_format_day(s.last().date, true),
                    title: s.last().page.title@,
                    summary: s.last().page.description@,
                    published: t.spec_instant(),
                    updated: s.last().page.last_edited,
                },
            ],
            None => Seq::<FeedItemV>::empty(),
        })
    }
}

/// Every feed candidate of a run: slug pages first, then index entries,
/// both in their own order.
pub open spec fn spec_candidates(g: Generator) -> Seq<FeedItemV> {
    spec_cands_slugs(g.article_pages@) + spec_cands_tree(g.lookup_tree@)
}

/// How many slug pages carry a publish value.
pub open spec fn count_published_slugs(s: Seq<(String, Page)>) -> int
    decreases s.len(),
{
    if s.len() == 0 {
        0
    } else {
        count_published_slugs(s.drop_last()) + (if s.last().1.published is Some {
            1int
        } else {
            0int
        })
    }
}

/// How many index entries carry a publish value.
pub open spec fn count_published_tree(s: Seq<Entry>) -> int
    decreases s.len(),
{
    if s.len() == 0 {
        0
    } else {
        count_published_tree(s.drop_last()) + (if s.last().page.published is Some {
            1int
        } else {
            0int
        })
    }
}

/// Law (feed omission): the slug-page candidates are exactly one per page
/// with a publish value - a page without one contributes no feed entry,
/// whatever else it appears in.
pub proof fn lemma_cands_slugs_count(s: Seq<(String, Page)>)
    ensures
        spec_cands_slugs(s).len() == count_published_slugs(s),
    decreases s.len(),
{
    if s.len() > 0 {
        lemma_cands_slugs_count(s.drop_last());
    }
}

/// Law (feed omission), for the date-anchored side.
pub proof fn lemma_cands_tree_count(s: Seq<Entry>)
    ensures
        spec_cands_tree(s).len() == count_published_tree(s),
    decreases s.len(),
{
    if s.len() > 0 {
        lemma_cands_tree_count(s.drop_last());
    }
}

/// Stable insertion from the right: `x` lands behind every element whose
/// key is not greater, so equal keys keep their old order.
pub open spec fn insert_back(s: Seq<FeedItemV>, x: FeedItemV) -> Seq<FeedItemV>
    decreases s.len(),
{
    if s.len() == 0 {
        seq![x]
    } else if datetime_le(s.last().published, x.published) {
        s.push(x)
    } else {
        insert_back(s.drop_last(), x).push(s.last())
    }
}

/// The stable sort of `s` by publish instant: each element inserted in
/// turn, later sources landing behind earlier equal keys.
pub open spec fn spec_stable_sort(s: Seq<FeedItemV>) -> Seq<FeedItemV>
    decreases s.len(),
{
    if s.len() == 0 {
        Seq::empty()
    } else {
        insert_back(spec_stable_sort(s.drop_last()), s.last())
    }
}

/// Ascending by publish instant.
pub open spec fn items_sorted(s: Seq<FeedItemV>) -> bool {
    forall|i: int, j: int|
        0 <= i < j < s.len() ==> datetime_le(
            (#[trigger] s[i]).published,
            (#[trigger] s[j]).published,
        )
}

proof fn lemma_insert_back(s: Seq<FeedItemV>, x: FeedItemV)
    requires
        items_sorted(s),
    ensures
        items_sorted(insert_back(s, x)),
        insert_back(s, x).len() == s.len() + 1,
        insert_back(s, x).to_multiset() == s.to_multiset().insert(x),
    decreases s.len(),
{
    broadcast use group_to_multiset_ensures;

    let r = insert_back(s, x);
    if s.len() == 0 {
        assert(r =~= Seq::<FeedItemV>::empty().push(x));
        assert(r.to_multiset() =~= s.to_multiset().insert(x));
    } else if datetime_le(s.last().published, x.published) {
        assert(r == s.push(x));
        assert forall|i: int| 0 <= i < s.len() implies datetime_le(
            s[i].published,
            x.published,
        ) by {
            if i < s.len() - 1 {
                assert(datetime_le(s[i].published, s.last().published));
            }
        }
        assert(items_sorted(r)) by {
            assert(forall|i: int, j: int|
                0 <= i < j < r.len() && j < s.len() ==> datetime_le(
                    r[i].published,
                    r[j].published,
                ));
        }
    } else {
        let front = s.drop_last();
        assert(items_sorted(front)) by {
            assert(forall|i: int, j: int|
                0 <= i < j < front.len() ==> datetime_le(front[i].published, front[j].published));
        }
        lemma_insert_back(front, x);
        let rf = insert_back(front, x);
        assert(r == rf.push(s.last()));
        assert(datetime_lt(x.published, s.last().published));
        assert forall|i: int| 0 <= i < rf.len() implies datetime_le(
            rf[i].published,
            s.last().published,
        ) by {
            assert(rf.to_multiset().contains(rf[i]));
            assert(front.to_multiset().insert(x).contains(rf[i]));
            if rf[i] == x {
            } else {
                assert(front.to_multiset().contains(rf[i]));
                assert(front.contains(rf[i]));
                let j = choose|j: int| 0 <= j < front.len() && front[j] == rf[i];
                assert(s[j] == rf[i]);
                assert(datetime_le(s[j].published, s.last().published));
            }
        }
        assert(items_sorted(r)) by {
            assert(forall|i: int, j: int|
                0 <= i < j < r.len() && j < rf.len() ==> datetime_le(
                    r[i].published,
                    r[j].published,
                ));
        }
        assert(s =~= front.push(s.last()));
        assert(s.to_multiset() == front.to_multiset().insert(s.last()));
        assert(r.to_multiset() == rf.to_multiset().insert(s.last()));
        assert(r.to_multiset() =~= s.to_multiset().insert(x));
    }
}

/// Law (feed ordering): the stable sort is ascending by publish instant
/// and is a permutation of its input.
pub proof fn lemma_stable_sort(s: Seq<FeedItemV>)
    ensures
        items_sorted(spec_stable_sort(s)),
        spec_stable_sort(s).len() == s.len(),
        spec_stable_sort(s).to_multiset() == s.to_multiset(),
    decreases s.len(),
{
    broadcast use group_to_multiset_ensures;

    if s.len() == 0 {
        assert(spec_stable_sort(s).to_multiset() =~= s.to_multiset());
    } else {
        lemma_stable_sort(s.drop_last());
        lemma_insert_back(spec_stable_sort(s.drop_last()), s.last());
        assert(s =~= s.drop_last().push(s.last()));
        assert(s.to_multiset() == s.drop_last().to_multiset().insert(s.last()));
    }
}

/// Copy a feed item, preserving its value exactly.
pub fn clone_feed_item(it: &FeedItem) -> (r: FeedItem)
    ensures
        r == *it,
{
    FeedItem {
        id: it.id,
        url: it.url.clone(),
        title: it.title.clone(),
        summary: it.summary.clone(),
        published: it.published,
        updated: it.updated,
    }
}

fn sorted_insert(v: &mut Vec<FeedItem>, x: FeedItem)
    ensures
        views_of(final(v)@) == insert_back(views_of(old(v)@), x@),
    decreases old(v)@.len(),
{
    let ghost xv = x@;
    if v.len() == 0 {
        v.push(x);
        proof {
            assert(views_of(v@) =~= seq![xv]);
            assert(views_of(old(v)@).len() == 0);
        }
    } else {
        let n = v.len();
        let le = v[n - 1].published.le(&x.published);
        proof {
            assert(old(v)@.last() == old(v)@[n - 1]);
            assert(views_of(old(v)@).last() == old(v)@[n - 1]@);
        }
        if le {
            v.push(x);
            proof {
                assert(views_of(v@) =~= views_of(old(v)@).push(xv));
            }
        } else {
            let tail = v.pop().unwrap();
            let ghost tailv = tail@;
            proof {
                assert(views_of(v@) =~= views_of(old(v)@).drop_last());
            }
            let ghost mid = v@;
            sorted_insert(v, x);
            v.push(tail);
            proof {
                assert(views_of(v@) =~= insert_back(views_of(mid), xv).push(tailv));
            }
        }
    }
}

impl Generator {
    /// The feed's publications, globally ordered by publish instant,
    /// stably: ties keep the merge order (slug pages before index
    /// entries, each side in its own order).
    pub fn feed_items(&self) -> (r: Vec<FeedItem>)
        requires
            self.wf(),
        ensures
            views_of(r@) == spec_stable_sort(spec_candidates(*self)),
    {
        let mut cands: Vec<FeedItem> = Vec::new();
        let n_a = self.article_pages.len();
        let mut i: usize = 0;
        proof {
            assert(self.article_pages@.take(0) =~= Seq::<(String, Page)>::empty());
        }
        while i < n_a
            invariant
                i <= n_a,
                n_a == self.article_pages@.len(),
                self.wf(),
                views_of(cands@) == spec_cands_slugs(self.article_pages@.take(i as int)),
            decreases n_a - i,
        {
            let pair = &self.article_pages[i];
            proof {
                assert(self.article_pages@.take(i + 1).drop_last() =~= self.article_pages@.take(
                    i as int,
                ));
                assert(self.article_pages@.take(i + 1).last() == self.article_pages@[i as int]);
            }
            if let Some(t) = &pair.1.published {
                let item = FeedItem {
                    id: pair.1.id,
                    url: pair.0.clone(),
                    title: pair.1.title.clone(),
                    summary: pair.1.description.clone(),
                    published: t.instant(),
                    updated: pair.1.last_edited,
                };
                let ghost itemv = item@;
                let ghost before = cands@;
                cands.push(item);
                proof {
                    assert(spec_cands_slugs(self.article_pages@.take(i + 1)) =~= spec_cands_slugs(
                        self.article_pages@.take(i as int),
                    ).push(itemv));
                    assert(views_of(cands@) =~= views_of(before).push(itemv));
                    assert(views_of(cands@) =~= spec_cands_slugs(
                        self.article_pages@.take(i + 1),
                    ));
                }
            } else {
                proof {
                    assert(spec_cands_slugs(self.article_pages@.take(i + 1)) =~= spec_cands_slugs(
                        self.article_pages@.take(i as int),
                    ));
                    assert(views_of(cands@) =~= spec_cands_slugs(
                        self.article_pages@.take(i + 1),
                    ));
                }
            }
            i = i + 1;
        }
        proof {
            assert(self.article_pages@.take(n_a as int) =~= self.article_pages@);
        }
        let n_t = self.lookup_tree.len();
        let mut j: usize = 0;
        proof {
            assert(self.lookup_tree@.take(0) =~= Seq::<Entry>::empty());
            assert(spec_cands_tree(self.lookup_tree@.take(0)) =~= Seq::<FeedItemV>::empty());
            assert(views_of(cands@) =~= spec_cands_slugs(self.article_pages@) + spec_cands_tree(
                self.lookup_tree@.take(0),
            ));
        }
        while j < n_t
            invariant
                j <= n_t,
                n_t == self.lookup_tree@.len(),
                self.wf(),
                views_of(cands@) == spec_cands_slugs(self.article_pages@) + spec_cands_tree(
                    self.lookup_tree@.take(j as int),
                ),
            decreases n_t - j,
        {
            let entry = self.lookup_tree.entry(j);
            proof {
                assert(self.lookup_tree@.take(j + 1).drop_last() =~= self.lookup_tree@.take(
                    j as int,
                ));
                assert(self.lookup_tree@.take(j + 1).last() == self.lookup_tree@[j as int]);
            }
            if let Some(t) = &entry.page.published {
                let item = FeedItem {
                    id: entry.page.id,
                    url: format_day(entry.date, true),
                    title: entry.page.title.clone(),
                    summary: entry.page.description.clone(),
                    published: t.instant(),
                    updated: entry.page.last_edited,
                };
                let ghost itemv = item@;
                let ghost before = cands@;
                cands.push(item);
                proof {
                    assert(spec_cands_tree(self.lookup_tree@.take(j + 1)) =~= spec_cands_tree(
                        self.lookup_tree@.take(j as int),
                    ).push(itemv));
                    assert(views_of(cands@) =~= views_of(before).push(itemv));
                    assert(views_of(cands@) =~= spec_cands_slugs(self.article_pages@)
                        + spec_cands_tree(self.lookup_tree@.take(j + 1)));
                }
            } else {
                proof {
                    assert(spec_cands_tree(self.lookup_tree@.take(j + 1)) =~= spec_cands_tree(
                        self.lookup_tree@.take(j as int),
                    ));
                    assert(views_of(cands@) =~= spec_cands_slugs(self.article_pages@)
                        + spec_cands_tree(self.lookup_tree@.take(j + 1)));
                }
            }
            j = j + 1;
        }
        proof {
            assert(self.lookup_tree@.take(n_t as int) =~= self.lookup_tree@);
        }
        stable_sort(cands)
    }
}

/// Sort publications by publish instant, stably.
pub fn stable_sort(items: Vec<FeedItem>) -> (r: Vec<FeedItem>)
    ensures
        views_of(r@) == spec_stable_sort(views_of(items@)),
{
    let ghost items_view = items@;
    let n = items.len();
    let mut out: Vec<FeedItem> = Vec::new();
    let mut i: usize = 0;
    proof {
        assert(views_of(items_view.take(0)) =~= Seq::<FeedItemV>::empty());
        assert(views_of(out@) =~= Seq::<FeedItemV>::empty());
    }
    while i < n
        invariant
            i <= n,
            n == items_view.len(),
            items@ == items_view,
            views_of(out@) == spec_stable_sort(views_of(items_view.take(i as int))),
        decreases n - i,
    {
        let x = clone_feed_item(&items[i]);
        proof {
            assert(views_of(items_view.take(i + 1)).drop_last() =~= views_of(
                items_view.take(i as int),
            ));
            assert(views_of(items_view.take(i + 1)).last() == items_view[i as int]@);
            assert(views_of(items_view.take(i + 1)).len() == i + 1);
        }
        sorted_insert(&mut out, x);
        i = i + 1;
    }
    proof {
        assert(items_view.take(n as int) =~= items_view);
    }
    out
}

/// The fold the feed's "last updated" value comes from: the latest
/// last-edited instant among the publications.
pub open spec fn spec_max_updated(s: Seq<FeedItemV>) -> DateTime
    recommends
        s.len() > 0,
    decreases s.len(),
{
    if s.len() <= 1 {
        s[0].updated
    } else {
        let m = spec_max_updated(s.drop_last());
        if datetime_le(m, s.last().updated) {
            s.last().updated
        } else {
            m
        }
    }
}

/// The maximum last-edited instant among the publications: the feed's own
/// "last updated" value, independent of publish order.
pub fn max_updated(items: &Vec<FeedItem>) -> (r: Option<DateTime>)
    ensures
        match r {
            None => items@.len() == 0,
            Some(m) => items@.len() > 0 && m == spec_max_updated(views_of(items@)) && (exists|
                i: int,
            |
                0 <= i < items@.len() && (#[trigger] items@[i]).updated == m) && (forall|i: int|
                0 <= i < items@.len() ==> datetime_le((#[trigger] items@[i]).updated, m)),
        },
{
    if items.len() == 0 {
        return None;
    }
    let mut m = items[0].updated;
    let ghost mut wit: int = 0;
    let mut i: usize = 1;
    let n = items.len();
    proof {
        assert(views_of(items@).take(1) =~= seq![items@[0]@]);
    }
    while i < n
        invariant
            1 <= i <= n,
            n == items@.len(),
            0 <= wit < i,
            items@[wit].updated == m,
            m == spec_max_updated(views_of(items@).take(i as int)),
            forall|k: int| 0 <= k < i ==> datetime_le((#[trigger] items@[k]).updated, m),
        decreases n - i,
    {
        proof {
            assert(views_of(items@).take(i + 1).drop_last() =~= views_of(items@).take(i as int));
            assert(views_of(items@).take(i + 1).last() == items@[i as int]@);
        }
        if m.le(&items[i].updated) {
            m = items[i].updated;
            proof {
                wit = i as int;
            }
        }
        i = i + 1;
    }
    proof {
        assert(views_of(items@).take(n as int) =~= views_of(items@));
    }
    Some(m)
}

/// Candidate publications carry real calendar times whenever the run state
/// is well-formed.
pub open spec fn items_dates_wf(s: Seq<FeedItemV>) -> bool {
    forall|i: int| 0 <= i < s.len() ==> (#[trigger] s[i]).published.wf() && s[i].updated.wf()
}

proof fn lemma_cands_slugs_wf(s: Seq<(String, Page)>)
    requires
        forall|k: int| 0 <= k < s.len() ==> (#[trigger] s[k]).1.wf(),
    ensures
        items_dates_wf(spec_cands_slugs(s)),
    decreases s.len(),
{
    if s.len() > 0 {
        assert(forall|k: int|
            0 <= k < s.drop_last().len() ==> (#[trigger] s.drop_last()[k]).1.wf());
        lemma_cands_slugs_wf(s.drop_last());
        assert(s[s.len() - 1].1.wf());
    }
}

proof fn lemma_cands_tree_wf(s: Seq<Entry>)
    requires
        crate::index::entries_wf(s),
    ensures
        items_dates_wf(spec_cands_tree(s)),
    decreases s.len(),
{
    if s.len() > 0 {
        assert(crate::index::entries_wf(s.drop_last())) by {
            assert(forall|k: int| 0 <= k < s.drop_last().len() ==> s.drop_last()[k] == s[k]);
        }
        lemma_cands_tree_wf(s.drop_last());
        assert(s[s.len() - 1].page.wf());
    }
}

/// The feed's ordered publications carry real calendar times whenever the
/// run state is well-formed.
pub proof fn lemma_feed_items_wf(g: Generator)
    requires
        g.wf(),
    ensures
        items_dates_wf(spec_stable_sort(spec_candidates(g))),
{
    broadcast use group_to_multiset_ensures;

    lemma_cands_slugs_wf(g.article_pages@);
    lemma_cands_tree_wf(g.lookup_tree@);
    let cands = spec_candidates(g);
    assert(items_dates_wf(cands)) by {
        assert(forall|i: int|
            0 <= i < cands.len() && i < spec_cands_slugs(g.article_pages@).len()
                ==> (#[trigger] cands[i]).published.wf() && cands[i].updated.wf());
        assert(forall|i: int|
            spec_cands_slugs(g.article_pages@).len() <= i < cands.len()
                ==> (#[trigger] cands[i]).published.wf() && cands[i].updated.wf());
    }
    lemma_stable_sort(cands);
    let sorted = spec_stable_sort(cands);
    assert forall|i: int| 0 <= i < sorted.len() implies (#[trigger] sorted[i]).published.wf()
        && sorted[i].updated.wf() by {
        assert(sorted.contains(sorted[i]));
        assert(sorted.to_multiset().contains(sorted[i]));
        assert(cands.to_multiset().contains(sorted[i]));
        assert(cands.contains(sorted[i]));
        let k = choose|k: int| 0 <= k < cands.len() && cands[k] == sorted[i];
    }
}

} // verus!
