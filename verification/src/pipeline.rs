//! The run as a whole: the nested index page, the plan of artifacts a run
//! writes, and the orchestrator's first-error rule.
//!
//! Every artifact is a pure function of the run state and of the
//! externally rendered markup handed in, so two runs over the same input
//! produce the same bytes; the laws at the end state the cases the
//! properties call out.

use vstd::prelude::*;
use vstd::string::StringExecFns;
use crate::coalesce::{
    IndexItem, MonthGroup, YearGroup, flatten_months, flatten_years, group_months, group_years,
    lemma_month_item_in_flatten, lemma_year_month_in_flatten, month_group_dates_wf,
    month_groups_wf, spec_years_markup, year_group_dates_wf, year_groups_wf, years_markup,
};
use crate::date::Date;
use crate::feed::{spec_candidates, spec_stable_sort};
use crate::generator::Generator;
use crate::index::{Entry, in_month_range, in_year_range};
use crate::page::Page;
use crate::archive::spec_page_doc;
use crate::text::{
    format_day, format_month, format_year, spec_format_day, spec_format_month, spec_format_year,
};

verus! {

/// Whether one index item carries exactly one index entry's summary data.
pub open spec fn item_matches_entry(it: IndexItem, e: Entry) -> bool {
    &&& it.date == e.date
    &&& it.title_html@ == e.page.title_html@
    &&& it.description@ == e.page.description@
}

/// Whether `items` is the temporal index walked most recent first.
pub open spec fn items_match_tree_desc(items: Seq<IndexItem>, tree: Seq<Entry>) -> bool {
    &&& items.len() == tree.len()
    &&& forall|k: int|
        0 <= k < items.len() ==> item_matches_entry(
            #[trigger] items[k],
            tree[tree.len() - 1 - k],
        )
}

/// The nested index document around its main markup: the site's own
/// title, description, cover and canonical URL.
pub open spec fn spec_index_doc(g: Generator, main: Seq<char>) -> Seq<char> {
    spec_page_doc(
        g,
        g.config.name@,
        Some(g.config.description@),
        true,
        None,
        Some(g.config.description@),
        match g.config.cover {
            Some(ref c) => Some(c@),
            None => None,
        },
        match g.config.url {
            Some(ref u) => Some(u@),
            None => None,
        },
        main,
    )
}

impl Generator {
    /// The nested chronological index: the temporal index walked most
    /// recent first, adjacent entries coalesced into month sections and
    /// adjacent month sections into year sections. Always written, body
    /// empty when there are no entries.
    pub fn generate_index_page(&self) -> (r: (String, String))
        requires
            self.wf(),
        ensures
            r.0@ == "index.html"@,
            exists|items: Seq<IndexItem>, mgs: Seq<MonthGroup>, ygs: Seq<YearGroup>|
                {
                    &&& #[trigger] items_match_tree_desc(items, self.lookup_tree@)
                    &&& #[trigger] flatten_months(mgs) == items
                    &&& month_groups_wf(mgs)
                    &&& #[trigger] flatten_years(ygs) == mgs
                    &&& year_groups_wf(ygs)
                    &&& r.1@ == spec_index_doc(*self, spec_years_markup(ygs))
                },
    {
        let n = self.lookup_tree.len();
        let mut items: Vec<IndexItem> = Vec::new();
        let mut k: usize = 0;
        while k < n
            invariant
                k <= n,
                n == self.lookup_tree@.len(),
                self.wf(),
                items@.len() == k,
                forall|j: int|
                    0 <= j < k ==> item_matches_entry(
                        #[trigger] items@[j],
                        self.lookup_tree@[n - 1 - j],
                    ),
            decreases n - k,
        {
            let e = self.lookup_tree.entry(n - 1 - k);
            items.push(
                IndexItem {
                    date: e.date,
                    title_html: e.page.title_html.clone(),
                    description: e.page.description.clone(),
                },
            );
            k = k + 1;
        }
        let ghost items_view = items@;
        let mgs = group_months(items);
        let ghost mgs_view = mgs@;
        let ygs = group_years(mgs);
        proof {
            assert(items_match_tree_desc(items_view, self.lookup_tree@));
            // Dates inside the groups come from the index, so they are
            // real calendar dates and the group keys lie in range.
            assert forall|t: int| 0 <= t < items_view.len() implies (
            #[trigger] items_view[t]).date.wf() by {
                assert(item_matches_entry(
                    items_view[t],
                    self.lookup_tree@[self.lookup_tree@.len() - 1 - t],
                ));
            }
            assert forall|i: int| 0 <= i < mgs_view.len() implies month_group_dates_wf(
                #[trigger] mgs_view[i],
            ) by {
                assert forall|j: int| 0 <= j < mgs_view[i].items@.len() implies (
                #[trigger] mgs_view[i].items@[j]).date.wf() by {
                    lemma_month_item_in_flatten(mgs_view, i, j);
                    let t = choose|t: int|
                        0 <= t < flatten_months(mgs_view).len() && flatten_months(mgs_view)[t]
                            == mgs_view[i].items@[j];
                }
                assert(mgs_view[i].items@.len() > 0);
                assert(mgs_view[i].items@[0].date.wf());
                assert(mgs_view[i].items@[0].date.year == mgs_view[i].year);
                assert(mgs_view[i].items@[0].date.month == mgs_view[i].month);
            }
            assert forall|i: int| 0 <= i < ygs@.len() implies year_group_dates_wf(
                #[trigger] ygs@[i],
            ) by {
                assert forall|j: int| 0 <= j < ygs@[i].months@.len() implies month_group_dates_wf(
                    #[trigger] ygs@[i].months@[j],
                ) by {
                    lemma_year_month_in_flatten(ygs@, i, j);
                    let t = choose|t: int|
                        0 <= t < flatten_years(ygs@).len() && flatten_years(ygs@)[t]
                            == ygs@[i].months@[j];
                }
                assert(ygs@[i].months@.len() > 0);
                assert(ygs@[i].months@[0].year == ygs@[i].year);
                assert(month_group_dates_wf(ygs@[i].months@[0]));
                assert(crate::coalesce::month_group_in_range(ygs@[i].months@[0]));
            }
        }
        let main = years_markup(&ygs);
        let cover = match &self.config.cover {
            Some(c) => Some(c),
            None => None,
        };
        let url = match &self.config.url {
            Some(u) => Some(u),
            None => None,
        };
        let doc = self.index_chrome(cover, url, main.as_str());
        (String::from_str("index.html"), doc)
    }

    /// The index page's chrome around its main markup.
    fn index_chrome(
        &self,
        cover: Option<&String>,
        url: Option<&String>,
        main: &str,
    ) -> (r: String)
        requires
            crate::markup::view_opt(cover) == match self.config.cover {
                Some(ref c) => Some::<Seq<char>>(c@),
                None => None::<Seq<char>>,
            },
            crate::markup::view_opt(url) == match self.config.url {
                Some(ref u) => Some::<Seq<char>>(u@),
                None => None::<Seq<char>>,
            },
        ensures
            r@ == spec_index_doc(*self, main@),
    {
        let author = match &self.config.author {
            Some(a) => Some(&a.name),
            None => None,
        };
        let twitter_site = match &self.config.twitter.site {
            Some(t) => Some(t),
            None => None,
        };
        let twitter_creator = match &self.config.twitter.creator {
            Some(t) => Some(t),
            None => None,
        };
        let head = crate::markup::head_inner(
            self.config.name.as_str(),
            Some(&self.config.description),
            true,
            None,
            author,
            Some(&self.config.description),
            self.config.locale.locale.as_str(),
            cover,
            url,
            twitter_site,
            twitter_creator,
            self.head.as_str(),
        );
        crate::markup::document(
            self.config.locale.lang.as_str(),
            head.as_str(),
            self.header.as_str(),
            main,
            self.footer.as_str(),
        )
    }
}

/// Whether year `y` has at least one entry.
pub open spec fn spec_nonempty_year(tree: Seq<Entry>, y: int) -> bool {
    exists|i: int| 0 <= i < tree.len() && in_year_range((#[trigger] tree[i]).date, y)
}

/// Whether month `m` of year `y` has at least one entry.
pub open spec fn spec_nonempty_month(tree: Seq<Entry>, y: int, m: int) -> bool {
    exists|i: int| 0 <= i < tree.len() && in_month_range((#[trigger] tree[i]).date, y, m)
}

/// The year archives written: one route per non-empty year of `[y0, y]`.
pub open spec fn spec_year_routes(tree: Seq<Entry>, y0: int, y: int) -> Seq<Seq<char>>
    decreases y - y0 + 1,
{
    if y < y0 {
        Seq::empty()
    } else {
        spec_year_routes(tree, y0, y - 1) + (if spec_nonempty_year(tree, y) {
            seq![spec_format_year(y) + ".html"@]
        } else {
            Seq::<Seq<char>>::empty()
        })
    }
}

/// The month archives written for year `y`, months 1 through `m`.
pub open spec fn spec_months_for_year(tree: Seq<Entry>, y: int, m: int) -> Seq<Seq<char>>
    decreases m,
{
    if m < 1 {
        Seq::empty()
    } else {
        spec_months_for_year(tree, y, m - 1) + (if spec_nonempty_month(tree, y, m) {
            seq![spec_format_month(y, m) + ".html"@]
        } else {
            Seq::<Seq<char>>::empty()
        })
    }
}

/// The month archives written: twelve candidate routes per year of
/// `[y0, y]`, the empty ones skipped.
pub open spec fn spec_month_routes(tree: Seq<Entry>, y0: int, y: int) -> Seq<Seq<char>>
    decreases y - y0 + 1,
{
    if y < y0 {
        Seq::empty()
    } else {
        spec_month_routes(tree, y0, y - 1) + spec_months_for_year(tree, y, 12)
    }
}

/// The day pages written: one route per index entry.
pub open spec fn spec_day_routes(tree: Seq<Entry>) -> Seq<Seq<char>>
    decreases tree.len(),
{
    if tree.len() == 0 {
        Seq::empty()
    } else {
        spec_day_routes(tree.drop_last()) + seq![
            spec_format_day(tree.last().date, false) + ".html"@,
        ]
    }
}

/// The slug pages written: one route per slug page.
pub open spec fn spec_article_routes(articles: Seq<(String, Page)>) -> Seq<Seq<char>>
    decreases articles.len(),
{
    if articles.len() == 0 {
        Seq::empty()
    } else {
        spec_article_routes(articles.drop_last()) + seq![articles.last().0@ + ".html"@]
    }
}

/// Everything one run writes, in the order the jobs are launched: year
/// archives, month archives, day pages, slug pages, the index, and the
/// feed when a base URL is configured and at least one publication
/// exists. A view whose backing set is empty is not written at all.
pub open spec fn spec_output_routes(g: Generator) -> Seq<Seq<char>> {
    (if g.lookup_tree@.len() == 0 {
        Seq::<Seq<char>>::empty()
    } else {
        spec_year_routes(
            g.lookup_tree@,
            g.lookup_tree@[0].date.year as int,
            g.lookup_tree@[g.lookup_tree@.len() - 1].date.year as int,
        ) + spec_month_routes(
            g.lookup_tree@,
            g.lookup_tree@[0].date.year as int,
            g.lookup_tree@[g.lookup_tree@.len() - 1].date.year as int,
        )
    }) + spec_day_routes(g.lookup_tree@) + spec_article_routes(g.article_pages@) + seq![
        "index.html"@,
    ] + (if g.config.url is Some && spec_stable_sort(spec_candidates(g)).len() > 0 {
        seq!["feed.xml"@]
    } else {
        Seq::<Seq<char>>::empty()
    })
}

pub open spec fn route_views(s: Seq<String>) -> Seq<Seq<char>> {
    s.map_values(|x: String| x@)
}

proof fn lemma_route_views_push(s: Seq<String>, x: String)
    ensures
        route_views(s.push(x)) == route_views(s).push(x@),
        route_views(s).len() == s.len(),
{
    assert(route_views(s.push(x)) =~= route_views(s).push(x@));
}

impl Generator {
    /// The routes this run writes, relative to the output root.
    pub fn output_routes(&self) -> (r: Vec<String>)
        requires
            self.wf(),
        ensures
            route_views(r@) == spec_output_routes(*self),
    {
        let mut out: Vec<String> = Vec::new();
        let n = self.lookup_tree.len();
        if n > 0 {
            let first = self.lookup_tree.entry(0).date;
            let last = self.lookup_tree.entry(n - 1).date;
            let ghost tree = self.lookup_tree@;
            let ghost y0 = first.year as int;
            let mut y = first.year;
            proof {
                if n > 1 {
                    assert(crate::date::date_lt(tree[0].date, tree[n - 1].date));
                }
                assert(first.year <= last.year);
                assert(route_views(out@) =~= spec_year_routes(tree, y0, y0 - 1));
            }
            while y <= last.year
                invariant
                    self.wf(),
                    n == self.lookup_tree@.len(),
                    tree == self.lookup_tree@,
                    n > 0,
                    first == tree[0].date,
                    last == tree[n - 1].date,
                    y0 == first.year as int,
                    first.year <= y,
                    y <= last.year + 1,
                    first.wf(),
                    last.wf(),
                    first.year <= last.year,
                    route_views(out@) == spec_year_routes(tree, y0, y - 1),
                decreases last.year + 1 - y,
            {
                let (lo, hi) = self.lookup_tree.year_range(y);
                let ghost before = out@;
                if lo < hi {
                    let mut route = format_year(y);
                    route.append(".html");
                    let ghost before = out@;
                    let ghost routesnap = route;
                    out.push(route);
                    proof {
                        lemma_route_views_push(before, routesnap);
                        assert(spec_nonempty_year(tree, y as int)) by {
                            assert(in_year_range(tree[lo as int].date, y as int));
                        }
                        assert(route_views(out@) =~= spec_year_routes(tree, y0, y as int));
                    }
                } else {
                    proof {
                        assert(!spec_nonempty_year(tree, y as int)) by {
                            if spec_nonempty_year(tree, y as int) {
                                let i = choose|i: int|
                                    0 <= i < tree.len() && in_year_range(
                                        (#[trigger] tree[i]).date,
                                        y as int,
                                    );
                            }
                        }
                        assert(route_views(out@) =~= spec_year_routes(tree, y0, y as int));
                    }
                }
                y = y + 1;
            }
            let mut y2 = first.year;
            proof {
                assert(route_views(out@) == spec_year_routes(tree, y0, last.year as int));
                assert(spec_month_routes(tree, y0, y0 - 1) =~= Seq::<Seq<char>>::empty());
                assert(route_views(out@) =~= spec_year_routes(tree, y0, last.year as int)
                    + spec_month_routes(tree, y0, y0 - 1));
            }
            while y2 <= last.year
                invariant
                    self.wf(),
                    n == self.lookup_tree@.len(),
                    tree == self.lookup_tree@,
                    n > 0,
                    first == tree[0].date,
                    last == tree[n - 1].date,
                    y0 == first.year as int,
                    first.year <= y2,
                    y2 <= last.year + 1,
                    first.wf(),
                    last.wf(),
                    first.year <= last.year,
                    route_views(out@) == spec_year_routes(tree, y0, last.year as int)
                        + spec_month_routes(tree, y0, y2 - 1),
                decreases last.year + 1 - y2,
            {
                let mut m: u8 = 1;
                proof {
                    assert(spec_months_for_year(tree, y2 as int, 0) =~= Seq::<Seq<char>>::empty());
                    assert(route_views(out@) =~= spec_year_routes(tree, y0, last.year as int)
                        + spec_month_routes(tree, y0, y2 - 1) + spec_months_for_year(
                        tree,
                        y2 as int,
                        0,
                    ));
                }
                while m <= 12
                    invariant
                        self.wf(),
                        n == self.lookup_tree@.len(),
                        tree == self.lookup_tree@,
                        n > 0,
                        first == tree[0].date,
                        last == tree[n - 1].date,
                        y0 == first.year as int,
                        first.year <= y2 <= last.year,
                        first.wf(),
                        last.wf(),
                        1 <= m,
                        m <= 13,
                        route_views(out@) == spec_year_routes(tree, y0, last.year as int)
                            + spec_month_routes(tree, y0, y2 - 1) + spec_months_for_year(
                            tree,
                            y2 as int,
                            m - 1,
                        ),
                    decreases 13 - m,
                {
                    let (lo, hi) = self.lookup_tree.month_range(y2, m);
                    if lo < hi {
                        let mut route = format_month(y2, m);
                        route.append(".html");
                        let ghost before = out@;
                        let ghost routesnap = route;
                        out.push(route);
                        proof {
                            lemma_route_views_push(before, routesnap);
                            assert(spec_nonempty_month(tree, y2 as int, m as int)) by {
                                assert(in_month_range(tree[lo as int].date, y2 as int, m as int));
                            }
                            assert(route_views(out@) =~= spec_year_routes(
                                tree,
                                y0,
                                last.year as int,
                            ) + spec_month_routes(tree, y0, y2 - 1) + spec_months_for_year(
                                tree,
                                y2 as int,
                                m as int,
                            ));
                        }
                    } else {
                        proof {
                            assert(!spec_nonempty_month(tree, y2 as int, m as int)) by {
                                if spec_nonempty_month(tree, y2 as int, m as int) {
                                    let i = choose|i: int|
                                        0 <= i < tree.len() && in_month_range(
                                            (#[trigger] tree[i]).date,
                                            y2 as int,
                                            m as int,
                                        );
                                }
                            }
                            assert(route_views(out@) =~= spec_year_routes(
                                tree,
                                y0,
                                last.year as int,
                            ) + spec_month_routes(tree, y0, y2 - 1) + spec_months_for_year(
                                tree,
                                y2 as int,
                                m as int,
                            ));
                        }
                    }
                    m = m + 1;
                }
                proof {
                    assert(route_views(out@) =~= spec_year_routes(tree, y0, last.year as int)
                        + spec_month_routes(tree, y0, y2 as int));
                }
                y2 = y2 + 1;
            }
        }
        let ghost base = route_views(out@);
        proof {
            if self.lookup_tree@.len() == 0 {
                assert(base =~= Seq::<Seq<char>>::empty());
            }
            assert(spec_day_routes(self.lookup_tree@.take(0)) =~= Seq::<Seq<char>>::empty());
            assert(route_views(out@) =~= base + spec_day_routes(self.lookup_tree@.take(0)));
        }
        let n_t = self.lookup_tree.len();
        let mut k: usize = 0;
        while k < n_t
            invariant
                k <= n_t,
                n_t == self.lookup_tree@.len(),
                self.wf(),
                route_views(out@) == base + spec_day_routes(self.lookup_tree@.take(k as int)),
            decreases n_t - k,
        {
            let e = self.lookup_tree.entry(k);
            let mut route = format_day(e.date, false);
            route.append(".html");
            let ghost before = out@;
            let ghost routesnap = route;
            out.push(route);
            proof {
                lemma_route_views_push(before, routesnap);
                assert(self.lookup_tree@.take(k + 1).drop_last() =~= self.lookup_tree@.take(
                    k as int,
                ));
                assert(self.lookup_tree@.take(k + 1).last() == self.lookup_tree@[k as int]);
                assert(route_views(out@) =~= base + spec_day_routes(
                    self.lookup_tree@.take(k + 1),
                ));
            }
            k = k + 1;
        }
        proof {
            assert(self.lookup_tree@.take(n_t as int) =~= self.lookup_tree@);
            assert(spec_article_routes(self.article_pages@.take(0)) =~= Seq::<Seq<char>>::empty());
            assert(route_views(out@) =~= base + spec_day_routes(self.lookup_tree@)
                + spec_article_routes(self.article_pages@.take(0)));
        }
        let n_a = self.article_pages.len();
        let mut a: usize = 0;
        while a < n_a
            invariant
                a <= n_a,
                n_a == self.article_pages@.len(),
                self.wf(),
                route_views(out@) == base + spec_day_routes(self.lookup_tree@)
                    + spec_article_routes(self.article_pages@.take(a as int)),
            decreases n_a - a,
        {
            let mut route = self.article_pages[a].0.clone();
            route.append(".html");
            let ghost before = out@;
            let ghost routesnap = route;
            out.push(route);
            proof {
                lemma_route_views_push(before, routesnap);
                assert(self.article_pages@.take(a + 1).drop_last() =~= self.article_pages@.take(
                    a as int,
                ));
                assert(self.article_pages@.take(a + 1).last() == self.article_pages@[a as int]);
                assert(route_views(out@) =~= base + spec_day_routes(self.lookup_tree@)
                    + spec_article_routes(self.article_pages@.take(a + 1)));
            }
            a = a + 1;
        }
        proof {
            assert(self.article_pages@.take(n_a as int) =~= self.article_pages@);
        }
        let index_route = String::from_str("index.html");
        let ghost before_index = out@;
        let ghost indexsnap = index_route;
        out.push(index_route);
        proof {
            lemma_route_views_push(before_index, indexsnap);
            assert(route_views(out@) =~= base + spec_day_routes(self.lookup_tree@)
                + spec_article_routes(self.article_pages@) + seq!["index.html"@]);
        }
        let feed_wanted = if self.config.url.is_some() {
            let items = self.feed_items();
            items.len() > 0
        } else {
            false
        };
        if feed_wanted {
            let feed_route = String::from_str("feed.xml");
            let ghost before_feed = out@;
            let ghost feedsnap = feed_route;
            out.push(feed_route);
            proof {
                lemma_route_views_push(before_feed, feedsnap);
                crate::feed::lemma_stable_sort(spec_candidates(*self));
                assert(route_views(out@) =~= spec_output_routes(*self));
            }
        } else {
            proof {
                crate::feed::lemma_stable_sort(spec_candidates(*self));
                assert(route_views(out@) =~= spec_output_routes(*self));
            }
        }
        out
    }
}

/// The orchestrator's rule: all jobs ran, and the first failure decides
/// the run's outcome.
pub fn first_failure<T, E>(results: &mut Vec<Result<T, E>>) -> (r: Result<(), E>)
    ensures
        r is Ok ==> forall|i: int|
            0 <= i < old(results)@.len() ==> (#[trigger] old(results)@[i]) is Ok,
        r matches Err(e) ==> exists|i: int|
            0 <= i < old(results)@.len() && (#[trigger] old(results)@[i]) == Err::<T, E>(e) && (
            forall|j: int| 0 <= j < i ==> (#[trigger] old(results)@[j]) is Ok),
{
    let ghost orig = results@;
    let mut taken: usize = 0;
    let n = results.len();
    while taken < n
        invariant
            taken <= n,
            n == orig.len(),
            orig == old(results)@,
            results@ == orig.skip(taken as int),
            forall|j: int| 0 <= j < taken ==> (#[trigger] orig[j]) is Ok,
        decreases n - taken,
    {
        let r0 = results.remove(0);
        proof {
            assert(orig.skip(taken as int)[0] == orig[taken as int]);
            assert(orig.skip(taken as int).remove(0) =~= orig.skip(taken + 1));
        }
        match r0 {
            Ok(_) => {},
            Err(e) => {
                proof {
                    assert((taken as int) < old(results)@.len() && old(results)@[taken as int]
                        == Err::<T, E>(e) && (forall|j: int|
                        0 <= j < taken as int ==> (#[trigger] old(results)@[j]) is Ok));
                }
                return Err(e);
            },
        }
        taken = taken + 1;
    }
    Ok(())
}

/// Law (idempotence): every artifact is a pure function of the run state
/// and the rendered markup handed in, so two runs over the same input
/// plan the same routes and produce the same bytes. (The external content
/// renderer must of course hand back the same markup for the same pages;
/// that collaborator stands outside this library.)
pub proof fn lemma_run_deterministic(g1: Generator, g2: Generator, main: Seq<char>)
    requires
        g1 == g2,
    ensures
        spec_output_routes(g1) == spec_output_routes(g2),
        spec_index_doc(g1, main) == spec_index_doc(g2, main),
        spec_candidates(g1) == spec_candidates(g2),
{
}

/// Law (empty input): with no pages at all, the plan holds exactly the
/// index page - no archive files and no feed.
pub proof fn lemma_empty_input_routes(g: Generator)
    requires
        g.lookup_tree@.len() == 0,
        g.article_pages@.len() == 0,
    ensures
        spec_output_routes(g) == seq!["index.html"@],
{
    assert(spec_day_routes(g.lookup_tree@) =~= Seq::<Seq<char>>::empty());
    assert(spec_article_routes(g.article_pages@) =~= Seq::<Seq<char>>::empty());
    assert(spec_candidates(g) =~= Seq::<crate::feed::FeedItemV>::empty());
    crate::feed::lemma_stable_sort(spec_candidates(g));
    assert(spec_output_routes(g) =~= seq!["index.html"@]);
}

/// Law (empty input): with no entries, whatever grouping satisfies the
/// coalescing contract is empty, so the index page's body is empty.
pub proof fn lemma_empty_input_index_body(mgs: Seq<MonthGroup>, ygs: Seq<YearGroup>)
    requires
        flatten_months(mgs) == Seq::<IndexItem>::empty(),
        month_groups_wf(mgs),
        flatten_years(ygs) == mgs,
        year_groups_wf(ygs),
    ensures
        spec_years_markup(ygs) == Seq::<char>::empty(),
{
    if mgs.len() > 0 {
        assert(flatten_months(mgs).len() >= mgs[0].items@.len()) by {
            assert(flatten_months(mgs) == mgs[0].items@ + flatten_months(mgs.drop_first()));
        }
        assert(false);
    }
    if ygs.len() > 0 {
        assert(flatten_years(ygs).len() >= ygs[0].months@.len()) by {
            assert(flatten_years(ygs) == ygs[0].months@ + flatten_years(ygs.drop_first()));
        }
        assert(false);
    }
}

} // verus!
