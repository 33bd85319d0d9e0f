//! The partitioner and the run state it builds.
//!
//! One fold over the input pages: pages whose publish date lies in the
//! future (or is absent) are held back; every remaining page is classified;
//! the results accumulate into the link table, the temporal index and the
//! slug-page list. The fold fails atomically: the first classification
//! error is returned and no partial structures escape.

use vstd::prelude::*;
use crate::config::Config;
use crate::date::{Date, PageTime, date_le};
use crate::index::{Entry, TemporalIndex, seq_insert};
use crate::links::LinkTable;
use crate::page::{ClassifyError, Identifier, Page, classify, spec_classify};

verus! {

/// The three structures the fold accumulates: link table, temporal index
/// contents, and the slug-page list in input order.
pub type PartitionData = (Map<u128, Seq<char>>, Seq<Entry>, Seq<(String, Page)>);

/// Whether a page takes part in a run: it carries a publish value whose
/// calendar date is on or before `today`.
pub open spec fn spec_eligible(p: Page, today: Date) -> bool {
    match p.published {
        Some(t) => date_le(t.spec_date_part(), today),
        None => false,
    }
}

/// The partition fold over `pages`, left to right: the first page that
/// fails classification decides the error; otherwise each eligible page
/// adds its link-table entry and lands in the temporal index (date pages,
/// later colliding dates overwriting) or in the slug-page list (in input
/// order).
pub open spec fn spec_partition(pages: Seq<Page>, today: Date) -> Result<
    PartitionData,
    ClassifyError,
>
    decreases pages.len(),
{
    if pages.len() == 0 {
        Ok((Map::empty(), Seq::empty(), Seq::empty()))
    } else {
        match spec_partition(pages.drop_last(), today) {
            Err(e) => Err(e),
            Ok((links, tree, articles)) => {
                let p = pages.last();
                if !spec_eligible(p, today) {
                    Ok((links, tree, articles))
                } else {
                    match spec_classify(p) {
                        Err(e) => Err(e),
                        Ok((path, ident)) => match ident {
                            Identifier::Date(d) => Ok(
                                (
                                    links.insert(p.id, path),
                                    seq_insert(tree, Entry { date: d, page: p }),
                                    articles,
                                ),
                            ),
                            Identifier::Slug(u) => Ok(
                                (links.insert(p.id, path), tree, articles.push((u, p))),
                            ),
                        },
                    }
                }
            },
        }
    }
}

/// Once a prefix of the fold has failed, the whole fold fails the same way:
/// the first error wins.
pub proof fn lemma_partition_err_persists(pages: Seq<Page>, today: Date, k: int)
    requires
        0 <= k <= pages.len(),
        spec_partition(pages.take(k), today) is Err,
    ensures
        spec_partition(pages, today) == spec_partition(pages.take(k), today),
    decreases pages.len(),
{
    if pages.len() == k {
        assert(pages.take(k) =~= pages);
    } else {
        assert(pages.drop_last().take(k) =~= pages.take(k));
        lemma_partition_err_persists(pages.drop_last(), today, k);
    }
}

/// The run state: the structures built once by the partitioner plus the
/// configuration and the opaque head, header and footer fragments, all held
/// read-only for the rest of the run.
pub struct Generator {
    pub link_map: LinkTable,
    pub lookup_tree: TemporalIndex,
    pub article_pages: Vec<(String, Page)>,
    pub config: Config,
    pub head: String,
    pub header: String,
    pub footer: String,
}

impl Generator {
    pub open spec fn wf(&self) -> bool {
        &&& self.lookup_tree.wf()
        &&& forall|i: int|
            0 <= i < self.article_pages@.len() ==> (#[trigger] self.article_pages@[i]).1.wf()
    }

    /// Partition `pages` into the run state. Pages not yet published by
    /// `today` are held back entirely; the first classification error
    /// aborts the whole build.
    pub fn new(
        pages: Vec<Page>,
        today: Date,
        config: Config,
        head: String,
        header: String,
        footer: String,
    ) -> (r: Result<Generator, ClassifyError>)
        requires
            forall|i: int| 0 <= i < pages@.len() ==> (#[trigger] pages@[i]).wf(),
            today.wf(),
        ensures
            match r {
                Ok(g) => spec_partition(pages@, today) == Ok::<PartitionData, ClassifyError>(
                    (g.link_map@, g.lookup_tree@, g.article_pages@),
                ) && g.wf() && g.config == config && g.head == head && g.header == header
                    && g.footer == footer,
                Err(e) => spec_partition(pages@, today) == Err::<PartitionData, ClassifyError>(e),
            },
    {
        let mut g = Generator {
            link_map: LinkTable::new(),
            lookup_tree: TemporalIndex::new(),
            article_pages: Vec::new(),
            config,
            head,
            header,
            footer,
        };
        let n = pages.len();
        let mut i: usize = 0;
        proof {
            assert(pages@.take(0) =~= Seq::<Page>::empty());
        }
        while i < n
            invariant
                i <= n,
                n == pages@.len(),
                forall|k: int| 0 <= k < pages@.len() ==> (#[trigger] pages@[k]).wf(),
                today.wf(),
                g.wf(),
                spec_partition(pages@.take(i as int), today) == Ok::<PartitionData, ClassifyError>(
                    (g.link_map@, g.lookup_tree@, g.article_pages@),
                ),
                g.config == config,
                g.head == head,
                g.header == header,
                g.footer == footer,
            decreases n - i,
        {
            let p = &pages[i];
            proof {
                assert(pages@.take(i + 1).drop_last() =~= pages@.take(i as int));
                assert(pages@.take(i + 1).last() == pages@[i as int]);
            }
            let eligible = match &p.published {
                Some(t) => t.date_part().le(&today),
                None => false,
            };
            if eligible {
                match classify(p) {
                    Err(e) => {
                        proof {
                            lemma_partition_err_persists(pages@, today, i + 1);
                        }
                        return Err(e);
                    },
                    Ok((path, ident)) => {
                        g.link_map.insert(p.id, path);
                        match ident {
                            Identifier::Date(d) => {
                                let page = clone_page(p);
                                proof {
                                    assert(p.date == Some(PageTime::Day(d)));
                                }
                                g.lookup_tree.insert(d, page);
                            },
                            Identifier::Slug(u) => {
                                let page = clone_page(p);
                                g.article_pages.push((u, page));
                            },
                        }
                    },
                }
            }
            i = i + 1;
        }
        proof {
            assert(pages@.take(n as int) =~= pages@);
        }
        Ok(g)
    }

    /// Partition `pages` against the current UTC date: pages whose publish
    /// date lies in the future of the clock are held back.
    pub fn new_today(
        pages: Vec<Page>,
        config: Config,
        head: String,
        header: String,
        footer: String,
    ) -> (r: Result<Generator, ClassifyError>)
        requires
            forall|i: int| 0 <= i < pages@.len() ==> (#[trigger] pages@[i]).wf(),
        ensures
            exists|today: Date|
                #[trigger] today.wf() && match r {
                    Ok(g) => spec_partition(pages@, today) == Ok::<PartitionData, ClassifyError>(
                        (g.link_map@, g.lookup_tree@, g.article_pages@),
                    ) && g.wf() && g.config == config && g.head == head && g.header == header
                        && g.footer == footer,
                    Err(e) => spec_partition(pages@, today) == Err::<
                        PartitionData,
                        ClassifyError,
                    >(e),
                },
    {
        let today = crate::clock::today_utc();
        let r = Generator::new(pages, today, config, head, header, footer);
        proof {
            assert(today.wf());
        }
        r
    }

    /// The earliest and latest dates in the temporal index, or `None` when
    /// the index is empty.
    pub fn get_first_and_last_dates(&self) -> (r: Option<(Date, Date)>)
        requires
            self.wf(),
        ensures
            match r {
                None => self.lookup_tree@.len() == 0,
                Some((first, last)) => {
                    &&& self.lookup_tree@.len() > 0
                    &&& first == self.lookup_tree@[0].date
                    &&& last == self.lookup_tree@[self.lookup_tree@.len() - 1].date
                    &&& forall|i: int|
                        0 <= i < self.lookup_tree@.len() ==> date_le(
                            first,
                            (#[trigger] self.lookup_tree@[i]).date,
                        ) && date_le(self.lookup_tree@[i].date, last)
                },
            },
    {
        let n = self.lookup_tree.len();
        if n == 0 {
            None
        } else {
            let first = self.lookup_tree.entry(0).date;
            let last = self.lookup_tree.entry(n - 1).date;
            proof {
                assert forall|i: int| 0 <= i < self.lookup_tree@.len() implies date_le(
                    first,
                    (#[trigger] self.lookup_tree@[i]).date,
                ) && date_le(self.lookup_tree@[i].date, last) by {
                    if i > 0 {
                        assert(crate::date::date_lt(
                            self.lookup_tree@[0].date,
                            self.lookup_tree@[i].date,
                        ));
                    }
                    if i < self.lookup_tree@.len() - 1 {
                        assert(crate::date::date_lt(
                            self.lookup_tree@[i].date,
                            self.lookup_tree@[n - 1].date,
                        ));
                    }
                }
            }
            Some((first, last))
        }
    }
}

/// Copy a page, field by field, preserving its value exactly.
pub fn clone_page(p: &Page) -> (r: Page)
    ensures
        r == *p,
{
    Page {
        id: p.id,
        title: p.title.clone(),
        title_html: p.title_html.clone(),
        description: p.description.clone(),
        url: p.url.clone(),
        date: p.date,
        published: p.published,
        last_edited: p.last_edited,
        cover: match &p.cover {
            Some(s) => Some(s.clone()),
            None => None,
        },
    }
}

} // verus!
