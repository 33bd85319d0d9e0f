//! The archive view documents: year and month archives, day pages with
//! their pagination, the pages of slug-anchored articles, the article
//! listing, and independent pages built from caller-supplied fragments.
//!
//! Rendering a page's rich content is the external renderer's job; each
//! view takes the rendered heading and body markup of its pages and
//! assembles the full document around them.

use vstd::prelude::*;
use vstd::string::StrSliceExecFns;
use vstd::string::StringExecFns;
use crate::date::Date;
use crate::generator::Generator;
use crate::index::Entry;
use crate::markup::{
    article, document, head_inner, paging_links, spec_article, spec_display_date, spec_document,
    spec_head_inner, spec_paging_links, spec_summary, summary, view_opt,
};
use crate::page::Page;
use crate::text::{
    decimal, escape, format_day, format_month, format_year, month_name, push_char, spec_decimal,
    spec_format_day, spec_format_month, spec_format_year, spec_month_name,
};
use crate::urls::{join_url, spec_joined_url};

verus! {

/// Why building one view's document failed.
#[derive(Clone, Copy, PartialEq, Eq, Structural, Debug)]
pub enum RenderError {
    /// The view's address could not be joined onto the site base URL.
    Url,
}

impl RenderError {
    pub fn message(&self) -> (r: String)
        ensures
            r@ == "Failed to join the view's address onto the site base URL"@,
    {
        String::from_str("Failed to join the view's address onto the site base URL")
    }
}

/// The externally rendered parts of one page: its heading markup and its
/// content blocks' markup.
pub struct RenderedArticle {
    pub heading_html: String,
    pub blocks_html: String,
}

pub struct RenderedV {
    pub heading: Seq<char>,
    pub blocks: Seq<char>,
}

impl View for RenderedArticle {
    type V = RenderedV;

    open spec fn view(&self) -> RenderedV {
        RenderedV { heading: self.heading_html@, blocks: self.blocks_html@ }
    }
}

pub open spec fn rend_views(s: Seq<RenderedArticle>) -> Seq<RenderedV> {
    s.map_values(|r: RenderedArticle| r@)
}

/// One rendered page body inside an archive view.
pub open spec fn spec_article_at(e: Entry, r: RenderedV) -> Seq<char> {
    spec_article(
        e.page.title@,
        r.heading,
        spec_display_date(e.page),
        match e.page.cover {
            Some(c) => Some(c@),
            None => None,
        },
        r.blocks,
    )
}

/// The bodies of the index entries `lo..k`, each with its rendered parts.
pub open spec fn spec_range_main(
    tree: Seq<Entry>,
    lo: int,
    k: int,
    rend: Seq<RenderedV>,
) -> Seq<char>
    decreases k - lo,
{
    if k <= lo {
        Seq::empty()
    } else {
        spec_range_main(tree, lo, k - 1, rend) + spec_article_at(tree[k - 1], rend[k - 1 - lo])
    }
}

pub open spec fn view_opt_string(o: Option<String>) -> Option<Seq<char>> {
    match o {
        Some(s) => Some(s@),
        None => None,
    }
}

/// The metadata address of a view: the site base URL with the view's
/// route joined on, or nothing when no base URL is configured.
pub open spec fn spec_og(g: Generator, route: Seq<char>) -> Option<Seq<char>> {
    match g.config.url {
        None => None,
        Some(b) => Some(spec_joined_url(b@, route)->0),
    }
}

/// Whether the joined metadata address of a view exists whenever a base
/// URL is configured.
pub open spec fn og_ok(g: Generator, route: Seq<char>) -> bool {
    match g.config.url {
        None => true,
        Some(b) => spec_joined_url(b@, route) is Some,
    }
}

/// The full document of one view, with the head pieces this site derives
/// from its configuration.
pub open spec fn spec_page_doc(
    g: Generator,
    title: Seq<char>,
    early_description: Option<Seq<char>>,
    stylesheet: bool,
    late_description: Option<Seq<char>>,
    og_description: Option<Seq<char>>,
    og_image: Option<Seq<char>>,
    og_url: Option<Seq<char>>,
    main: Seq<char>,
) -> Seq<char> {
    spec_document(
        g.config.locale.lang@,
        spec_head_inner(
            title,
            early_description,
            stylesheet,
            late_description,
            match g.config.author {
                Some(a) => Some(a.name@),
                None => None,
            },
            og_description,
            g.config.locale.locale@,
            og_image,
            og_url,
            match g.config.twitter.site {
                Some(ref t) => Some(t@),
                None => None,
            },
            match g.config.twitter.creator {
                Some(ref t) => Some(t@),
                None => None,
            },
            g.head@,
        ),
        g.header@,
        main,
        g.footer@,
    )
}

impl Generator {
    /// Join a view's route onto the configured base URL, for its metadata
    /// address. No base URL configured is not an error; a failing join is.
    fn og_url_for(&self, route: &str) -> (r: Result<Option<String>, RenderError>)
        ensures
            match r {
                Ok(o) => og_ok(*self, route@) && view_opt_string(o) == spec_og(*self, route@),
                Err(_) => !og_ok(*self, route@),
            },
    {
        match &self.config.url {
            None => Ok(None),
            Some(base) => match join_url(base.as_str(), route) {
                Some(u) => Ok(Some(u)),
                None => Err(RenderError::Url),
            },
        }
    }

    /// Assemble one view's document around its main markup.
    fn page_doc(
        &self,
        title: &str,
        early_description: Option<&String>,
        stylesheet: bool,
        late_description: Option<&String>,
        og_description: Option<&String>,
        og_image: Option<&String>,
        og_url: Option<&String>,
        main: &str,
    ) -> (r: String)
        ensures
            r@ == spec_page_doc(
                *self,
                title@,
                view_opt(early_description),
                stylesheet,
                view_opt(late_description),
                view_opt(og_description),
                view_opt(og_image),
                view_opt(og_url),
                main@,
            ),
    {
        let author = match &self.config.author {
            Some(a) => Some(&a.name),
            None => None,
        };
        let twitter_site = match &self.config.twitter.site {
            Some(t) => Some(t),
            None => None,
        };
        let twitter_creator = match &self.config.twitter.creator {
            Some(t) => Some(t),
            None => None,
        };
        let head = head_inner(
            title,
            early_description,
            stylesheet,
            late_description,
            author,
            og_description,
            self.config.locale.locale.as_str(),
            og_image,
            og_url,
            twitter_site,
            twitter_creator,
            self.head.as_str(),
        );
        document(
            self.config.locale.lang.as_str(),
            head.as_str(),
            self.header.as_str(),
            main,
            self.footer.as_str(),
        )
    }

    /// A title of the form `<prefix> - <site name>`.
    fn title_with_site(&self, prefix: &str) -> (r: String)
        ensures
            r@ == prefix@ + " - "@ + self.config.name@,
    {
        let mut t = String::from_str(prefix);
        t.append(" - ");
        t.append(self.config.name.as_str());
        t
    }

    /// The main markup of an archive view: the bodies of the index
    /// entries `lo..hi`, in ascending date order.
    fn range_main(&self, lo: usize, hi: usize, rendered: &Vec<RenderedArticle>) -> (r: String)
        requires
            self.wf(),
            lo <= hi <= self.lookup_tree@.len(),
            rendered@.len() == hi - lo,
        ensures
            r@ == spec_range_main(self.lookup_tree@, lo as int, hi as int, rend_views(rendered@)),
    {
        let mut main = String::new();
        let mut k = lo;
        while k < hi
            invariant
                lo <= k <= hi <= self.lookup_tree@.len(),
                self.wf(),
                rendered@.len() == hi - lo,
                main@ == spec_range_main(
                    self.lookup_tree@,
                    lo as int,
                    k as int,
                    rend_views(rendered@),
                ),
            decreases hi - k,
        {
            let e = self.lookup_tree.entry(k);
            let rendered_k = &rendered[k - lo];
            let date = crate::markup::display_date(&e.page);
            let cover = match &e.page.cover {
                Some(c) => Some(c),
                None => None,
            };
            let piece = article(
                e.page.title.as_str(),
                rendered_k.heading_html.as_str(),
                date,
                cover,
                rendered_k.blocks_html.as_str(),
            );
            main.append(piece.as_str());
            proof {
                assert(rend_views(rendered@)[k - lo] == rendered@[k - lo]@);
                assert(main@ == spec_range_main(
                    self.lookup_tree@,
                    lo as int,
                    k + 1,
                    rend_views(rendered@),
                ));
            }
            k = k + 1;
        }
        main
    }

    /// The year archive's document: the index entries `lo..hi` (the year
    /// range query's result for `year`), rendered in ascending date order,
    /// under a `<year> - <site name>` title. The route is the year's
    /// zero-padded segment plus the file extension.
    pub fn year_doc(&self, year: i32, lo: usize, hi: usize, rendered: &Vec<RenderedArticle>) -> (r:
        Result<(String, String), RenderError>)
        requires
            self.wf(),
            0 <= year <= 9999,
            lo <= hi <= self.lookup_tree@.len(),
            rendered@.len() == hi - lo,
        ensures
            match r {
                Ok((route, doc)) => {
                    &&& og_ok(*self, spec_format_year(year as int))
                    &&& route@ == spec_format_year(year as int) + ".html"@
                    &&& doc@ == spec_page_doc(
                        *self,
                        spec_decimal(year as int) + " - "@ + self.config.name@,
                        None,
                        true,
                        None,
                        None,
                        None,
                        spec_og(*self, spec_format_year(year as int)),
                        spec_range_main(
                            self.lookup_tree@,
                            lo as int,
                            hi as int,
                            rend_views(rendered@),
                        ),
                    )
                },
                Err(_) => !og_ok(*self, spec_format_year(year as int)),
            },
    {
        let path = format_year(year);
        let og = match self.og_url_for(path.as_str()) {
            Ok(o) => o,
            Err(e) => {
                return Err(e);
            },
        };
        let y = decimal(year as u32);
        let title = self.title_with_site(y.as_str());
        let main = self.range_main(lo, hi, rendered);
        let og_ref = match &og {
            Some(u) => Some(u),
            None => None,
        };
        let doc = self.page_doc(
            title.as_str(),
            None,
            true,
            None,
            None,
            None,
            og_ref,
            main.as_str(),
        );
        let mut route = path;
        route.append(".html");
        Ok((route, doc))
    }

    /// The month archive's document: the index entries `lo..hi` (the month
    /// range query's result), in ascending date order, under a
    /// `<month name> <year> - <site name>` title.
    pub fn month_doc(
        &self,
        year: i32,
        month: u8,
        lo: usize,
        hi: usize,
        rendered: &Vec<RenderedArticle>,
    ) -> (r: Result<(String, String), RenderError>)
        requires
            self.wf(),
            0 <= year <= 9999,
            1 <= month <= 12,
            lo <= hi <= self.lookup_tree@.len(),
            rendered@.len() == hi - lo,
        ensures
            match r {
                Ok((route, doc)) => {
                    &&& og_ok(*self, spec_format_month(year as int, month as int))
                    &&& route@ == spec_format_month(year as int, month as int) + ".html"@
                    &&& doc@ == spec_page_doc(
                        *self,
                        spec_month_name(month as int) + " "@ + spec_decimal(year as int) + " - "@
                            + self.config.name@,
                        None,
                        true,
                        None,
                        None,
                        None,
                        spec_og(*self, spec_format_month(year as int, month as int)),
                        spec_range_main(
                            self.lookup_tree@,
                            lo as int,
                            hi as int,
                            rend_views(rendered@),
                        ),
                    )
                },
                Err(_) => !og_ok(*self, spec_format_month(year as int, month as int)),
            },
    {
        let path = format_month(year, month);
        let og = match self.og_url_for(path.as_str()) {
            Ok(o) => o,
            Err(e) => {
                return Err(e);
            },
        };
        let mut prefix = String::from_str(month_name(month));
        prefix.append(" ");
        let y = decimal(year as u32);
        prefix.append(y.as_str());
        let title = self.title_with_site(prefix.as_str());
        let main = self.range_main(lo, hi, rendered);
        let og_ref = match &og {
            Some(u) => Some(u),
            None => None,
        };
        let doc = self.page_doc(
            title.as_str(),
            None,
            true,
            None,
            None,
            None,
            og_ref,
            main.as_str(),
        );
        let mut route = path;
        route.append(".html");
        Ok((route, doc))
    }

    /// The day page of the index entry at `idx`: its body followed by the
    /// pagination block pointing at the nearest earlier and later entries.
    /// The page's description, when non-empty, becomes the document's
    /// description; its cover becomes the metadata image.
    pub fn day_doc(&self, idx: usize, rendered: &RenderedArticle) -> (r: Result<
        (String, String),
        RenderError,
    >)
        requires
            self.wf(),
            idx < self.lookup_tree@.len(),
        ensures
            match r {
                Ok((route, doc)) => {
                    &&& og_ok(
                        *self,
                        spec_format_day(self.lookup_tree@[idx as int].date, false),
                    )
                    &&& route@ == spec_format_day(self.lookup_tree@[idx as int].date, false)
                        + ".html"@
                    &&& doc@ == spec_day_doc(*self, idx as int, rendered@)
                },
                Err(_) => !og_ok(
                    *self,
                    spec_format_day(self.lookup_tree@[idx as int].date, false),
                ),
            },
    {
        let e = self.lookup_tree.entry(idx);
        let date = e.date;
        let path = format_day(date, false);
        let og = match self.og_url_for(path.as_str()) {
            Ok(o) => o,
            Err(err) => {
                return Err(err);
            },
        };
        let title = self.title_with_site(self.lookup_tree.entry(idx).page.title.as_str());
        let prev_idx = self.lookup_tree.neighbor_before(date);
        let next_idx = self.lookup_tree.neighbor_after(date);
        proof {
            if idx > 0 {
                assert(crate::date::date_lt(
                    self.lookup_tree@[idx - 1].date,
                    self.lookup_tree@[idx as int].date,
                ));
            }
            match prev_idx {
                None => {
                    assert(idx == 0);
                },
                Some(i) => {
                    assert(i < idx) by {
                        if i >= idx {
                            assert(crate::date::date_lt(
                                self.lookup_tree@[idx as int].date,
                                self.lookup_tree@[i as int].date,
                            ) || i == idx);
                        }
                    }
                    assert(i as int == idx - 1) by {
                        if (i as int) < idx - 1 {
                            assert(crate::date::date_lt(
                                self.lookup_tree@[idx - 1].date,
                                self.lookup_tree@[idx as int].date,
                            ));
                        }
                    }
                },
            }
            if idx + 1 < self.lookup_tree@.len() {
                assert(crate::date::date_lt(
                    self.lookup_tree@[idx as int].date,
                    self.lookup_tree@[idx + 1].date,
                ));
            }
            match next_idx {
                None => {
                    assert(idx + 1 == self.lookup_tree@.len());
                },
                Some(i) => {
                    assert(i > idx) by {
                        if i <= idx {
                            assert(crate::date::date_lt(
                                self.lookup_tree@[i as int].date,
                                self.lookup_tree@[idx as int].date,
                            ) || i == idx);
                        }
                    }
                    assert(i as int == idx + 1) by {
                        if i as int > idx + 1 {
                            assert(crate::date::date_lt(
                                self.lookup_tree@[idx as int].date,
                                self.lookup_tree@[idx + 1].date,
                            ));
                        }
                    }
                },
            }
        }
        let prev_entry = match prev_idx {
            Some(i) => Some(self.lookup_tree.entry(i)),
            None => None,
        };
        let next_entry = match next_idx {
            Some(i) => Some(self.lookup_tree.entry(i)),
            None => None,
        };
        let cover = match &e.page.cover {
            Some(c) => Some(c),
            None => None,
        };
        let body = article(
            e.page.title.as_str(),
            rendered.heading_html.as_str(),
            crate::markup::display_date(&e.page),
            cover,
            rendered.blocks_html.as_str(),
        );
        let nav = paging_links(date, prev_entry, next_entry);
        let mut main = body;
        main.append(nav.as_str());
        let description = if e.page.description.as_str().unicode_len() > 0 {
            Some(&e.page.description)
        } else {
            None
        };
        let og_ref = match &og {
            Some(u) => Some(u),
            None => None,
        };
        let doc = self.page_doc(
            title.as_str(),
            None,
            true,
            description,
            description,
            cover,
            og_ref,
            main.as_str(),
        );
        let mut route = path;
        route.append(".html");
        Ok((route, doc))
    }
}

/// The summary fragments of the published slug pages, in input order; a
/// page without a publish value is left out of the listing.
pub open spec fn spec_articles_main(s: Seq<(String, Page)>) -> Seq<char>
    decreases s.len(),
{
    if s.len() == 0 {
        Seq::empty()
    } else {
        spec_articles_main(s.drop_last()) + (match s.last().1.published {
            Some(t) => spec_summary(
                s.last().0@,
                s.last().1.title_html@,
                t.spec_date_part(),
                s.last().1.description@,
            ),
            None => Seq::<char>::empty(),
        })
    }
}

/// A slug page's whole document: its body alone, under its own title,
/// description and cover.
pub open spec fn spec_article_doc(g: Generator, k: int, rendered: RenderedV) -> Seq<char> {
    let url = g.article_pages@[k].0;
    let page = g.article_pages@[k].1;
    spec_page_doc(
        g,
        page.title@ + " - "@ + g.config.name@,
        None,
        true,
        if page.description@.len() > 0 {
            Some(page.description@)
        } else {
            None
        },
        if page.description@.len() > 0 {
            Some(page.description@)
        } else {
            None
        },
        match page.cover {
            Some(c) => Some(c@),
            None => None,
        },
        spec_og(g, url@),
        spec_article(
            page.title@,
            rendered.heading,
            spec_display_date(page),
            match page.cover {
                Some(c) => Some(c@),
                None => None,
            },
            rendered.blocks,
        ),
    )
}

/// `s` with an ASCII lowercase first letter raised to upper case; any
/// other text is kept as it stands.
pub open spec fn spec_capitalize_first(s: Seq<char>) -> Seq<char> {
    if s.len() > 0 && 'a' <= s[0] && s[0] <= 'z' {
        seq![((s[0] as u8) - 32) as char] + s.drop_first()
    } else {
        s
    }
}

/// Raise an ASCII lowercase first letter to upper case.
pub fn capitalize_first(s: &str) -> (r: String)
    ensures
        r@ == spec_capitalize_first(s@),
{
    let n = s.unicode_len();
    if n == 0 {
        return String::new();
    }
    let first = s.get_char(0);
    if 'a' <= first && first <= 'z' {
        let mut out = String::new();
        push_char(&mut out, ((first as u8) - 32) as char);
        let rest = s.substring_char(1, n);
        out.append(rest);
        proof {
            assert(rest@ =~= s@.drop_first());
            assert(out@ =~= spec_capitalize_first(s@));
        }
        out
    } else {
        s.to_owned()
    }
}

impl Generator {
    /// A slug page's document: its rendered body alone. The route is the
    /// slug plus the file extension.
    pub fn article_doc(&self, k: usize, rendered: &RenderedArticle) -> (r: Result<
        (String, String),
        RenderError,
    >)
        requires
            self.wf(),
            k < self.article_pages@.len(),
        ensures
            match r {
                Ok((route, doc)) => {
                    &&& og_ok(*self, self.article_pages@[k as int].0@)
                    &&& route@ == self.article_pages@[k as int].0@ + ".html"@
                    &&& doc@ == spec_article_doc(*self, k as int, rendered@)
                },
                Err(_) => !og_ok(*self, self.article_pages@[k as int].0@),
            },
    {
        let pair = &self.article_pages[k];
        let og = match self.og_url_for(pair.0.as_str()) {
            Ok(o) => o,
            Err(e) => {
                return Err(e);
            },
        };
        let title = self.title_with_site(pair.1.title.as_str());
        let cover = match &pair.1.cover {
            Some(c) => Some(c),
            None => None,
        };
        let body = article(
            pair.1.title.as_str(),
            rendered.heading_html.as_str(),
            crate::markup::display_date(&pair.1),
            cover,
            rendered.blocks_html.as_str(),
        );
        let description = if pair.1.description.as_str().unicode_len() > 0 {
            Some(&pair.1.description)
        } else {
            None
        };
        let og_ref = match &og {
            Some(u) => Some(u),
            None => None,
        };
        let doc = self.page_doc(
            title.as_str(),
            None,
            true,
            description,
            description,
            cover,
            og_ref,
            body.as_str(),
        );
        let mut route = pair.0.clone();
        route.append(".html");
        Ok((route, doc))
    }

    /// The article listing's document: one summary per published slug
    /// page, in input order, under an `Articles - <site name>` title.
    pub fn generate_articles_page(&self) -> (r: Result<(String, String), RenderError>)
        requires
            self.wf(),
        ensures
            match r {
                Ok((route, doc)) => {
                    &&& og_ok(*self, "articles"@)
                    &&& route@ == "articles.html"@
                    &&& doc@ == spec_page_doc(
                        *self,
                        "Articles"@ + " - "@ + self.config.name@,
                        None,
                        true,
                        None,
                        None,
                        None,
                        spec_og(*self, "articles"@),
                        spec_articles_main(self.article_pages@),
                    )
                },
                Err(_) => !og_ok(*self, "articles"@),
            },
    {
        let og = match self.og_url_for("articles") {
            Ok(o) => o,
            Err(e) => {
                return Err(e);
            },
        };
        let title = self.title_with_site("Articles");
        let mut main = String::new();
        let n = self.article_pages.len();
        let mut k: usize = 0;
        proof {
            assert(self.article_pages@.take(0) =~= Seq::<(String, Page)>::empty());
        }
        while k < n
            invariant
                k <= n,
                n == self.article_pages@.len(),
                self.wf(),
                main@ == spec_articles_main(self.article_pages@.take(k as int)),
            decreases n - k,
        {
            let pair = &self.article_pages[k];
            proof {
                assert(self.article_pages@.take(k + 1).drop_last() =~= self.article_pages@.take(
                    k as int,
                ));
                assert(self.article_pages@.take(k + 1).last() == self.article_pages@[k as int]);
            }
            if let Some(t) = &pair.1.published {
                let date = t.date_part();
                let s = summary(
                    pair.0.as_str(),
                    pair.1.title_html.as_str(),
                    date,
                    pair.1.description.as_str(),
                );
                main.append(s.as_str());
            }
            k = k + 1;
        }
        proof {
            assert(self.article_pages@.take(n as int) =~= self.article_pages@);
        }
        let og_ref = match &og {
            Some(u) => Some(u),
            None => None,
        };
        let doc = self.page_doc(
            title.as_str(),
            None,
            true,
            None,
            None,
            None,
            og_ref,
            main.as_str(),
        );
        Ok((String::from_str("articles.html"), doc))
    }

    /// An independent page's document: a caller-supplied fragment under a
    /// title derived from its file name, with no stylesheet link and no
    /// main element.
    pub fn independent_page_doc(&self, file_name: &str, content: &str) -> (r: Result<
        (String, String),
        RenderError,
    >)
        ensures
            match r {
                Ok((route, doc)) => {
                    &&& og_ok(*self, file_name@)
                    &&& route@ == file_name@ + ".html"@
                    &&& doc@ == crate::markup::spec_document_raw(
                        self.config.locale.lang@,
                        spec_head_inner(
                            spec_capitalize_first(file_name@) + " - "@ + self.config.name@,
                            None,
                            false,
                            None,
                            match self.config.author {
                                Some(ref a) => Some(a.name@),
                                None => None,
                            },
                            None,
                            self.config.locale.locale@,
                            None,
                            spec_og(*self, file_name@),
                            match self.config.twitter.site {
                                Some(ref t) => Some(t@),
                                None => None,
                            },
                            match self.config.twitter.creator {
                                Some(ref t) => Some(t@),
                                None => None,
                            },
                            self.head@,
                        ),
                        self.header@,
                        content@,
                        self.footer@,
                    )
                },
                Err(_) => !og_ok(*self, file_name@),
            },
    {
        let og = match self.og_url_for(file_name) {
            Ok(o) => o,
            Err(e) => {
                return Err(e);
            },
        };
        let cap = capitalize_first(file_name);
        let title = self.title_with_site(cap.as_str());
        let author = match &self.config.author {
            Some(a) => Some(&a.name),
            None => None,
        };
        let twitter_site = match &self.config.twitter.site {
            Some(t) => Some(t),
            None => None,
        };
        let twitter_creator = match &self.config.twitter.creator {
            Some(t) => Some(t),
            None => None,
        };
        let og_ref = match &og {
            Some(u) => Some(u),
            None => None,
        };
        let head = head_inner(
            title.as_str(),
            None,
            false,
            None,
            author,
            None,
            self.config.locale.locale.as_str(),
            None,
            og_ref,
            twitter_site,
            twitter_creator,
            self.head.as_str(),
        );
        let doc = crate::markup::document_raw(
            self.config.locale.lang.as_str(),
            head.as_str(),
            self.header.as_str(),
            content,
            self.footer.as_str(),
        );
        let mut route = String::from_str(file_name);
        route.append(".html");
        Ok((route, doc))
    }
}

/// The neighbor shown as "previous" on the day page of entry `idx`.
pub open spec fn spec_prev_entry(tree: Seq<Entry>, idx: int) -> Option<Entry> {
    if idx > 0 {
        Some(tree[idx - 1])
    } else {
        None
    }
}

/// The neighbor shown as "next" on the day page of entry `idx`.
pub open spec fn spec_next_entry(tree: Seq<Entry>, idx: int) -> Option<Entry> {
    if idx + 1 < tree.len() {
        Some(tree[idx + 1])
    } else {
        None
    }
}

/// The day page's whole document: the entry's body, then the pagination
/// block over its immediate neighbors in the index.
pub open spec fn spec_day_doc(g: Generator, idx: int, rendered: RenderedV) -> Seq<char> {
    let e = g.lookup_tree@[idx];
    spec_page_doc(
        g,
        e.page.title@ + " - "@ + g.config.name@,
        None,
        true,
        if e.page.description@.len() > 0 {
            Some(e.page.description@)
        } else {
            None
        },
        if e.page.description@.len() > 0 {
            Some(e.page.description@)
        } else {
            None
        },
        match e.page.cover {
            Some(c) => Some(c@),
            None => None,
        },
        spec_og(g, spec_format_day(e.date, false)),
        spec_article_at(e, rendered) + spec_paging_links(
            e.date,
            spec_prev_entry(g.lookup_tree@, idx),
            spec_next_entry(g.lookup_tree@, idx),
        ),
    )
}

} // verus!
