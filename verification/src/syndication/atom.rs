//! The Atom feed document: a root element carrying identity, title,
//! last-updated timestamp, author blocks, a generator block, a self link
//! and an alternate link, optional icon and logo, and one entry per feed
//! item.
//!
//! Text and attribute values are escaped; link targets are inserted as
//! they stand, since they are URL serializations.

use vstd::prelude::*;
use vstd::string::StringExecFns;
use crate::config::AuthorConfig;
use crate::date::DateTime;
use crate::feed::{
    FeedItemV, items_dates_wf, lemma_feed_items_wf, max_updated, spec_candidates,
    spec_max_updated, spec_stable_sort, views_of,
};
use crate::text::{escape, rfc3339, spec_escaped, spec_rfc3339};
use crate::urls::{join_url, spec_joined_url};

verus! {

/// An author block.
pub struct Person {
    pub name: String,
    pub email: Option<String>,
    pub url: Option<String>,
}

/// An author block, as the specifications see it.
pub struct PersonV {
    pub name: Seq<char>,
    pub email: Option<Seq<char>>,
    pub url: Option<Seq<char>>,
}

impl View for Person {
    type V = PersonV;

    open spec fn view(&self) -> PersonV {
        PersonV {
            name: self.name@,
            email: match self.email {
                Some(ref e) => Some(e@),
                None => None,
            },
            url: match self.url {
                Some(ref u) => Some(u@),
                None => None,
            },
        }
    }
}

/// The generator block: which software produced the feed.
pub struct Generator {
    pub value: String,
    pub uri: String,
    pub version: String,
}

pub struct GeneratorV {
    pub value: Seq<char>,
    pub uri: Seq<char>,
    pub version: Seq<char>,
}

impl View for Generator {
    type V = GeneratorV;

    open spec fn view(&self) -> GeneratorV {
        GeneratorV { value: self.value@, uri: self.uri@, version: self.version@ }
    }
}

/// One feed entry.
pub struct Entry {
    pub title: String,
    pub url: String,
    pub updated: DateTime,
    pub published: DateTime,
    pub summary: String,
    pub content: String,
}

pub struct EntryV {
    pub title: Seq<char>,
    pub url: Seq<char>,
    pub updated: DateTime,
    pub published: DateTime,
    pub summary: Seq<char>,
    pub content: Seq<char>,
}

impl View for Entry {
    type V = EntryV;

    open spec fn view(&self) -> EntryV {
        EntryV {
            title: self.title@,
            url: self.url@,
            updated: self.updated,
            published: self.published,
            summary: self.summary@,
            content: self.content@,
        }
    }
}

/// Which relation a link states.
pub enum LinkType {
    Alternate,
    Self_,
}

/// A link element; the target is inserted as it stands.
pub struct Link {
    pub ty: LinkType,
    pub href: String,
}

/// The whole feed document's data.
pub struct Feed {
    pub title: String,
    /// The URL the site is served from; the feed's identity.
    pub url: String,
    /// The URL the feed itself is served from.
    pub feed_url: String,
    /// The feed's last-updated value.
    pub last_changed: DateTime,
    pub authors: Vec<Person>,
    pub generator: Generator,
    pub icon: Option<String>,
    pub cover: Option<String>,
    pub lang: String,
    pub entries: Vec<Entry>,
}

pub struct FeedV {
    pub title: Seq<char>,
    pub url: Seq<char>,
    pub feed_url: Seq<char>,
    pub last_changed: DateTime,
    pub authors: Seq<PersonV>,
    pub generator: GeneratorV,
    pub icon: Option<Seq<char>>,
    pub cover: Option<Seq<char>>,
    pub lang: Seq<char>,
    pub entries: Seq<EntryV>,
}

impl View for Feed {
    type V = FeedV;

    open spec fn view(&self) -> FeedV {
        FeedV {
            title: self.title@,
            url: self.url@,
            feed_url: self.feed_url@,
            last_changed: self.last_changed,
            authors: self.authors@.map_values(|p: Person| p@),
            generator: self.generator@,
            icon: match self.icon {
                Some(ref s) => Some(s@),
                None => None,
            },
            cover: match self.cover {
                Some(ref s) => Some(s@),
                None => None,
            },
            lang: self.lang@,
            entries: self.entries@.map_values(|e: Entry| e@),
        }
    }
}

/// The link relation's name.
pub open spec fn spec_link_rel(ty: LinkType) -> Seq<char> {
    match ty {
        LinkType::Alternate => "alternate"@,
        LinkType::Self_ => "self"@,
    }
}

/// A link element: `<link rel="..." href="..." />`, the target raw.
pub open spec fn spec_link(ty: LinkType, href: Seq<char>) -> Seq<char> {
    "<link rel=\""@ + spec_link_rel(ty) + "\" href=\""@ + href + "\" />"@
}

impl Link {
    pub fn render(&self) -> (r: String)
        ensures
            r@ == spec_link(self.ty, self.href@),
    {
        let mut out = String::from_str("<link rel=\"");
        match self.ty {
            LinkType::Alternate => out.append("alternate"),
            LinkType::Self_ => out.append("self"),
        }
        out.append("\" href=\"");
        out.append(self.href.as_str());
        out.append("\" />");
        proof {
            assert(out@ == spec_link(self.ty, self.href@));
        }
        out
    }
}

/// An author block's markup.
pub open spec fn spec_person(p: PersonV) -> Seq<char> {
    "<author><name>"@ + spec_escaped(p.name) + "</name>"@ + (match p.email {
        Some(e) => "<email>"@ + spec_escaped(e) + "</email>"@,
        None => Seq::<char>::empty(),
    }) + (match p.url {
        Some(u) => "<uri>"@ + spec_escaped(u) + "</uri>"@,
        None => Seq::<char>::empty(),
    }) + "</author>"@
}

impl Person {
    pub fn render(&self) -> (r: String)
        ensures
            r@ == spec_person(self@),
    {
        let mut out = String::from_str("<author><name>");
        let n = escape(self.name.as_str());
        out.append(n.as_str());
        out.append("</name>");
        let ghost p1 = out@;
        let ghost p2 = p1 + (match self@.email {
            Some(e) => "<email>"@ + spec_escaped(e) + "</email>"@,
            None => Seq::<char>::empty(),
        });
        if let Some(e) = &self.email {
            out.append("<email>");
            let ev = escape(e.as_str());
            out.append(ev.as_str());
            out.append("</email>");
        } else {
            proof {
                assert(p2 =~= p1);
            }
        }
        assert(out@ == p2);
        let ghost p3 = p2 + (match self@.url {
            Some(u) => "<uri>"@ + spec_escaped(u) + "</uri>"@,
            None => Seq::<char>::empty(),
        });
        if let Some(u) = &self.url {
            out.append("<uri>");
            let uv = escape(u.as_str());
            out.append(uv.as_str());
            out.append("</uri>");
        } else {
            proof {
                assert(p3 =~= p2);
            }
        }
        assert(out@ == p3);
        out.append("</author>");
        out
    }
}

/// The generator block's markup.
pub open spec fn spec_generator(g: GeneratorV) -> Seq<char> {
    "<generator uri=\""@ + spec_escaped(g.uri) + "\" version=\""@ + spec_escaped(g.version)
        + "\">"@ + spec_escaped(g.value) + "</generator>"@
}

impl Generator {
    pub fn render(&self) -> (r: String)
        ensures
            r@ == spec_generator(self@),
    {
        let mut out = String::from_str("<generator uri=\"");
        let u = escape(self.uri.as_str());
        out.append(u.as_str());
        out.append("\" version=\"");
        let v = escape(self.version.as_str());
        out.append(v.as_str());
        out.append("\">");
        let val = escape(self.value.as_str());
        out.append(val.as_str());
        out.append("</generator>");
        proof {
            assert(out@ == spec_generator(self@));
        }
        out
    }
}

/// One entry's markup: identity, title, the two timestamps, summary, and
/// the escaped content markup.
pub open spec fn spec_entry(e: EntryV) -> Seq<char> {
    "<entry><id>"@ + spec_escaped(e.url) + "</id><title type=\"html\">"@ + spec_escaped(e.title)
        + "</title><updated>"@ + spec_rfc3339(e.updated) + "</updated><published>"@ + spec_rfc3339(
        e.published,
    ) + "</published><summary>"@ + spec_escaped(e.summary) + "</summary><content type=\"html\">"@
        + spec_escaped(e.content) + "</content></entry>"@
}

impl Entry {
    pub fn render(&self) -> (r: String)
        requires
            self.updated.wf(),
            self.published.wf(),
        ensures
            r@ == spec_entry(self@),
    {
        let mut out = String::from_str("<entry><id>");
        let u = escape(self.url.as_str());
        out.append(u.as_str());
        out.append("</id><title type=\"html\">");
        let t = escape(self.title.as_str());
        out.append(t.as_str());
        out.append("</title><updated>");
        let up = rfc3339(&self.updated);
        out.append(up.as_str());
        out.append("</updated><published>");
        let pu = rfc3339(&self.published);
        out.append(pu.as_str());
        out.append("</published><summary>");
        let s = escape(self.summary.as_str());
        out.append(s.as_str());
        out.append("</summary><content type=\"html\">");
        let c = escape(self.content.as_str());
        out.append(c.as_str());
        out.append("</content></entry>");
        proof {
            assert(out@ == spec_entry(self@));
        }
        out
    }
}

/// The author blocks' markup, in order.
pub open spec fn spec_persons(s: Seq<PersonV>) -> Seq<char>
    decreases s.len(),
{
    if s.len() == 0 {
        Seq::empty()
    } else {
        spec_persons(s.drop_last()) + spec_person(s.last())
    }
}

/// The entries' markup, in order.
pub open spec fn spec_entries(s: Seq<EntryV>) -> Seq<char>
    decreases s.len(),
{
    if s.len() == 0 {
        Seq::empty()
    } else {
        spec_entries(s.drop_last()) + spec_entry(s.last())
    }
}

/// Every entry's timestamps are real calendar times.
pub open spec fn entries_dates_wf(s: Seq<Entry>) -> bool {
    forall|i: int|
        0 <= i < s.len() ==> (#[trigger] s[i]).updated.wf() && s[i].published.wf()
}

/// The whole feed document's markup.
pub open spec fn spec_feed(f: FeedV) -> Seq<char> {
    "<?xml version=\"1.0\" encoding=\"utf-8\" ?>"@
        + "<feed xmlns=\"http://www.w3.org/2005/Atom\" xml:lang=\""@ + spec_escaped(f.lang)
        + "\"><id>"@ + spec_escaped(f.url) + "</id><title>"@ + spec_escaped(f.title)
        + "</title><updated>"@ + spec_rfc3339(f.last_changed) + "</updated>"@ + spec_persons(
        f.authors,
    ) + spec_generator(f.generator) + spec_link(LinkType::Self_, f.feed_url) + spec_link(
        LinkType::Alternate,
        f.url,
    ) + (match f.icon {
        Some(i) => "<icon>"@ + spec_escaped(i) + "</icon>"@,
        None => Seq::<char>::empty(),
    }) + (match f.cover {
        Some(c) => "<logo>"@ + spec_escaped(c) + "</logo>"@,
        None => Seq::<char>::empty(),
    }) + spec_entries(f.entries) + "</feed>"@
}

impl Feed {
    pub fn render(&self) -> (r: String)
        requires
            self.last_changed.wf(),
            entries_dates_wf(self.entries@),
        ensures
            r@ == spec_feed(self@),
    {
        let mut out = String::from_str("<?xml version=\"1.0\" encoding=\"utf-8\" ?>");
        out.append("<feed xmlns=\"http://www.w3.org/2005/Atom\" xml:lang=\"");
        let l = escape(self.lang.as_str());
        out.append(l.as_str());
        out.append("\"><id>");
        let u = escape(self.url.as_str());
        out.append(u.as_str());
        out.append("</id><title>");
        let t = escape(self.title.as_str());
        out.append(t.as_str());
        out.append("</title><updated>");
        let up = rfc3339(&self.last_changed);
        out.append(up.as_str());
        out.append("</updated>");
        let ghost p0 = out@;
        let n_a = self.authors.len();
        let mut i: usize = 0;
        proof {
            assert(self@.authors.take(0) =~= Seq::<PersonV>::empty());
        }
        while i < n_a
            invariant
                i <= n_a,
                n_a == self.authors@.len(),
                self@.authors.len() == n_a,
                forall|k: int| 0 <= k < n_a ==> self@.authors[k] == (#[trigger] self.authors@[k])@,
                out@ == p0 + spec_persons(self@.authors.take(i as int)),
            decreases n_a - i,
        {
            let p = self.authors[i].render();
            out.append(p.as_str());
            proof {
                assert(self@.authors.take(i + 1).drop_last() =~= self@.authors.take(i as int));
                assert(self@.authors.take(i + 1).last() == self@.authors[i as int]);
            }
            i = i + 1;
        }
        proof {
            assert(self@.authors.take(n_a as int) =~= self@.authors);
        }
        let g = self.generator.render();
        out.append(g.as_str());
        let self_link = Link { ty: LinkType::Self_, href: self.feed_url.clone() };
        let sl = self_link.render();
        out.append(sl.as_str());
        let alt_link = Link { ty: LinkType::Alternate, href: self.url.clone() };
        let al = alt_link.render();
        out.append(al.as_str());
        let ghost p1 = out@;
        let ghost p2 = p1 + (match self@.icon {
            Some(ic) => "<icon>"@ + spec_escaped(ic) + "</icon>"@,
            None => Seq::<char>::empty(),
        });
        if let Some(ic) = &self.icon {
            out.append("<icon>");
            let iv = escape(ic.as_str());
            out.append(iv.as_str());
            out.append("</icon>");
        } else {
            proof {
                assert(p2 =~= p1);
            }
        }
        assert(out@ == p2);
        let ghost p3 = p2 + (match self@.cover {
            Some(c) => "<logo>"@ + spec_escaped(c) + "</logo>"@,
            None => Seq::<char>::empty(),
        });
        if let Some(c) = &self.cover {
            out.append("<logo>");
            let cv = escape(c.as_str());
            out.append(cv.as_str());
            out.append("</logo>");
        } else {
            proof {
                assert(p3 =~= p2);
            }
        }
        assert(out@ == p3);
        let n_e = self.entries.len();
        let mut j: usize = 0;
        proof {
            assert(self@.entries.take(0) =~= Seq::<EntryV>::empty());
        }
        while j < n_e
            invariant
                j <= n_e,
                n_e == self.entries@.len(),
                self@.entries.len() == n_e,
                entries_dates_wf(self.entries@),
                forall|k: int| 0 <= k < n_e ==> self@.entries[k] == (#[trigger] self.entries@[k])@,
                out@ == p3 + spec_entries(self@.entries.take(j as int)),
            decreases n_e - j,
        {
            let e = self.entries[j].render();
            out.append(e.as_str());
            proof {
                assert(self@.entries.take(j + 1).drop_last() =~= self@.entries.take(j as int));
                assert(self@.entries.take(j + 1).last() == self@.entries[j as int]);
            }
            j = j + 1;
        }
        proof {
            assert(self@.entries.take(n_e as int) =~= self@.entries);
        }
        out.append("</feed>");
        proof {
            assert(out@ == spec_feed(self@));
        }
        out
    }
}

/// Why feed generation failed.
#[derive(Clone, Copy, PartialEq, Eq, Structural, Debug)]
pub enum FeedError {
    /// The feed's own URL could not be joined onto the base URL.
    FeedUrl,
}

impl FeedError {
    pub fn message(&self) -> (r: String)
        ensures
            r@ == "Failed to join feed URL onto the site base URL"@,
    {
        String::from_str("Failed to join feed URL onto the site base URL")
    }
}

/// The views of a run of content strings.
pub open spec fn strs_of(s: Seq<String>) -> Seq<Seq<char>> {
    s.map_values(|x: String| x@)
}

/// The entries the feed carries: one per ordered publication, its content
/// the externally rendered markup handed in alongside.
pub open spec fn spec_entries_from(items: Seq<FeedItemV>, contents: Seq<Seq<char>>) -> Seq<
    EntryV,
> {
    Seq::new(
        items.len(),
        |i: int|
            EntryV {
                title: items[i].title,
                url: items[i].url,
                updated: items[i].updated,
                published: items[i].published,
                summary: items[i].summary,
                content: contents[i],
            },
    )
}

/// The feed's author blocks: the configured author, or none.
pub open spec fn spec_feed_authors(author: Option<AuthorConfig>) -> Seq<PersonV> {
    match author {
        Some(a) => seq![
            PersonV {
                name: a.name@,
                email: None,
                url: match a.url {
                    Some(u) => Some(u@),
                    None => None,
                },
            },
        ],
        None => Seq::empty(),
    }
}

/// The feed document's data for a run: its identity is the base URL, its
/// last-updated value the latest last-edited instant among the
/// publications, its entries the ordered publications.
pub open spec fn spec_feed_value(
    g: crate::generator::Generator,
    genv: GeneratorV,
    contents: Seq<Seq<char>>,
    base: Seq<char>,
    fu: Seq<char>,
) -> FeedV {
    FeedV {
        title: g.config.name@,
        url: base,
        feed_url: fu,
        last_changed: spec_max_updated(spec_stable_sort(spec_candidates(g))),
        authors: spec_feed_authors(g.config.author),
        generator: genv,
        icon: match g.config.icon {
            Some(s) => Some(s@),
            None => None,
        },
        cover: match g.config.cover {
            Some(s) => Some(s@),
            None => None,
        },
        lang: g.config.locale.locale@,
        entries: spec_entries_from(spec_stable_sort(spec_candidates(g)), contents),
    }
}

impl crate::generator::Generator {
    /// Compose the feed document. A missing base URL or an empty
    /// publication list makes the whole step a no-op, not an error;
    /// failing to join the feed's own URL aborts it. `contents` carries
    /// the externally rendered content markup of each ordered
    /// publication, in order.
    pub fn generate_atom_feed(&self, feed_generator: Generator, contents: Vec<String>) -> (r:
        Result<Option<(String, String)>, FeedError>)
        requires
            self.wf(),
            contents@.len() == spec_stable_sort(spec_candidates(*self)).len(),
        ensures
            match r {
                Ok(None) => self.config.url is None || spec_stable_sort(
                    spec_candidates(*self),
                ).len() == 0,
                Ok(Some((route, doc))) => {
                    &&& self.config.url matches Some(base)
                    &&& spec_stable_sort(spec_candidates(*self)).len() > 0
                    &&& spec_joined_url(self.config.url->0@, "feed.xml"@) matches Some(fu)
                    &&& route@ == "feed.xml"@
                    &&& doc@ == spec_feed(
                        spec_feed_value(
                            *self,
                            feed_generator@,
                            strs_of(contents@),
                            self.config.url->0@,
                            fu,
                        ),
                    )
                },
                Err(e) => self.config.url is Some && spec_stable_sort(
                    spec_candidates(*self),
                ).len() > 0 && spec_joined_url(self.config.url->0@, "feed.xml"@) is None,
            },
    {
        let base = match &self.config.url {
            None => {
                return Ok(None);
            },
            Some(u) => u,
        };
        let items = self.feed_items();
        if items.len() == 0 {
            return Ok(None);
        }
        let feed_url = match join_url(base.as_str(), "feed.xml") {
            None => {
                return Err(FeedError::FeedUrl);
            },
            Some(u) => u,
        };
        proof {
            lemma_feed_items_wf(*self);
        }
        let last_changed = match max_updated(&items) {
            Some(m) => m,
            None => {
                proof {
                    assert(false);
                }
                return Err(FeedError::FeedUrl);
            },
        };
        proof {
            let sorted = spec_stable_sort(spec_candidates(*self));
            let wit = choose|i: int| 0 <= i < items@.len() && items@[i].updated == last_changed;
            assert(views_of(items@)[wit] == items@[wit]@);
            assert(last_changed.wf());
        }
        let mut authors: Vec<Person> = Vec::new();
        if let Some(a) = &self.config.author {
            let url = match &a.url {
                Some(u) => Some(u.clone()),
                None => None,
            };
            authors.push(Person { name: a.name.clone(), email: None, url });
        }
        proof {
            assert(authors@.map_values(|p: Person| p@) =~~= spec_feed_authors(self.config.author));
        }
        let ghost sorted = spec_stable_sort(spec_candidates(*self));
        let mut entries: Vec<Entry> = Vec::new();
        let n = items.len();
        let mut i: usize = 0;
        proof {
            assert(entries@.map_values(|e: Entry| e@) =~~= spec_entries_from(
                sorted,
                strs_of(contents@),
            ).take(0));
        }
        while i < n
            invariant
                i <= n,
                n == items@.len(),
                views_of(items@) == sorted,
                contents@.len() == n,
                items_dates_wf(sorted),
                entries@.len() == i,
                entries@.map_values(|e: Entry| e@) == spec_entries_from(
                    sorted,
                    strs_of(contents@),
                ).take(i as int),
            decreases n - i,
        {
            let it = &items[i];
            let entry = Entry {
                title: it.title.clone(),
                url: it.url.clone(),
                updated: it.updated,
                published: it.published,
                summary: it.summary.clone(),
                content: contents[i].clone(),
            };
            let ghost ev = entry@;
            let ghost before = entries@;
            proof {
                assert(sorted[i as int] == items@[i as int]@);
                assert(strs_of(contents@)[i as int] == contents@[i as int]@);
                assert(ev.title == sorted[i as int].title);
                assert(ev.url == sorted[i as int].url);
                assert(ev.summary == sorted[i as int].summary);
                assert(ev.content == strs_of(contents@)[i as int]);
                assert(ev == spec_entries_from(sorted, strs_of(contents@))[i as int]);
            }
            entries.push(entry);
            proof {
                assert(entries@.len() == i + 1);
                assert(entries@[i as int]@ == ev);
                assert(forall|k: int| 0 <= k < i ==> entries@[k] == before[k]);
                assert(entries@.map_values(|e: Entry| e@) =~~= spec_entries_from(
                    sorted,
                    strs_of(contents@),
                ).take(i + 1));
            }
            i = i + 1;
        }
        proof {
            assert(spec_entries_from(sorted, strs_of(contents@)).take(n as int)
                =~~= spec_entries_from(sorted, strs_of(contents@)));
            assert(entries_dates_wf(entries@)) by {
                assert(forall|k: int|
                    0 <= k < entries@.len() ==> (#[trigger] entries@[k])@ == spec_entries_from(
                        sorted,
                        strs_of(contents@),
                    )[k]);
            }
        }
        let icon = match &self.config.icon {
            Some(s) => Some(s.clone()),
            None => None,
        };
        let cover = match &self.config.cover {
            Some(s) => Some(s.clone()),
            None => None,
        };
        let feed = Feed {
            title: self.config.name.clone(),
            url: base.clone(),
            feed_url,
            last_changed,
            authors,
            generator: feed_generator,
            icon,
            cover,
            lang: self.config.locale.locale.clone(),
            entries,
        };
        proof {
            assert(feed@ =~~= spec_feed_value(
                *self,
                feed_generator@,
                strs_of(contents@),
                self.config.url->0@,
                spec_joined_url(self.config.url->0@, "feed.xml"@)->0,
            ));
        }
        let doc = feed.render();
        Ok(Some((String::from_str("feed.xml"), doc)))
    }
}

} // verus!
