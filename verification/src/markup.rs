//! Verified markup assembly: document chrome, metadata, article fragments,
//! summaries and day-page pagination links.
//!
//! Rich content bodies, headings and inline rich text are rendered by an
//! external collaborator; they arrive here as opaque markup strings and are
//! inserted verbatim. Everything else (plain text, attribute values) is
//! escaped.

use vstd::prelude::*;
use vstd::string::StringExecFns;
use crate::date::{Date, PageTime, spec_next_day, spec_previous_day};
use crate::index::Entry;
use crate::page::Page;
use crate::text::{
    escape, format_day, month_name, pad2, pad4, spec_escaped, spec_format_day, spec_month_name,
    spec_pad2, spec_pad4,
};

verus! {

/// `<meta name="..." content="...">`, the content escaped.
pub open spec fn spec_meta_name(name: Seq<char>, content: Seq<char>) -> Seq<char> {
    "<meta name=\""@ + name + "\" content=\""@ + spec_escaped(content) + "\">"@
}

pub fn meta_name(name: &str, content: &str) -> (r: String)
    ensures
        r@ == spec_meta_name(name@, content@),
{
    let mut out = String::from_str("<meta name=\"");
    out.append(name);
    out.append("\" content=\"");
    let c = escape(content);
    out.append(c.as_str());
    out.append("\">");
    proof {
        assert(out@ =~= spec_meta_name(name@, content@));
    }
    out
}

/// `<meta property="..." content="...">`, the content escaped.
pub open spec fn spec_meta_property(property: Seq<char>, content: Seq<char>) -> Seq<char> {
    "<meta property=\""@ + property + "\" content=\""@ + spec_escaped(content) + "\">"@
}

pub fn meta_property(property: &str, content: &str) -> (r: String)
    ensures
        r@ == spec_meta_property(property@, content@),
{
    let mut out = String::from_str("<meta property=\"");
    out.append(property);
    out.append("\" content=\"");
    let c = escape(content);
    out.append(c.as_str());
    out.append("\">");
    proof {
        assert(out@ =~= spec_meta_property(property@, content@));
    }
    out
}

/// The head contents shared by every document, assembled in a fixed order;
/// each optional piece is present exactly when its argument is.
pub open spec fn spec_head_inner(
    title: Seq<char>,
    early_description: Option<Seq<char>>,
    stylesheet: bool,
    late_description: Option<Seq<char>>,
    author: Option<Seq<char>>,
    og_description: Option<Seq<char>>,
    locale: Seq<char>,
    og_image: Option<Seq<char>>,
    og_url: Option<Seq<char>>,
    twitter_site: Option<Seq<char>>,
    twitter_creator: Option<Seq<char>>,
    head_fragment: Seq<char>,
) -> Seq<char> {
    "<meta charset=\"utf-8\"><meta name=\"viewport\" content=\"width=device-width, initial-scale=1\">"@
        + (match early_description {
        Some(d) => spec_meta_name("description"@, d),
        None => Seq::<char>::empty(),
    }) + (if stylesheet {
        "<link rel=\"stylesheet\" href=\"/katex/katex.min.css\">"@
    } else {
        Seq::<char>::empty()
    }) + "<title>"@ + spec_escaped(title) + "</title>"@ + (match late_description {
        Some(d) => spec_meta_name("description"@, d),
        None => Seq::<char>::empty(),
    }) + (match author {
        Some(a) => spec_meta_name("author"@, a),
        None => Seq::<char>::empty(),
    }) + spec_meta_property("og:title"@, title) + (match og_description {
        Some(d) => spec_meta_property("og:description"@, d),
        None => Seq::<char>::empty(),
    }) + spec_meta_property("og:locale"@, locale) + (match og_image {
        Some(img) => spec_meta_property("og:image"@, img) + spec_meta_name(
            "twitter:card"@,
            "summary_large_image"@,
        ),
        None => Seq::<char>::empty(),
    }) + (match og_url {
        Some(u) => spec_meta_property("og:url"@, u),
        None => Seq::<char>::empty(),
    }) + (match twitter_site {
        Some(t) => spec_meta_name("twitter:site"@, t),
        None => Seq::<char>::empty(),
    }) + (match twitter_creator {
        Some(t) => spec_meta_name("twitter:creator"@, t),
        None => Seq::<char>::empty(),
    }) + head_fragment
}

pub open spec fn view_opt(o: Option<&String>) -> Option<Seq<char>> {
    match o {
        Some(s) => Some(s@),
        None => None,
    }
}

pub fn head_inner(
    title: &str,
    early_description: Option<&String>,
    stylesheet: bool,
    late_description: Option<&String>,
    author: Option<&String>,
    og_description: Option<&String>,
    locale: &str,
    og_image: Option<&String>,
    og_url: Option<&String>,
    twitter_site: Option<&String>,
    twitter_creator: Option<&String>,
    head_fragment: &str,
) -> (r: String)
    ensures
        r@ == spec_head_inner(
            title@,
            view_opt(early_description),
            stylesheet,
            view_opt(late_description),
            view_opt(author),
            view_opt(og_description),
            locale@,
            view_opt(og_image),
            view_opt(og_url),
            view_opt(twitter_site),
            view_opt(twitter_creator),
            head_fragment@,
        ),
{
    let mut out = String::from_str(
        "<meta charset=\"utf-8\"><meta name=\"viewport\" content=\"width=device-width, initial-scale=1\">",
    );
    let ghost p0 = out@;
    let ghost p1 = p0 + (match view_opt(early_description) {
        Some(d) => spec_meta_name("description"@, d),
        None => Seq::<char>::empty(),
    });
    if let Some(d) = early_description {
        let m = meta_name("description", d.as_str());
        out.append(m.as_str());
    } else {
        proof {
            assert(p1 =~= p0);
        }
    }
    assert(out@ == p1);
    let ghost p2 = p1 + (if stylesheet {
        "<link rel=\"stylesheet\" href=\"/katex/katex.min.css\">"@
    } else {
        Seq::<char>::empty()
    });
    if stylesheet {
        out.append("<link rel=\"stylesheet\" href=\"/katex/katex.min.css\">");
    } else {
        proof {
            assert(p2 =~= p1);
        }
    }
    assert(out@ == p2);
    out.append("<title>");
    let t = escape(title);
    out.append(t.as_str());
    out.append("</title>");
    let ghost p3 = p2 + "<title>"@ + spec_escaped(title@) + "</title>"@;
    assert(out@ == p3);
    let ghost p4 = p3 + (match view_opt(late_description) {
        Some(d) => spec_meta_name("description"@, d),
        None => Seq::<char>::empty(),
    });
    if let Some(d) = late_description {
        let m = meta_name("description", d.as_str());
        out.append(m.as_str());
    } else {
        proof {
            assert(p4 =~= p3);
        }
    }
    assert(out@ == p4);
    let ghost p5 = p4 + (match view_opt(author) {
        Some(a) => spec_meta_name("author"@, a),
        None => Seq::<char>::empty(),
    });
    if let Some(a) = author {
        let m = meta_name("author", a.as_str());
        out.append(m.as_str());
    } else {
        proof {
            assert(p5 =~= p4);
        }
    }
    assert(out@ == p5);
    let ogt = meta_property("og:title", title);
    out.append(ogt.as_str());
    let ghost p6 = p5 + spec_meta_property("og:title"@, title@);
    assert(out@ == p6);
    let ghost p7 = p6 + (match view_opt(og_description) {
        Some(d) => spec_meta_property("og:description"@, d),
        None => Seq::<char>::empty(),
    });
    if let Some(d) = og_description {
        let m = meta_property("og:description", d.as_str());
        out.append(m.as_str());
    } else {
        proof {
            assert(p7 =~= p6);
        }
    }
    assert(out@ == p7);
    let ogl = meta_property("og:locale", locale);
    out.append(ogl.as_str());
    let ghost p8 = p7 + spec_meta_property("og:locale"@, locale@);
    assert(out@ == p8);
    let ghost p9 = p8 + (match view_opt(og_image) {
        Some(img) => spec_meta_property("og:image"@, img) + spec_meta_name(
            "twitter:card"@,
            "summary_large_image"@,
        ),
        None => Seq::<char>::empty(),
    });
    if let Some(img) = og_image {
        let m = meta_property("og:image", img.as_str());
        out.append(m.as_str());
        let c = meta_name("twitter:card", "summary_large_image");
        out.append(c.as_str());
        proof {
            assert(out@ == p9);
        }
    } else {
        proof {
            assert(p9 =~= p8);
        }
    }
    assert(out@ == p9);
    let ghost p10 = p9 + (match view_opt(og_url) {
        Some(u) => spec_meta_property("og:url"@, u),
        None => Seq::<char>::empty(),
    });
    if let Some(u) = og_url {
        let m = meta_property("og:url", u.as_str());
        out.append(m.as_str());
    } else {
        proof {
            assert(p10 =~= p9);
        }
    }
    assert(out@ == p10);
    let ghost p11 = p10 + (match view_opt(twitter_site) {
        Some(ts) => spec_meta_name("twitter:site"@, ts),
        None => Seq::<char>::empty(),
    });
    if let Some(t2) = twitter_site {
        let m = meta_name("twitter:site", t2.as_str());
        out.append(m.as_str());
    } else {
        proof {
            assert(p11 =~= p10);
        }
    }
    assert(out@ == p11);
    let ghost p12 = p11 + (match view_opt(twitter_creator) {
        Some(tc) => spec_meta_name("twitter:creator"@, tc),
        None => Seq::<char>::empty(),
    });
    if let Some(t2) = twitter_creator {
        let m = meta_name("twitter:creator", t2.as_str());
        out.append(m.as_str());
    } else {
        proof {
            assert(p12 =~= p11);
        }
    }
    assert(out@ == p12);
    out.append(head_fragment);
    out
}

/// A whole document: doctype, language, head, then a body of header, main
/// and footer. The head, header and footer fragments are inserted verbatim.
pub open spec fn spec_document(
    lang: Seq<char>,
    head: Seq<char>,
    header_fragment: Seq<char>,
    main: Seq<char>,
    footer_fragment: Seq<char>,
) -> Seq<char> {
    "<!DOCTYPE html><html lang=\""@ + spec_escaped(lang) + "\"><head>"@ + head
        + "</head><body><header>"@ + header_fragment + "</header><main>"@ + main
        + "</main><footer>"@ + footer_fragment + "</footer></body></html>"@
}

pub fn document(
    lang: &str,
    head: &str,
    header_fragment: &str,
    main: &str,
    footer_fragment: &str,
) -> (r: String)
    ensures
        r@ == spec_document(lang@, head@, header_fragment@, main@, footer_fragment@),
{
    let mut out = String::from_str("<!DOCTYPE html><html lang=\"");
    let l = escape(lang);
    out.append(l.as_str());
    out.append("\"><head>");
    out.append(head);
    out.append("</head><body><header>");
    out.append(header_fragment);
    out.append("</header><main>");
    out.append(main);
    out.append("</main><footer>");
    out.append(footer_fragment);
    out.append("</footer></body></html>");
    proof {
        assert(out@ =~= spec_document(lang@, head@, header_fragment@, main@, footer_fragment@));
    }
    out
}

/// A document whose body is a raw fragment between the header and footer,
/// with no main element around it.
pub open spec fn spec_document_raw(
    lang: Seq<char>,
    head: Seq<char>,
    header_fragment: Seq<char>,
    content: Seq<char>,
    footer_fragment: Seq<char>,
) -> Seq<char> {
    "<!DOCTYPE html><html lang=\""@ + spec_escaped(lang) + "\"><head>"@ + head
        + "</head><body><header>"@ + header_fragment + "</header>"@ + content + "<footer>"@
        + footer_fragment + "</footer></body></html>"@
}

pub fn document_raw(
    lang: &str,
    head: &str,
    header_fragment: &str,
    content: &str,
    footer_fragment: &str,
) -> (r: String)
    ensures
        r@ == spec_document_raw(lang@, head@, header_fragment@, content@, footer_fragment@),
{
    let mut out = String::from_str("<!DOCTYPE html><html lang=\"");
    let l = escape(lang);
    out.append(l.as_str());
    out.append("\"><head>");
    out.append(head);
    out.append("</head><body><header>");
    out.append(header_fragment);
    out.append("</header>");
    out.append(content);
    out.append("<footer>");
    out.append(footer_fragment);
    out.append("</footer></body></html>");
    proof {
        assert(out@ =~= spec_document_raw(
            lang@,
            head@,
            header_fragment@,
            content@,
            footer_fragment@,
        ));
    }
    out
}

/// A date line: `<p><time datetime="YYYY-MM-DD">Month DD, YYYY</time></p>`.
pub open spec fn spec_article_time(d: Date) -> Seq<char> {
    "<p><time datetime=\""@ + spec_pad4(d.year as int) + "-"@ + spec_pad2(d.month as int) + "-"@
        + spec_pad2(d.day as int) + "\">"@ + spec_month_name(d.month as int) + " "@ + spec_pad2(
        d.day as int,
    ) + ", "@ + spec_pad4(d.year as int) + "</time></p>"@
}

pub fn article_time(d: Date) -> (r: String)
    requires
        d.wf(),
    ensures
        r@ == spec_article_time(d),
{
    let mut out = String::from_str("<p><time datetime=\"");
    let y = pad4(d.year as u32);
    out.append(y.as_str());
    out.append("-");
    let mo = pad2(d.month);
    out.append(mo.as_str());
    out.append("-");
    let da = pad2(d.day);
    out.append(da.as_str());
    out.append("\">");
    out.append(month_name(d.month));
    out.append(" ");
    out.append(da.as_str());
    out.append(", ");
    out.append(y.as_str());
    out.append("</time></p>");
    proof {
        assert(out@ =~= spec_article_time(d));
    }
    out
}

/// The date shown on a page: its entry date, or failing that the calendar
/// part of its publish value.
pub open spec fn spec_display_date(p: Page) -> Option<Date> {
    match p.date {
        Some(t) => Some(t.spec_date_part()),
        None => match p.published {
            Some(t) => Some(t.spec_date_part()),
            None => None,
        },
    }
}

pub fn display_date(p: &Page) -> (r: Option<Date>)
    ensures
        r == spec_display_date(*p),
{
    match &p.date {
        Some(t) => Some(t.date_part()),
        None => match &p.published {
            Some(t) => Some(t.date_part()),
            None => None,
        },
    }
}

/// One rendered page body: heading, optional date line, optional cover
/// image, then the externally rendered content blocks.
pub open spec fn spec_article(
    title: Seq<char>,
    heading_html: Seq<char>,
    date: Option<Date>,
    cover: Option<Seq<char>>,
    blocks_html: Seq<char>,
) -> Seq<char> {
    "<article><header>"@ + heading_html + (match date {
        Some(d) => spec_article_time(d),
        None => Seq::<char>::empty(),
    }) + (match cover {
        Some(c) => "<img alt=\""@ + spec_escaped(title + " cover"@) + "\" src=\""@ + spec_escaped(c)
            + "\">"@,
        None => Seq::<char>::empty(),
    }) + "</header>"@ + blocks_html + "</article>"@
}

pub fn article(
    title: &str,
    heading_html: &str,
    date: Option<Date>,
    cover: Option<&String>,
    blocks_html: &str,
) -> (r: String)
    requires
        date is Some ==> date->0.wf(),
    ensures
        r@ == spec_article(title@, heading_html@, date, view_opt(cover), blocks_html@),
{
    let mut out = String::from_str("<article><header>");
    out.append(heading_html);
    if let Some(d) = date {
        let t = article_time(d);
        out.append(t.as_str());
    }
    if let Some(c) = cover {
        out.append("<img alt=\"");
        let mut alt = String::from_str(title);
        alt.append(" cover");
        let alt_escaped = escape(alt.as_str());
        out.append(alt_escaped.as_str());
        out.append("\" src=\"");
        let src = escape(c.as_str());
        out.append(src.as_str());
        out.append("\">");
    }
    out.append("</header>");
    out.append(blocks_html);
    out.append("</article>");
    proof {
        assert(out@ =~= spec_article(title@, heading_html@, date, view_opt(cover), blocks_html@));
    }
    out
}

/// The label above the link to the previous day's page: "Yesterday:" when
/// it is exactly one calendar day earlier, a generic label otherwise.
pub open spec fn spec_prev_label(prev: Date, current: Date) -> Seq<char> {
    if spec_next_day(prev) == Some(current) {
        "Yesterday:"@
    } else {
        "Previously:"@
    }
}

/// The label above the link to the next day's page: "Tomorrow:" when it is
/// exactly one calendar day later, a generic label otherwise.
pub open spec fn spec_next_label(next: Date, current: Date) -> Seq<char> {
    if spec_previous_day(next) == Some(current) {
        "Tomorrow:"@
    } else {
        "Next up:"@
    }
}

/// Law: an adjacent previous day is labelled "Yesterday:", one further
/// away "Previously:"; symmetrically for the next day.
pub proof fn lemma_paging_labels(prev: Date, next: Date, current: Date)
    ensures
        spec_next_day(prev) == Some(current) ==> spec_prev_label(prev, current) == "Yesterday:"@,
        spec_next_day(prev) != Some(current) ==> spec_prev_label(prev, current) == "Previously:"@,
        spec_previous_day(next) == Some(current) ==> spec_next_label(next, current)
            == "Tomorrow:"@,
        spec_previous_day(next) != Some(current) ==> spec_next_label(next, current)
            == "Next up:"@,
{
}

/// One side of the pagination block.
pub open spec fn spec_paging_link(href_date: Date, label: Seq<char>, title_html: Seq<char>) -> Seq<
    char,
> {
    "<a href=\""@ + spec_escaped(spec_format_day(href_date, true)) + "\"><article><p>"@ + label
        + "</p><header><h3>"@ + title_html + "</h3>"@ + spec_article_time(href_date)
        + "</header></article></a>"@
}

fn paging_link(href_date: Date, label: &str, title_html: &str) -> (r: String)
    requires
        href_date.wf(),
    ensures
        r@ == spec_paging_link(href_date, label@, title_html@),
{
    let mut out = String::from_str("<a href=\"");
    let href = format_day(href_date, true);
    let href_escaped = escape(href.as_str());
    out.append(href_escaped.as_str());
    out.append("\"><article><p>");
    out.append(label);
    out.append("</p><header><h3>");
    out.append(title_html);
    out.append("</h3>");
    let t = article_time(href_date);
    out.append(t.as_str());
    out.append("</header></article></a>");
    proof {
        assert(out@ =~= spec_paging_link(href_date, label@, title_html@));
    }
    out
}

/// The pagination block of a day page: links to the nearest earlier and
/// later entries, each labelled by adjacency; nothing at all when the page
/// has no neighbors.
pub open spec fn spec_paging_links(
    current: Date,
    prev: Option<Entry>,
    next: Option<Entry>,
) -> Seq<char> {
    if prev is None && next is None {
        Seq::<char>::empty()
    } else {
        "<nav class=\"paging-links\">"@ + (match prev {
            Some(e) => spec_paging_link(e.date, spec_prev_label(e.date, current), e.page.title_html@),
            None => Seq::<char>::empty(),
        }) + (match next {
            Some(e) => spec_paging_link(e.date, spec_next_label(e.date, current), e.page.title_html@),
            None => Seq::<char>::empty(),
        }) + "</nav>"@
    }
}

pub open spec fn view_opt_entry(o: Option<&Entry>) -> Option<Entry> {
    match o {
        Some(e) => Some(*e),
        None => None,
    }
}

pub fn paging_links(current: Date, prev: Option<&Entry>, next: Option<&Entry>) -> (r: String)
    requires
        current.wf(),
        prev matches Some(e) ==> e.date.wf(),
        next matches Some(e) ==> e.date.wf(),
    ensures
        r@ == spec_paging_links(current, view_opt_entry(prev), view_opt_entry(next)),
{
    if prev.is_none() && next.is_none() {
        return String::new();
    }
    let mut out = String::from_str("<nav class=\"paging-links\">");
    if let Some(e) = prev {
        let adjacent = match e.date.next_day() {
            Some(nd) => nd == current,
            None => false,
        };
        let label = if adjacent {
            "Yesterday:"
        } else {
            "Previously:"
        };
        let link = paging_link(e.date, label, e.page.title_html.as_str());
        out.append(link.as_str());
    }
    if let Some(e) = next {
        let adjacent = match e.date.previous_day() {
            Some(pd) => pd == current,
            None => false,
        };
        let label = if adjacent {
            "Tomorrow:"
        } else {
            "Next up:"
        };
        let link = paging_link(e.date, label, e.page.title_html.as_str());
        out.append(link.as_str());
    }
    out.append("</nav>");
    proof {
        assert(out@ =~= spec_paging_links(current, view_opt_entry(prev), view_opt_entry(next)));
    }
    out
}

/// A short summary fragment: linked title, date line, then the description
/// as plain escaped text.
pub open spec fn spec_summary(
    href: Seq<char>,
    title_html: Seq<char>,
    date: Date,
    description: Seq<char>,
) -> Seq<char> {
    "<article><header><h3><a href=\""@ + spec_escaped(href) + "\">"@ + title_html + "</a></h3>"@
        + spec_article_time(date) + "</header><p>"@ + spec_escaped(description) + "</p></article>"@
}

pub fn summary(href: &str, title_html: &str, date: Date, description: &str) -> (r: String)
    requires
        date.wf(),
    ensures
        r@ == spec_summary(href@, title_html@, date, description@),
{
    let mut out = String::from_str("<article><header><h3><a href=\"");
    let h = escape(href);
    out.append(h.as_str());
    out.append("\">");
    out.append(title_html);
    out.append("</a></h3>");
    let t = article_time(date);
    out.append(t.as_str());
    out.append("</header><p>");
    let d = escape(description);
    out.append(d.as_str());
    out.append("</p></article>");
    proof {
        assert(out@ =~= spec_summary(href@, title_html@, date, description@));
    }
    out
}

} // verus!
