use diary_generator::archive::{capitalize_first, RenderedArticle};
use diary_generator::config::Config;
use diary_generator::date::{Date, DateTime, PageTime};
use diary_generator::generator::Generator;
use diary_generator::markup::paging_links;
use diary_generator::page::Page;
use diary_generator::syndication::atom::{Link, LinkType, Person};

fn entry(id: u128, title: &str, y: i32, m: u8, d: u8) -> Page {
    Page {
        id,
        title: String::from(title),
        title_html: String::from(title),
        description: String::from("summary"),
        url: String::new(),
        date: Some(PageTime::Day(Date { year: y, month: m, day: d })),
        published: Some(PageTime::Day(Date { year: 2021, month: 12, day: 24 })),
        last_edited: DateTime {
            date: Date { year: 2021, month: 12, day: 6 },
            hour: 9,
            minute: 25,
            second: 0,
        },
        cover: None,
    }
}

fn today() -> Date {
    Date { year: 2025, month: 1, day: 1 }
}

fn build(pages: Vec<Page>) -> Generator {
    Generator::new(pages, today(), Config::default(), String::new(), String::new(), String::new())
        .unwrap()
}

#[test]
fn links_render() {
    assert_eq!(
        Link { href: String::from("https://gamediary.dev/feed.xml"), ty: LinkType::Self_ }
            .render(),
        "<link rel=\"self\" href=\"https://gamediary.dev/feed.xml\" />"
    );
    assert_eq!(
        Link { href: String::from("https://gamediary.dev"), ty: LinkType::Alternate }.render(),
        "<link rel=\"alternate\" href=\"https://gamediary.dev\" />"
    );
}

#[test]
fn persons_render() {
    let p = Person {
        name: String::from("Mathspy"),
        email: None,
        url: Some(String::from("https://mathspy.me/")),
    };
    assert_eq!(
        p.render(),
        "<author><name>Mathspy</name><uri>https://mathspy.me/</uri></author>"
    );
    let bare = Person { name: String::from("A & B"), email: None, url: None };
    assert_eq!(bare.render(), "<author><name>A &amp; B</name></author>");
}

#[test]
fn adjacent_previous_day_is_labelled_yesterday() {
    let g = build(vec![
        entry(1, "Day 0", 2021, 11, 7),
        entry(2, "Day 1", 2021, 11, 8),
    ]);
    // The 08 page's "previous" link is the adjacent 07 entry.
    let prev = g.lookup_tree.entry(0);
    let nav = paging_links(Date { year: 2021, month: 11, day: 8 }, Some(prev), None);
    assert!(nav.contains("Yesterday:"));
    assert!(nav.contains("<a href=\"/2021/11/07\">"));
    assert!(nav.starts_with("<nav class=\"paging-links\">"));
}

#[test]
fn gapped_previous_day_is_labelled_previously() {
    let g = build(vec![
        entry(1, "Day 0", 2021, 11, 7),
        entry(2, "Day 2", 2021, 11, 9),
    ]);
    let prev = g.lookup_tree.entry(0);
    let nav = paging_links(Date { year: 2021, month: 11, day: 9 }, Some(prev), None);
    assert!(nav.contains("Previously:"));
    assert!(!nav.contains("Yesterday:"));
}

#[test]
fn next_day_labels_are_symmetric() {
    let g = build(vec![
        entry(1, "Day 0", 2021, 11, 7),
        entry(2, "Day 1", 2021, 11, 8),
        entry(3, "Day 9", 2021, 11, 19),
    ]);
    let next = g.lookup_tree.entry(1);
    let nav = paging_links(Date { year: 2021, month: 11, day: 7 }, None, Some(next));
    assert!(nav.contains("Tomorrow:"));
    let far = g.lookup_tree.entry(2);
    let nav = paging_links(Date { year: 2021, month: 11, day: 8 }, None, Some(far));
    assert!(nav.contains("Next up:"));
}

#[test]
fn no_neighbors_no_pagination_block() {
    let nav = paging_links(Date { year: 2021, month: 11, day: 7 }, None, None);
    assert_eq!(nav, "");
}

#[test]
fn day_pages_carry_body_and_pagination() {
    let g = build(vec![
        entry(1, "Day 0", 2021, 11, 7),
        entry(2, "Day 1", 2021, 11, 8),
    ]);
    let rendered = RenderedArticle {
        heading_html: String::from("<h1>Day 1</h1>"),
        blocks_html: String::from("<p>the body</p>"),
    };
    let (route, doc) = g.day_doc(1, &rendered).unwrap();
    assert_eq!(route, "2021/11/08.html");
    assert!(doc.contains("<title>Day 1 - Diary</title>"));
    assert!(doc.contains("<meta name=\"description\" content=\"summary\">"));
    assert!(doc.contains("<article><header><h1>Day 1</h1>"));
    assert!(doc.contains("<p>the body</p>"));
    assert!(doc.contains("Yesterday:"));
    assert!(!doc.contains("Tomorrow:"));
}

#[test]
fn year_and_month_docs_list_their_entries_ascending() {
    let g = build(vec![
        entry(1, "Day 0", 2021, 11, 7),
        entry(2, "Day 1", 2021, 11, 8),
    ]);
    let rendered = vec![
        RenderedArticle {
            heading_html: String::from("<h1>Day 0</h1>"),
            blocks_html: String::from("<p>zero</p>"),
        },
        RenderedArticle {
            heading_html: String::from("<h1>Day 1</h1>"),
            blocks_html: String::from("<p>one</p>"),
        },
    ];
    let (lo, hi) = g.lookup_tree.year_range(2021);
    assert_eq!((lo, hi), (0, 2));
    let (route, doc) = g.year_doc(2021, lo, hi, &rendered).unwrap();
    assert_eq!(route, "2021.html");
    assert!(doc.contains("<title>2021 - Diary</title>"));
    let zero = doc.find("<p>zero</p>").unwrap();
    let one = doc.find("<p>one</p>").unwrap();
    assert!(zero < one);

    let (mlo, mhi) = g.lookup_tree.month_range(2021, 11);
    let (mroute, mdoc) = g.month_doc(2021, 11, mlo, mhi, &rendered).unwrap();
    assert_eq!(mroute, "2021/11.html");
    assert!(mdoc.contains("<title>November 2021 - Diary</title>"));
}

#[test]
fn article_pages_and_listing() {
    let mut first = entry(8, "Another piece", 2021, 1, 1);
    first.date = None;
    first.url = String::from("hidden");
    let mut second = entry(7, "Some article about something", 2021, 1, 1);
    second.date = None;
    second.url = String::from("interesting_article");
    second.description = String::from("some really interesting descritpion");
    let g = build(vec![first, second]);
    let rendered = RenderedArticle {
        heading_html: String::from("<h1>Some article about something</h1>"),
        blocks_html: String::from("<p>contents</p>"),
    };
    let (route, doc) = g.article_doc(1, &rendered).unwrap();
    assert_eq!(route, "interesting_article.html");
    assert!(doc.contains("<title>Some article about something - Diary</title>"));
    assert!(doc.contains("<p>contents</p>"));
    // The shown date is the publish date, since slug pages have no entry
    // date.
    assert!(doc.contains("<time datetime=\"2021-12-24\">December 24, 2021</time>"));

    let (lroute, ldoc) = g.generate_articles_page().unwrap();
    assert_eq!(lroute, "articles.html");
    assert!(ldoc.contains("<title>Articles - Diary</title>"));
    assert!(ldoc.contains("<a href=\"hidden\">"));
    assert!(ldoc.contains("<a href=\"interesting_article\">"));
}

#[test]
fn independent_pages_capitalize_their_titles() {
    let g = build(Vec::new());
    let (route, doc) = g.independent_page_doc("about", "<p>Hello</p>").unwrap();
    assert_eq!(route, "about.html");
    assert!(doc.contains("<title>About - Diary</title>"));
    assert!(doc.contains("</header><p>Hello</p><footer>"));
    assert!(!doc.contains("katex.min.css"));
    assert_eq!(capitalize_first("about"), "About");
    assert_eq!(capitalize_first("About"), "About");
    assert_eq!(capitalize_first(""), "");
    assert_eq!(capitalize_first("1page"), "1page");
}
