use diary_generator::config::Config;
use diary_generator::date::{Date, DateTime, PageTime};
use diary_generator::generator::Generator;
use diary_generator::index::TemporalIndex;
use diary_generator::links::LinkTable;
use diary_generator::page::Page;
use diary_generator::syndication::atom;
use diary_generator::config::parse_configured_url;

fn page(id: u128, title: &str, summary: &str) -> Page {
    Page {
        id,
        title: String::from(title),
        title_html: String::from(title),
        description: String::from(summary),
        url: String::new(),
        date: None,
        published: None,
        last_edited: DateTime {
            date: Date { year: 2021, month: 12, day: 6 },
            hour: 9,
            minute: 25,
            second: 0,
        },
        cover: None,
    }
}

fn entry(id: u128, title: &str, y: i32, m: u8, d: u8, pub_m: u8, pub_d: u8) -> Page {
    let mut p = page(id, title, "summary");
    p.date = Some(PageTime::Day(Date { year: y, month: m, day: d }));
    p.published = Some(PageTime::Day(Date { year: 2021, month: pub_m, day: pub_d }));
    p
}

fn generator_info() -> atom::Generator {
    atom::Generator {
        value: String::from("diary_generator"),
        uri: String::from("https://example.com/about"),
        version: String::from("0.1.0"),
    }
}

fn today() -> Date {
    Date { year: 2025, month: 1, day: 1 }
}

#[test]
fn can_create_feed_from_articles_and_entries() {
    let mut article = entry(4, "Some article about something", 2021, 1, 1, 12, 8);
    article.date = None;
    article.url = String::from("interesting_article");
    let mut latest_edit = entry(1, "Day 0", 2021, 11, 7, 12, 5);
    latest_edit.last_edited = DateTime {
        date: Date { year: 2021, month: 12, day: 10 },
        hour: 0,
        minute: 0,
        second: 0,
    };
    let mut config = Config::default();
    config.url = parse_configured_url(Some(&String::from("https://example.com"))).unwrap();
    let g = Generator::new(
        vec![
            latest_edit,
            entry(2, "Day 1", 2021, 11, 8, 12, 7),
            entry(3, "Day 2", 2021, 11, 9, 12, 9),
            article,
        ],
        today(),
        config,
        String::new(),
        String::new(),
        String::new(),
    )
    .unwrap();

    let items = g.feed_items();
    assert_eq!(items.len(), 4);
    // Ascending by publish instant, regardless of origin.
    assert_eq!(items[0].url, "/2021/11/07");
    assert_eq!(items[1].url, "/2021/11/08");
    assert_eq!(items[2].url, "interesting_article");
    assert_eq!(items[3].url, "/2021/11/09");

    let contents = vec![String::new(), String::new(), String::new(), String::new()];
    let (route, doc) = g
        .generate_atom_feed(generator_info(), contents)
        .unwrap()
        .unwrap();
    assert_eq!(route, "feed.xml");
    assert!(doc.starts_with(
        "<?xml version=\"1.0\" encoding=\"utf-8\" ?><feed xmlns=\"http://www.w3.org/2005/Atom\" xml:lang=\"en_US\">"
    ));
    assert!(doc.contains("<id>https://example.com/</id>"));
    assert!(doc.contains("<title>Diary</title>"));
    // The feed's own updated value is the latest last-edited instant,
    // not the latest publish instant.
    assert!(doc.contains("<updated>2021-12-10T00:00:00Z</updated>"));
    assert!(doc.contains("<link rel=\"self\" href=\"https://example.com/feed.xml\" />"));
    assert!(doc.contains("<link rel=\"alternate\" href=\"https://example.com/\" />"));
    let p1 = doc.find("<published>2021-12-05T00:00:00Z</published>").unwrap();
    let p2 = doc.find("<published>2021-12-07T00:00:00Z</published>").unwrap();
    let p3 = doc.find("<published>2021-12-08T00:00:00Z</published>").unwrap();
    let p4 = doc.find("<published>2021-12-09T00:00:00Z</published>").unwrap();
    assert!(p1 < p2 && p2 < p3 && p3 < p4);
    assert!(doc.contains("<id>interesting_article</id>"));
    assert!(doc.ends_with("</feed>"));
}

#[test]
fn plentiful_configurations() {
    let mut config = Config::default();
    config.name = String::from("Game Dev Diary");
    config.description = String::from("A really cool diary");
    config.author = Some(diary_generator::config::AuthorConfig {
        name: String::from("Mathspy"),
        url: parse_configured_url(Some(&String::from("https://mathspy.me"))).unwrap(),
    });
    config.cover = Some(String::from("/media/cover.png"));
    config.icon = Some(String::from("/favicon.ico"));
    config.url = parse_configured_url(Some(&String::from("https://gamediary.dev"))).unwrap();
    let mut article = page(4, "Some article about something", "some really interesting descritpion");
    article.url = String::from("interesting_article");
    article.published = Some(PageTime::Day(Date { year: 2021, month: 12, day: 8 }));
    let g = Generator::new(
        vec![article],
        today(),
        config,
        String::new(),
        String::new(),
        String::new(),
    )
    .unwrap();
    let (route, doc) = g
        .generate_atom_feed(generator_info(), vec![String::new()])
        .unwrap()
        .unwrap();
    assert_eq!(route, "feed.xml");
    assert!(doc.contains("<id>https://gamediary.dev/</id>"));
    assert!(doc.contains("<title>Game Dev Diary</title>"));
    assert!(doc.contains("<author><name>Mathspy</name><uri>https://mathspy.me/</uri></author>"));
    assert!(doc.contains(
        "<generator uri=\"https://example.com/about\" version=\"0.1.0\">diary_generator</generator>"
    ));
    assert!(doc.contains("<icon>/favicon.ico</icon>"));
    assert!(doc.contains("<logo>/media/cover.png</logo>"));
    assert!(doc.contains("<entry><id>interesting_article</id>"));
    assert!(doc.contains("<title type=\"html\">Some article about something</title>"));
    assert!(doc.contains("<updated>2021-12-06T09:25:00Z</updated>"));
    assert!(doc.contains("<published>2021-12-08T00:00:00Z</published>"));
    assert!(doc.contains("<summary>some really interesting descritpion</summary>"));
    assert!(doc.contains("<content type=\"html\"></content></entry>"));
}

#[test]
fn feed_content_markup_is_escaped() {
    let mut config = Config::default();
    config.url = parse_configured_url(Some(&String::from("https://example.com"))).unwrap();
    let g = Generator::new(
        vec![entry(1, "Day 0", 2021, 11, 7, 12, 5)],
        today(),
        config,
        String::new(),
        String::new(),
        String::new(),
    )
    .unwrap();
    let (_, doc) = g
        .generate_atom_feed(generator_info(), vec![String::from("<div id=\"x\">a & b</div>")])
        .unwrap()
        .unwrap();
    assert!(doc.contains(
        "<content type=\"html\">&lt;div id=&quot;x&quot;&gt;a &amp; b&lt;/div&gt;</content>"
    ));
}

#[test]
fn feed_without_base_url_is_a_no_op() {
    let g = Generator::new(
        vec![entry(1, "Day 0", 2021, 11, 7, 12, 5)],
        today(),
        Config::default(),
        String::new(),
        String::new(),
        String::new(),
    )
    .unwrap();
    let r = g.generate_atom_feed(generator_info(), vec![String::new()]).unwrap();
    assert!(r.is_none());
}

#[test]
fn feed_url_join_failure_is_an_error() {
    // A base URL that cannot carry joined paths.
    let mut config = Config::default();
    config.url = parse_configured_url(Some(&String::from("data:text/plain,hello"))).unwrap();
    assert!(config.url.is_some());
    let g = Generator::new(
        vec![entry(1, "Day 0", 2021, 11, 7, 12, 5)],
        today(),
        config,
        String::new(),
        String::new(),
        String::new(),
    )
    .unwrap();
    let r = g.generate_atom_feed(generator_info(), vec![String::new()]);
    assert_eq!(r, Err(atom::FeedError::FeedUrl));
    assert_eq!(
        atom::FeedError::FeedUrl.message(),
        "Failed to join feed URL onto the site base URL"
    );
}

#[test]
fn feed_omits_pages_without_a_publish_value() {
    // Build the run state directly: one entry with a publish value, one
    // without. The second appears in the index but never in the feed.
    let with = entry(1, "Published day", 2021, 11, 7, 12, 5);
    let mut without = entry(2, "Unpublished day", 2021, 11, 8, 12, 5);
    without.published = None;
    let mut tree = TemporalIndex::new();
    tree.insert(Date { year: 2021, month: 11, day: 7 }, with);
    tree.insert(Date { year: 2021, month: 11, day: 8 }, without);
    let g = Generator {
        link_map: LinkTable::new(),
        lookup_tree: tree,
        article_pages: Vec::new(),
        config: Config::default(),
        head: String::new(),
        header: String::new(),
        footer: String::new(),
    };
    let items = g.feed_items();
    assert_eq!(items.len(), 1);
    assert_eq!(items[0].url, "/2021/11/07");
    let (_, index_doc) = g.generate_index_page();
    assert!(index_doc.contains("Unpublished day"));
    assert!(index_doc.contains("Published day"));
}

#[test]
fn configured_urls_are_normalized() {
    assert_eq!(
        parse_configured_url(Some(&String::from("https://gamediary.dev")))
            .unwrap()
            .as_deref(),
        Some("https://gamediary.dev/")
    );
    assert_eq!(
        parse_configured_url(Some(&String::from("not a url"))),
        Err(diary_generator::config::ConfigError::InvalidUrl)
    );
    assert_eq!(
        diary_generator::config::ConfigError::InvalidUrl.message(),
        "The configured site URL is not a valid absolute URL"
    );
    assert_eq!(parse_configured_url(None), Ok(None));
}

#[test]
fn view_addresses_join_route_onto_base_url() {
    let mut config = Config::default();
    config.url = parse_configured_url(Some(&String::from("https://example.com"))).unwrap();
    let g = Generator::new(
        vec![entry(1, "Day 0", 2021, 11, 7, 12, 5)],
        today(),
        config,
        String::new(),
        String::new(),
        String::new(),
    )
    .unwrap();
    let rendered = vec![diary_generator::archive::RenderedArticle {
        heading_html: String::from("<h1>Day 0</h1>"),
        blocks_html: String::new(),
    }];
    let (_, doc) = g.year_doc(2021, 0, 1, &rendered).unwrap();
    assert!(doc.contains("<meta property=\"og:url\" content=\"https://example.com/2021\">"));
}

#[test]
fn building_against_the_clock_accepts_empty_input() {
    let g = Generator::new_today(
        Vec::new(),
        Config::default(),
        String::new(),
        String::new(),
        String::new(),
    )
    .unwrap();
    assert_eq!(g.lookup_tree.len(), 0);
    assert_eq!(g.article_pages.len(), 0);
}

#[test]
fn first_failure_reports_the_first_error() {
    let mut all_ok: Vec<Result<(), String>> = vec![Ok(()), Ok(())];
    assert_eq!(diary_generator::pipeline::first_failure(&mut all_ok), Ok(()));
    let mut mixed: Vec<Result<(), String>> = vec![
        Ok(()),
        Err(String::from("first failure")),
        Err(String::from("second failure")),
    ];
    assert_eq!(
        diary_generator::pipeline::first_failure(&mut mixed),
        Err(String::from("first failure"))
    );
}
