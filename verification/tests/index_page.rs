use diary_generator::config::Config;
use diary_generator::date::{Date, DateTime, PageTime};
use diary_generator::generator::Generator;
use diary_generator::page::Page;
use diary_generator::text::escape;
use diary_generator::config::parse_configured_url;

fn entry_page(id: u128, title: &str, description: &str, y: i32, m: u8, d: u8) -> Page {
    Page {
        id,
        title: String::from(title),
        title_html: escape(title),
        description: String::from(description),
        url: String::new(),
        date: Some(PageTime::Day(Date { year: y, month: m, day: d })),
        published: Some(PageTime::Day(Date { year: 2021, month: 12, day: 24 })),
        last_edited: DateTime {
            date: Date { year: 2021, month: 12, day: 6 },
            hour: 9,
            minute: 25,
            second: 0,
        },
        cover: None,
    }
}

fn today() -> Date {
    Date { year: 2025, month: 1, day: 1 }
}

fn build(pages: Vec<Page>, config: Config) -> Generator {
    Generator::new(pages, today(), config, String::new(), String::new(), String::new()).unwrap()
}

fn empty_chrome(extra_head: &str, main: &str) -> String {
    let mut doc = String::from("<!DOCTYPE html><html lang=\"en\"><head>");
    doc.push_str("<meta charset=\"utf-8\">");
    doc.push_str("<meta name=\"viewport\" content=\"width=device-width, initial-scale=1\">");
    doc.push_str("<meta name=\"description\" content=\"A neat diary\">");
    doc.push_str("<link rel=\"stylesheet\" href=\"/katex/katex.min.css\">");
    doc.push_str("<title>Diary</title>");
    doc.push_str("<meta property=\"og:title\" content=\"Diary\">");
    doc.push_str("<meta property=\"og:description\" content=\"A neat diary\">");
    doc.push_str("<meta property=\"og:locale\" content=\"en_US\">");
    doc.push_str(extra_head);
    doc.push_str("</head><body><header></header><main>");
    doc.push_str(main);
    doc.push_str("</main><footer></footer></body></html>");
    doc
}

fn summary_markup(href: &str, title_html: &str, datetime: &str, readable: &str, desc: &str) -> String {
    format!(
        "<article><header><h3><a href=\"{}\">{}</a></h3><p><time datetime=\"{}\">{}</time></p></header><p>{}</p></article>",
        href, title_html, datetime, readable, desc
    )
}

#[test]
fn empty_index() {
    let g = build(Vec::new(), Config::default());
    let (route, doc) = g.generate_index_page();
    assert_eq!(route, "index.html");
    assert_eq!(doc, empty_chrome("", ""));
}

#[test]
fn empty_input_produces_only_the_index() {
    let g = build(Vec::new(), Config::default());
    let routes = g.output_routes();
    assert_eq!(routes, vec![String::from("index.html")]);
    let feed = g
        .generate_atom_feed(
            diary_generator::syndication::atom::Generator {
                value: String::from("diary_generator"),
                uri: String::from("https://example.com/about"),
                version: String::from("0.1.0"),
            },
            Vec::new(),
        )
        .unwrap();
    assert!(feed.is_none());
}

#[test]
fn simple_index_coalesces_into_nested_sections() {
    let g = build(
        vec![
            entry_page(
                0xcf2bacc9d75c4226aab53601c336f295,
                "Day 0: Nannou, helping L, and lots of noise",
                "Every journey starts with 1 O'clock: assistance. I just didn't know mine will also start with noise.",
                2021,
                11,
                7,
            ),
            entry_page(
                0xac3fb543001f4be5a25e4978abd05b1d,
                "Day 1: Down the rabbit hole we go",
                "Alice starts making games by watching trains with the loveliest coding conductor.",
                2021,
                11,
                8,
            ),
            entry_page(
                0xac3fb543001f4be5a25e4978abd05b1e,
                "Day 2: Enter Bevy & Shaders are hard",
                "3 O’clock: departure. We are not entering the world of Bevy where we will actually make things happen. There’s no turning back now",
                2021,
                11,
                9,
            ),
        ],
        Config::default(),
    );
    let (route, doc) = g.generate_index_page();
    assert_eq!(route, "index.html");

    // One year section, one month section, three summaries in descending
    // date order.
    let mut main = String::from("<section><h1><a href=\"2021\">2021</a></h1>");
    main.push_str("<section><h2><a href=\"2021/11\">November</a></h2>");
    main.push_str(&summary_markup(
        "/2021/11/09",
        "Day 2: Enter Bevy &amp; Shaders are hard",
        "2021-11-09",
        "November 09, 2021",
        "3 O’clock: departure. We are not entering the world of Bevy where we will actually make things happen. There’s no turning back now",
    ));
    main.push_str(&summary_markup(
        "/2021/11/08",
        "Day 1: Down the rabbit hole we go",
        "2021-11-08",
        "November 08, 2021",
        "Alice starts making games by watching trains with the loveliest coding conductor.",
    ));
    main.push_str(&summary_markup(
        "/2021/11/07",
        "Day 0: Nannou, helping L, and lots of noise",
        "2021-11-07",
        "November 07, 2021",
        "Every journey starts with 1 O'clock: assistance. I just didn't know mine will also start with noise.",
    ));
    main.push_str("</section></section>");
    assert_eq!(doc, empty_chrome("", &main));
}

#[test]
fn with_config_url() {
    let mut config = Config::default();
    config.url = parse_configured_url(Some(&String::from("https://gamediary.dev"))).unwrap();
    assert_eq!(config.url.as_deref(), Some("https://gamediary.dev/"));
    let g = build(Vec::new(), config);
    let (_, doc) = g.generate_index_page();
    assert_eq!(
        doc,
        empty_chrome(
            "<meta property=\"og:url\" content=\"https://gamediary.dev/\">",
            "",
        )
    );
}

#[test]
fn pipeline_is_deterministic() {
    let pages = || {
        vec![
            entry_page(1, "Day 0", "first", 2021, 11, 7),
            entry_page(2, "Day 1", "second", 2021, 11, 8),
        ]
    };
    let mut config = Config::default();
    config.url = parse_configured_url(Some(&String::from("https://gamediary.dev"))).unwrap();
    let g1 = build(pages(), config.clone());
    let g2 = build(pages(), config);
    assert_eq!(g1.generate_index_page(), g2.generate_index_page());
    assert_eq!(g1.output_routes(), g2.output_routes());
    let generator_info = || diary_generator::syndication::atom::Generator {
        value: String::from("diary_generator"),
        uri: String::from("https://example.com/about"),
        version: String::from("0.1.0"),
    };
    let contents = || vec![String::new(), String::new()];
    assert_eq!(
        g1.generate_atom_feed(generator_info(), contents()).unwrap(),
        g2.generate_atom_feed(generator_info(), contents()).unwrap(),
    );
    let rendered = || {
        vec![
            diary_generator::archive::RenderedArticle {
                heading_html: String::from("<h1>Day 0</h1>"),
                blocks_html: String::from("<p>body</p>"),
            },
            diary_generator::archive::RenderedArticle {
                heading_html: String::from("<h1>Day 1</h1>"),
                blocks_html: String::from("<p>body</p>"),
            },
        ]
    };
    assert_eq!(
        g1.year_doc(2021, 0, 2, &rendered()).unwrap(),
        g2.year_doc(2021, 0, 2, &rendered()).unwrap(),
    );
}

#[test]
fn output_routes_cover_exactly_the_non_empty_views() {
    let mut config = Config::default();
    config.url = parse_configured_url(Some(&String::from("https://gamediary.dev"))).unwrap();
    let mut article = entry_page(9, "Some article", "desc", 2021, 1, 1);
    article.date = None;
    article.url = String::from("interesting_article");
    let g = build(
        vec![
            entry_page(1, "a", "x", 2021, 11, 7),
            entry_page(2, "b", "y", 2021, 11, 9),
            entry_page(3, "c", "z", 2022, 1, 2),
            article,
        ],
        config,
    );
    let routes = g.output_routes();
    assert_eq!(
        routes,
        vec![
            String::from("2021.html"),
            String::from("2022.html"),
            String::from("2021/11.html"),
            String::from("2022/01.html"),
            String::from("2021/11/07.html"),
            String::from("2021/11/09.html"),
            String::from("2022/01/02.html"),
            String::from("interesting_article.html"),
            String::from("index.html"),
            String::from("feed.xml"),
        ]
    );
}
