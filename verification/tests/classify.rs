use diary_generator::config::{Config, LocaleConfig};
use diary_generator::date::{Date, DateTime, PageTime};
use diary_generator::page::{classify, ClassifyError, Identifier, Page};
use diary_generator::text::{
    decimal, escape, format_day, format_month, format_year, month_name, pad2, pad4,
    parse_day_path, rfc3339,
};

fn base_page(id: u128) -> Page {
    Page {
        id,
        title: String::from("A page"),
        title_html: String::from("A page"),
        description: String::from("about something"),
        url: String::new(),
        date: None,
        published: Some(PageTime::Day(Date { year: 2021, month: 12, day: 24 })),
        last_edited: DateTime {
            date: Date { year: 2021, month: 12, day: 6 },
            hour: 9,
            minute: 25,
            second: 0,
        },
        cover: None,
    }
}

#[test]
fn classify_missing_identifier() {
    let page = base_page(1);
    let r = classify(&page);
    assert_eq!(r, Err(ClassifyError::MissingIdentifier { id: 1 }));
    assert_eq!(
        ClassifyError::MissingIdentifier { id: 1 }.message(),
        "Diary pages must have either a date or a URL"
    );
}

#[test]
fn classify_ambiguous_identifier() {
    let mut page = base_page(2);
    page.date = Some(PageTime::Day(Date { year: 2021, month: 11, day: 7 }));
    page.url = String::from("some-slug");
    let r = classify(&page);
    assert_eq!(r, Err(ClassifyError::AmbiguousIdentifier { id: 2 }));
    assert_eq!(
        ClassifyError::AmbiguousIdentifier { id: 2 }.message(),
        "Diary currently doesn't support rendering a page with both a date and a URL"
    );
}

#[test]
fn classify_date_with_time() {
    let mut page = base_page(3);
    page.date = Some(PageTime::Moment(DateTime {
        date: Date { year: 2021, month: 11, day: 7 },
        hour: 18,
        minute: 3,
        second: 0,
    }));
    let r = classify(&page);
    assert_eq!(r, Err(ClassifyError::DateWithTime { id: 3 }));
    assert_eq!(
        ClassifyError::DateWithTime { id: 3 }.message(),
        "Diary dates must not contain time"
    );

    // A midnight time component is still a time component.
    page.date = Some(PageTime::Moment(DateTime {
        date: Date { year: 2021, month: 11, day: 7 },
        hour: 0,
        minute: 0,
        second: 0,
    }));
    assert_eq!(classify(&page), Err(ClassifyError::DateWithTime { id: 3 }));
}

#[test]
fn classify_date_page() {
    let mut page = base_page(4);
    page.date = Some(PageTime::Day(Date { year: 2021, month: 11, day: 7 }));
    match classify(&page) {
        Ok((path, Identifier::Date(d))) => {
            assert_eq!(path, "/2021/11/07");
            assert_eq!(d, Date { year: 2021, month: 11, day: 7 });
        }
        other => panic!("unexpected classification: {:?}", other.map(|p| p.0)),
    }
}

#[test]
fn classify_slug_page() {
    let mut page = base_page(5);
    page.url = String::from("interesting_article");
    match classify(&page) {
        Ok((path, Identifier::Slug(slug))) => {
            assert_eq!(path, "/interesting_article");
            assert_eq!(slug, "interesting_article");
        }
        other => panic!("unexpected classification: {:?}", other.map(|p| p.0)),
    }
}

#[test]
fn canonical_paths_are_fixed_width() {
    assert_eq!(format_year(2021), "2021");
    assert_eq!(format_year(45), "0045");
    assert_eq!(format_year(0), "0000");
    assert_eq!(format_month(2021, 11), "2021/11");
    assert_eq!(format_month(987, 3), "0987/03");
    assert_eq!(
        format_day(Date { year: 2021, month: 11, day: 7 }, true),
        "/2021/11/07"
    );
    assert_eq!(
        format_day(Date { year: 2021, month: 11, day: 7 }, false),
        "2021/11/07"
    );
    assert_eq!(pad2(5), "05");
    assert_eq!(pad4(12), "0012");
    assert_eq!(decimal(0), "0");
    assert_eq!(decimal(45), "45");
    assert_eq!(decimal(2021), "2021");
}

#[test]
fn day_path_round_trip() {
    let dates = [
        Date { year: 2021, month: 11, day: 7 },
        Date { year: 0, month: 1, day: 1 },
        Date { year: 9999, month: 12, day: 31 },
        Date { year: 2024, month: 2, day: 29 },
    ];
    for d in dates {
        let path = format_day(d, true);
        assert_eq!(parse_day_path(&path), Some(d));
    }
    assert_eq!(parse_day_path("/2021/13/07"), None);
    assert_eq!(parse_day_path("/2021/02/30"), None);
    assert_eq!(parse_day_path("/2023/02/29"), None);
    assert_eq!(parse_day_path("2021/11/07"), None);
    assert_eq!(parse_day_path("/2021-11-07"), None);
    assert_eq!(parse_day_path(""), None);
}

#[test]
fn month_names() {
    assert_eq!(month_name(1), "January");
    assert_eq!(month_name(11), "November");
    assert_eq!(month_name(12), "December");
}

#[test]
fn rfc3339_is_utc_and_padded() {
    let dt = DateTime {
        date: Date { year: 2021, month: 12, day: 6 },
        hour: 9,
        minute: 25,
        second: 0,
    };
    assert_eq!(rfc3339(&dt), "2021-12-06T09:25:00Z");
}

#[test]
fn escaping_covers_markup_characters() {
    assert_eq!(escape("a & b <c> \"d\""), "a &amp; b &lt;c&gt; &quot;d&quot;");
    assert_eq!(escape("plain"), "plain");
    assert_eq!(escape(""), "");
    assert_eq!(escape("O’clock"), "O’clock");
}

#[test]
fn locale_splits_on_first_underscore() {
    let lc = LocaleConfig::parse("en_US").unwrap();
    assert_eq!(lc.locale, "en_US");
    assert_eq!(lc.lang, "en");
    let lc = LocaleConfig::parse("pt_BR_x").unwrap();
    assert_eq!(lc.lang, "pt");
    assert!(LocaleConfig::parse("en").is_none());
    assert!(LocaleConfig::parse("").is_none());
    let lc = LocaleConfig::parse("_US").unwrap();
    assert_eq!(lc.lang, "");
}

#[test]
fn config_defaults() {
    let c = Config::default();
    assert_eq!(c.name, "Diary");
    assert_eq!(c.description, "A neat diary");
    assert!(c.author.is_none());
    assert!(c.cover.is_none());
    assert!(c.icon.is_none());
    assert_eq!(c.locale.locale, "en_US");
    assert_eq!(c.locale.lang, "en");
    assert!(c.url.is_none());
    assert!(c.twitter.site.is_none());
    assert!(c.twitter.creator.is_none());
}

#[test]
fn next_and_previous_days() {
    let d = Date { year: 2021, month: 11, day: 7 };
    assert_eq!(d.next_day(), Some(Date { year: 2021, month: 11, day: 8 }));
    assert_eq!(d.previous_day(), Some(Date { year: 2021, month: 11, day: 6 }));
    let eoy = Date { year: 2021, month: 12, day: 31 };
    assert_eq!(eoy.next_day(), Some(Date { year: 2022, month: 1, day: 1 }));
    let leap = Date { year: 2024, month: 2, day: 28 };
    assert_eq!(leap.next_day(), Some(Date { year: 2024, month: 2, day: 29 }));
    let not_leap = Date { year: 2023, month: 2, day: 28 };
    assert_eq!(not_leap.next_day(), Some(Date { year: 2023, month: 3, day: 1 }));
    let top = Date { year: 9999, month: 12, day: 31 };
    assert_eq!(top.next_day(), None);
    let bottom = Date { year: 0, month: 1, day: 1 };
    assert_eq!(bottom.previous_day(), None);
}
