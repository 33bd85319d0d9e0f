use diary_generator::config::Config;
use diary_generator::date::{Date, DateTime, PageTime};
use diary_generator::generator::Generator;
use diary_generator::page::Page;

fn entry_page(id: u128, title: &str, y: i32, m: u8, d: u8) -> Page {
    Page {
        id,
        title: String::from(title),
        title_html: String::from(title),
        description: String::from("desc"),
        url: String::new(),
        date: Some(PageTime::Day(Date { year: y, month: m, day: d })),
        published: Some(PageTime::Day(Date { year: 2021, month: 12, day: 24 })),
        last_edited: DateTime {
            date: Date { year: 2021, month: 12, day: 6 },
            hour: 9,
            minute: 25,
            second: 0,
        },
        cover: None,
    }
}

fn today() -> Date {
    Date { year: 2025, month: 1, day: 1 }
}

fn build(pages: Vec<Page>) -> Generator {
    Generator::new(
        pages,
        today(),
        Config::default(),
        String::new(),
        String::new(),
        String::new(),
    )
    .unwrap()
}

#[test]
fn index_is_sorted_whatever_the_input_order() {
    let g = build(vec![
        entry_page(2, "b", 2021, 11, 9),
        entry_page(1, "a", 2021, 11, 7),
        entry_page(3, "c", 2022, 1, 2),
    ]);
    assert_eq!(g.lookup_tree.len(), 3);
    assert_eq!(g.lookup_tree.entry(0).date, Date { year: 2021, month: 11, day: 7 });
    assert_eq!(g.lookup_tree.entry(1).date, Date { year: 2021, month: 11, day: 9 });
    assert_eq!(g.lookup_tree.entry(2).date, Date { year: 2022, month: 1, day: 2 });
    assert_eq!(
        g.get_first_and_last_dates(),
        Some((
            Date { year: 2021, month: 11, day: 7 },
            Date { year: 2022, month: 1, day: 2 },
        ))
    );
}

#[test]
fn colliding_dates_later_page_wins_but_both_keep_links() {
    let g = build(vec![
        entry_page(10, "first", 2021, 11, 7),
        entry_page(11, "second", 2021, 11, 7),
    ]);
    assert_eq!(g.lookup_tree.len(), 1);
    assert_eq!(g.lookup_tree.entry(0).page.id, 11);
    assert_eq!(g.link_map.get(10).map(String::as_str), Some("/2021/11/07"));
    assert_eq!(g.link_map.get(11).map(String::as_str), Some("/2021/11/07"));
    assert_eq!(g.link_map.get(12), None);
}

#[test]
fn unpublished_and_future_pages_are_held_back() {
    let mut unpublished = entry_page(20, "unpublished", 2021, 11, 7);
    unpublished.published = None;
    let mut future = entry_page(21, "future", 2021, 11, 8);
    future.published = Some(PageTime::Day(Date { year: 2031, month: 1, day: 1 }));
    let g = build(vec![unpublished, future, entry_page(22, "now", 2021, 11, 9)]);
    assert_eq!(g.lookup_tree.len(), 1);
    assert_eq!(g.lookup_tree.entry(0).page.id, 22);
    assert_eq!(g.link_map.get(20), None);
    assert_eq!(g.link_map.get(21), None);
}

#[test]
fn unpublished_pages_dont_cause_crashes() {
    // A page with no date, no slug and no publish value is held back
    // before classification can reject it.
    let mut page = entry_page(30, "unpublished page with no date", 2021, 1, 1);
    page.date = None;
    page.published = None;
    page.description = String::from("just a page without a publish date yet");
    let g = build(vec![page]);
    assert_eq!(g.lookup_tree.len(), 0);
    assert_eq!(g.article_pages.len(), 0);
}

#[test]
fn year_and_month_ranges_are_exhaustive_and_disjoint() {
    let g = build(vec![
        entry_page(1, "a", 2021, 11, 7),
        entry_page(2, "b", 2021, 11, 9),
        entry_page(3, "c", 2021, 12, 31),
        entry_page(4, "d", 2022, 1, 1),
    ]);
    let tree = &g.lookup_tree;
    assert_eq!(tree.year_range(2021), (0, 3));
    assert_eq!(tree.year_range(2022), (3, 4));
    assert_eq!(tree.year_range(2020), (0, 0));
    assert_eq!(tree.year_range(2023), (4, 4));

    // The union of the twelve month ranges of 2021 is exactly the year's
    // range, and the non-empty months are disjoint.
    let mut total = 0;
    let mut previous_hi = 0;
    for m in 1..=12u8 {
        let (lo, hi) = tree.month_range(2021, m);
        assert!(lo >= previous_hi);
        if lo < hi {
            previous_hi = hi;
        }
        total += hi - lo;
    }
    let (ylo, yhi) = tree.year_range(2021);
    assert_eq!(total, yhi - ylo);

    assert_eq!(tree.month_range(2021, 11), (0, 2));
    assert_eq!(tree.month_range(2021, 12), (2, 3));
    assert_eq!(tree.month_range(2021, 10), (0, 0));
    // December rolls into January of the following year.
    assert_eq!(tree.month_range(2022, 1), (3, 4));
}

#[test]
fn neighbor_queries_find_the_nearest_entries() {
    let g = build(vec![
        entry_page(1, "a", 2021, 11, 7),
        entry_page(2, "b", 2021, 11, 9),
        entry_page(3, "c", 2021, 12, 5),
    ]);
    let tree = &g.lookup_tree;
    assert_eq!(tree.neighbor_before(Date { year: 2021, month: 11, day: 9 }), Some(0));
    assert_eq!(tree.neighbor_after(Date { year: 2021, month: 11, day: 9 }), Some(2));
    assert_eq!(tree.neighbor_before(Date { year: 2021, month: 11, day: 7 }), None);
    assert_eq!(tree.neighbor_after(Date { year: 2021, month: 12, day: 5 }), None);
    assert_eq!(tree.neighbor_before(Date { year: 2021, month: 11, day: 8 }), Some(0));
    assert_eq!(tree.neighbor_after(Date { year: 2021, month: 11, day: 8 }), Some(1));
}

#[test]
fn classification_errors_abort_the_whole_build() {
    let mut bad = entry_page(40, "bad", 2021, 11, 8);
    bad.url = String::from("also-a-slug");
    let r = Generator::new(
        vec![entry_page(41, "good", 2021, 11, 7), bad],
        today(),
        Config::default(),
        String::new(),
        String::new(),
        String::new(),
    );
    assert_eq!(
        r.err(),
        Some(diary_generator::page::ClassifyError::AmbiguousIdentifier { id: 40 })
    );
}
