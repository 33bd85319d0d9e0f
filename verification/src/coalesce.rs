//! The index coalescer: a two-level adjacent-run merge over the temporal
//! index walked most recent first, and the rendering of the resulting
//! nested year / month / entry document.
//!
//! The grouping contract pins the result: concatenating the groups gives
//! back exactly the input sequence (so order is never disturbed), every
//! group is a non-empty run under one key, and adjacent groups carry
//! different keys - together that says each group is a maximal run.

use vstd::prelude::*;
use vstd::string::StringExecFns;
use crate::date::Date;
use crate::text::{
    decimal, escape, format_day, format_month, format_year, month_name, spec_decimal,
    spec_escaped, spec_format_day, spec_format_month, spec_format_year, spec_month_name,
};
use crate::markup::{spec_summary, summary};

verus! {

/// What one index entry contributes to the nested index: its date, its
/// externally rendered title markup, and its plain description.
pub struct IndexItem {
    pub date: Date,
    pub title_html: String,
    pub description: String,
}

/// A run of index items from one month of one year.
pub struct MonthGroup {
    pub year: i32,
    pub month: u8,
    pub items: Vec<IndexItem>,
}

/// A run of month groups from one year.
pub struct YearGroup {
    pub year: i32,
    pub months: Vec<MonthGroup>,
}

/// The items of a sequence of month groups, in order.
pub open spec fn flatten_months(gs: Seq<MonthGroup>) -> Seq<IndexItem>
    decreases gs.len(),
{
    if gs.len() == 0 {
        Seq::empty()
    } else {
        gs[0].items@ + flatten_months(gs.drop_first())
    }
}

/// The month groups of a sequence of year groups, in order.
pub open spec fn flatten_years(gs: Seq<YearGroup>) -> Seq<MonthGroup>
    decreases gs.len(),
{
    if gs.len() == 0 {
        Seq::empty()
    } else {
        gs[0].months@ + flatten_years(gs.drop_first())
    }
}

/// Every month group is a non-empty run under its own (year, month) key,
/// and adjacent groups carry different keys.
pub open spec fn month_groups_wf(gs: Seq<MonthGroup>) -> bool {
    &&& forall|i: int|
        0 <= i < gs.len() ==> (#[trigger] gs[i]).items@.len() > 0 && (forall|j: int|
            0 <= j < gs[i].items@.len() ==> (#[trigger] gs[i].items@[j]).date.year == gs[i].year
                && gs[i].items@[j].date.month == gs[i].month)
    &&& forall|i: int|
        0 <= i < gs.len() - 1 ==> !((#[trigger] gs[i]).year == gs[i + 1].year && gs[i].month
            == gs[i + 1].month)
}

/// Every year group is a non-empty run of month groups under its year, and
/// adjacent year groups carry different years.
pub open spec fn year_groups_wf(gs: Seq<YearGroup>) -> bool {
    &&& forall|i: int|
        0 <= i < gs.len() ==> (#[trigger] gs[i]).months@.len() > 0 && (forall|j: int|
            0 <= j < gs[i].months@.len() ==> (#[trigger] gs[i].months@[j]).year == gs[i].year)
    &&& forall|i: int| 0 <= i < gs.len() - 1 ==> (#[trigger] gs[i]).year != gs[i + 1].year
}

proof fn lemma_flatten_months_push(gs: Seq<MonthGroup>, g: MonthGroup)
    ensures
        flatten_months(gs.push(g)) == flatten_months(gs) + g.items@,
    decreases gs.len(),
{
    if gs.len() == 0 {
        assert(gs.push(g)[0] == g);
        assert(gs.push(g).drop_first() =~= Seq::<MonthGroup>::empty());
        assert(flatten_months(Seq::<MonthGroup>::empty()) == Seq::<IndexItem>::empty());
        assert(flatten_months(gs.push(g)) == g.items@ + Seq::<IndexItem>::empty());
        assert(g.items@ + Seq::<IndexItem>::empty() =~= g.items@);
        assert(flatten_months(gs) + g.items@ =~= g.items@);
    } else {
        assert(gs.push(g)[0] == gs[0]);
        assert(gs.push(g).drop_first() =~= gs.drop_first().push(g));
        lemma_flatten_months_push(gs.drop_first(), g);
        assert(flatten_months(gs.push(g)) == gs[0].items@ + (flatten_months(gs.drop_first())
            + g.items@));
        assert(flatten_months(gs) == gs[0].items@ + flatten_months(gs.drop_first()));
        assert(gs[0].items@ + (flatten_months(gs.drop_first()) + g.items@) =~= (gs[0].items@
            + flatten_months(gs.drop_first())) + g.items@);
    }
}

proof fn lemma_flatten_years_push(gs: Seq<YearGroup>, g: YearGroup)
    ensures
        flatten_years(gs.push(g)) == flatten_years(gs) + g.months@,
    decreases gs.len(),
{
    if gs.len() == 0 {
        assert(gs.push(g)[0] == g);
        assert(gs.push(g).drop_first() =~= Seq::<YearGroup>::empty());
        assert(flatten_years(Seq::<YearGroup>::empty()) == Seq::<MonthGroup>::empty());
        assert(flatten_years(gs.push(g)) == g.months@ + Seq::<MonthGroup>::empty());
        assert(g.months@ + Seq::<MonthGroup>::empty() =~= g.months@);
        assert(flatten_years(gs) + g.months@ =~= g.months@);
    } else {
        assert(gs.push(g)[0] == gs[0]);
        assert(gs.push(g).drop_first() =~= gs.drop_first().push(g));
        lemma_flatten_years_push(gs.drop_first(), g);
        assert(flatten_years(gs.push(g)) == gs[0].months@ + (flatten_years(gs.drop_first())
            + g.months@));
        assert(flatten_years(gs) == gs[0].months@ + flatten_years(gs.drop_first()));
        assert(gs[0].months@ + (flatten_years(gs.drop_first()) + g.months@) =~= (gs[0].months@
            + flatten_years(gs.drop_first())) + g.months@);
    }
}

/// Merge adjacent items of the same (year, month) into month groups.
/// Relies on nothing about the input order beyond adjacency: it merges
/// exactly the adjacent runs, and never reorders.
#[verifier::rlimit(50)]
pub fn group_months(items: Vec<IndexItem>) -> (r: Vec<MonthGroup>)
    ensures
        flatten_months(r@) == items@,
        month_groups_wf(r@),
{
    let mut groups: Vec<MonthGroup> = Vec::new();
    let n = items.len();
    let ghost items_view = items@;
    let mut taken: usize = 0;
    proof {
        assert(flatten_months(groups@) =~= items_view.take(0));
    }
    while taken < n
        invariant
            taken <= n,
            n == items_view.len(),
            items@ == items_view,
            flatten_months(groups@) == items_view.take(taken as int),
            month_groups_wf(groups@),
            taken > 0 ==> groups@.len() > 0 && groups@.last().year == items_view[taken - 1].date.year
                && groups@.last().month == items_view[taken - 1].date.month,
            taken == 0 ==> groups@.len() == 0,
        decreases n - taken,
    {
        let item = clone_item(&items[taken]);
        let same = if taken > 0 && groups.len() > 0 {
            let last = &groups[groups.len() - 1];
            last.year == item.date.year && last.month == item.date.month
        } else {
            false
        };
        if same {
            let ghost gs_before = groups@;
            let ghost itemg = item;
            let mut last = groups.pop().unwrap();
            let ghost popped = groups@;
            last.items.push(item);
            groups.push(last);
            proof {
                assert(gs_before =~= popped.push(gs_before.last()));
                lemma_flatten_months_push(popped, gs_before.last());
                lemma_flatten_months_push(popped, groups@.last());
                assert(flatten_months(gs_before) == flatten_months(popped)
                    + gs_before.last().items@);
                assert(groups@.last().items@ == gs_before.last().items@.push(itemg));
                assert(flatten_months(groups@) == flatten_months(popped)
                    + gs_before.last().items@.push(itemg));
                assert(flatten_months(popped) + gs_before.last().items@.push(itemg) =~= (
                flatten_months(popped) + gs_before.last().items@).push(itemg));
                assert(items_view.take(taken + 1) =~= items_view.take(taken as int).push(
                    items_view[taken as int],
                ));
                assert(flatten_months(groups@) =~= items_view.take(taken + 1));
            }
        } else {
            let mut one = Vec::new();
            let year = item.date.year;
            let month = item.date.month;
            one.push(item);
            let g = MonthGroup { year, month, items: one };
            let ghost before = groups@;
            groups.push(g);
            proof {
                lemma_flatten_months_push(before, g);
                assert(flatten_months(groups@) =~= items_view.take(taken + 1));
            }
        }
        taken = taken + 1;
    }
    proof {
        assert(items_view.take(n as int) =~= items_view);
    }
    groups
}

/// Copy an index item, preserving its value.
pub fn clone_item(p: &IndexItem) -> (r: IndexItem)
    ensures
        r == *p,
{
    IndexItem {
        date: p.date,
        title_html: p.title_html.clone(),
        description: p.description.clone(),
    }
}

/// Merge adjacent month groups of the same year into year groups.
#[verifier::rlimit(50)]
pub fn group_years(months: Vec<MonthGroup>) -> (r: Vec<YearGroup>)
    ensures
        flatten_years(r@) == months@,
        year_groups_wf(r@),
{
    let mut groups: Vec<YearGroup> = Vec::new();
    let n = months.len();
    let ghost months_view = months@;
    let mut months = months;
    let mut taken: usize = 0;
    proof {
        assert(flatten_years(groups@) =~= months_view.take(0));
    }
    while taken < n
        invariant
            taken <= n,
            n == months_view.len(),
            months@ == months_view.skip(taken as int),
            flatten_years(groups@) == months_view.take(taken as int),
            year_groups_wf(groups@),
            taken > 0 ==> groups@.len() > 0 && groups@.last().year == months_view[taken - 1].year,
            taken == 0 ==> groups@.len() == 0,
        decreases n - taken,
    {
        let g0 = months.remove(0);
        proof {
            assert(months_view.skip(taken as int)[0] == months_view[taken as int]);
            assert(months_view.skip(taken as int).remove(0) =~= months_view.skip(taken + 1));
        }
        let same = if taken > 0 && groups.len() > 0 {
            groups[groups.len() - 1].year == g0.year
        } else {
            false
        };
        if same {
            let ghost gs_before = groups@;
            let ghost g0g = g0;
            let mut last = groups.pop().unwrap();
            let ghost popped = groups@;
            last.months.push(g0);
            groups.push(last);
            proof {
                assert(gs_before =~= popped.push(gs_before.last()));
                lemma_flatten_years_push(popped, gs_before.last());
                lemma_flatten_years_push(popped, groups@.last());
                assert(flatten_years(gs_before) == flatten_years(popped)
                    + gs_before.last().months@);
                assert(groups@.last().months@ == gs_before.last().months@.push(g0g));
                assert(flatten_years(groups@) == flatten_years(popped)
                    + gs_before.last().months@.push(g0g));
                assert(flatten_years(popped) + gs_before.last().months@.push(g0g) =~= (
                flatten_years(popped) + gs_before.last().months@).push(g0g));
                assert(months_view.take(taken + 1) =~= months_view.take(taken as int).push(
                    months_view[taken as int],
                ));
                assert(flatten_years(groups@) =~= months_view.take(taken + 1));
            }
        } else {
            let mut ms = Vec::new();
            let year = g0.year;
            ms.push(g0);
            let g = YearGroup { year, months: ms };
            let ghost before = groups@;
            groups.push(g);
            proof {
                lemma_flatten_years_push(before, g);
                assert(flatten_years(groups@) =~= months_view.take(taken + 1));
            }
        }
        taken = taken + 1;
    }
    proof {
        assert(months_view.take(n as int) =~= months_view);
    }
    groups
}

/// Law: items that all share one (year, month) coalesce into exactly one
/// group holding them in their given order.
pub proof fn lemma_single_month_run(gs: Seq<MonthGroup>, items: Seq<IndexItem>, y: int, m: int)
    requires
        flatten_months(gs) == items,
        month_groups_wf(gs),
        items.len() > 0,
        forall|j: int|
            0 <= j < items.len() ==> (#[trigger] items[j]).date.year == y
                && items[j].date.month == m,
    ensures
        gs.len() == 1,
        gs[0].items@ == items,
        gs[0].year == y,
        gs[0].month == m,
{
    assert(gs.len() > 0);
    if gs.len() >= 2 {
        let rest = gs.drop_first();
        assert(items[0] == gs[0].items@[0]);
        let k = gs[0].items@.len() as int;
        assert(k <= items.len()) by {
            assert(flatten_months(rest).len() >= rest[0].items@.len()) by {
                assert(flatten_months(rest) == rest[0].items@ + flatten_months(rest.drop_first()));
            }
        }
        assert(gs[1] == rest[0]);
        assert(flatten_months(rest) == rest[0].items@ + flatten_months(rest.drop_first()));
        assert(items[k] == gs[1].items@[0]);
        assert(gs[0].year == y && gs[0].month == m) by {
            assert(gs[0].items@[0].date.year == gs[0].year);
        }
        assert(gs[1].year == y && gs[1].month == m) by {
            assert(gs[1].items@[0].date.year == gs[1].year);
            assert(items[k].date.year == y);
        }
        assert(false);
    }
    assert(gs.drop_first() =~= Seq::<MonthGroup>::empty());
    assert(flatten_months(gs.drop_first()) == Seq::<IndexItem>::empty());
    assert(gs[0].items@ =~= items);
    assert(gs[0].items@[0].date.year == gs[0].year);
}

/// Law: month groups that all share one year coalesce into exactly one
/// year section holding them in their given order.
pub proof fn lemma_single_year_run(gs: Seq<YearGroup>, months: Seq<MonthGroup>, y: int)
    requires
        flatten_years(gs) == months,
        year_groups_wf(gs),
        months.len() > 0,
        forall|j: int| 0 <= j < months.len() ==> (#[trigger] months[j]).year == y,
    ensures
        gs.len() == 1,
        gs[0].months@ == months,
        gs[0].year == y,
{
    assert(gs.len() > 0);
    if gs.len() >= 2 {
        let rest = gs.drop_first();
        assert(months[0] == gs[0].months@[0]);
        let k = gs[0].months@.len() as int;
        assert(k <= months.len()) by {
            assert(flatten_years(rest).len() >= rest[0].months@.len()) by {
                assert(flatten_years(rest) == rest[0].months@ + flatten_years(rest.drop_first()));
            }
        }
        assert(gs[1] == rest[0]);
        assert(flatten_years(rest) == rest[0].months@ + flatten_years(rest.drop_first()));
        assert(months[k] == gs[1].months@[0]);
        assert(gs[0].year == y) by {
            assert(gs[0].months@[0].year == gs[0].year);
        }
        assert(gs[1].year == y) by {
            assert(gs[1].months@[0].year == gs[1].year);
            assert(months[k].year == y);
        }
        assert(false);
    }
    assert(gs.drop_first() =~= Seq::<YearGroup>::empty());
    assert(flatten_years(gs.drop_first()) == Seq::<MonthGroup>::empty());
    assert(gs[0].months@ =~= months);
    assert(gs[0].months@[0].year == gs[0].year);
}

/// Each item of a month group occurs in the flattening.
pub proof fn lemma_month_item_in_flatten(gs: Seq<MonthGroup>, i: int, j: int)
    requires
        0 <= i < gs.len(),
        0 <= j < gs[i].items@.len(),
    ensures
        exists|t: int|
            0 <= t < flatten_months(gs).len() && flatten_months(gs)[t] == gs[i].items@[j],
    decreases i,
{
    if i == 0 {
        assert(flatten_months(gs)[j] == gs[0].items@[j]);
    } else {
        lemma_month_item_in_flatten(gs.drop_first(), i - 1, j);
        let t0 = choose|t: int|
            0 <= t < flatten_months(gs.drop_first()).len() && flatten_months(gs.drop_first())[t]
                == gs.drop_first()[i - 1].items@[j];
        assert(flatten_months(gs)[gs[0].items@.len() + t0] == flatten_months(gs.drop_first())[t0]);
    }
}

/// Each month group of a year group occurs in the flattening.
pub proof fn lemma_year_month_in_flatten(gs: Seq<YearGroup>, i: int, j: int)
    requires
        0 <= i < gs.len(),
        0 <= j < gs[i].months@.len(),
    ensures
        exists|t: int|
            0 <= t < flatten_years(gs).len() && flatten_years(gs)[t] == gs[i].months@[j],
    decreases i,
{
    if i == 0 {
        assert(flatten_years(gs)[j] == gs[0].months@[j]);
    } else {
        lemma_year_month_in_flatten(gs.drop_first(), i - 1, j);
        let t0 = choose|t: int|
            0 <= t < flatten_years(gs.drop_first()).len() && flatten_years(gs.drop_first())[t]
                == gs.drop_first()[i - 1].months@[j];
        assert(flatten_years(gs)[gs[0].months@.len() + t0] == flatten_years(gs.drop_first())[t0]);
    }
}

/// The summary fragments of a run of items, in order.
pub open spec fn spec_items_markup(items: Seq<IndexItem>) -> Seq<char>
    decreases items.len(),
{
    if items.len() == 0 {
        Seq::empty()
    } else {
        spec_summary(
            spec_format_day(items[0].date, true),
            items[0].title_html@,
            items[0].date,
            items[0].description@,
        ) + spec_items_markup(items.drop_first())
    }
}

/// One month section: a linked month heading, then the summaries.
pub open spec fn spec_month_section(g: MonthGroup) -> Seq<char> {
    "<section><h2><a href=\""@ + spec_escaped(spec_format_month(g.year as int, g.month as int))
        + "\">"@ + spec_month_name(g.month as int) + "</a></h2>"@ + spec_items_markup(g.items@)
        + "</section>"@
}

/// The month sections of a run of month groups, in order.
pub open spec fn spec_months_markup(gs: Seq<MonthGroup>) -> Seq<char>
    decreases gs.len(),
{
    if gs.len() == 0 {
        Seq::empty()
    } else {
        spec_month_section(gs[0]) + spec_months_markup(gs.drop_first())
    }
}

/// One year section: a linked year heading, then its month sections.
pub open spec fn spec_year_section(g: YearGroup) -> Seq<char> {
    "<section><h1><a href=\""@ + spec_escaped(spec_format_year(g.year as int)) + "\">"@
        + spec_decimal(g.year as int) + "</a></h1>"@ + spec_months_markup(g.months@)
        + "</section>"@
}

/// The year sections of a run of year groups, in order.
pub open spec fn spec_years_markup(gs: Seq<YearGroup>) -> Seq<char>
    decreases gs.len(),
{
    if gs.len() == 0 {
        Seq::empty()
    } else {
        spec_year_section(gs[0]) + spec_years_markup(gs.drop_first())
    }
}

/// Whether a group's coordinates lie in the formattable range.
pub open spec fn month_group_in_range(g: MonthGroup) -> bool {
    0 <= g.year <= 9999 && 1 <= g.month <= 12
}

/// A month group whose coordinates and item dates can all be formatted.
pub open spec fn month_group_dates_wf(g: MonthGroup) -> bool {
    &&& month_group_in_range(g)
    &&& forall|k: int| 0 <= k < g.items@.len() ==> (#[trigger] g.items@[k]).date.wf()
}

/// A year group whose months can all be formatted.
pub open spec fn year_group_dates_wf(g: YearGroup) -> bool {
    &&& 0 <= g.year <= 9999
    &&& forall|j: int| 0 <= j < g.months@.len() ==> month_group_dates_wf(#[trigger] g.months@[j])
}

fn items_markup(items: &Vec<IndexItem>) -> (r: String)
    requires
        forall|j: int| 0 <= j < items@.len() ==> (#[trigger] items@[j]).date.wf(),
    ensures
        r@ == spec_items_markup(items@),
{
    let n = items.len();
    let mut i: usize = n;
    let mut out = String::new();
    proof {
        assert(items@.skip(n as int) =~= Seq::<IndexItem>::empty());
    }
    while i > 0
        invariant
            i <= n,
            n == items@.len(),
            forall|j: int| 0 <= j < items@.len() ==> (#[trigger] items@[j]).date.wf(),
            out@ == spec_items_markup(items@.skip(i as int)),
        decreases i,
    {
        let item = &items[i - 1];
        let href = format_day(item.date, true);
        let s = summary(
            href.as_str(),
            item.title_html.as_str(),
            item.date,
            item.description.as_str(),
        );
        let mut fresh = s;
        fresh.append(out.as_str());
        out = fresh;
        proof {
            assert(items@.skip(i - 1).drop_first() =~= items@.skip(i as int));
            assert(items@.skip(i - 1)[0] == items@[i - 1]);
            assert(out@ == spec_items_markup(items@.skip(i - 1)));
        }
        i = i - 1;
    }
    proof {
        assert(items@.skip(0) =~= items@);
    }
    out
}

fn month_section(g: &MonthGroup) -> (r: String)
    requires
        month_group_dates_wf(*g),
    ensures
        r@ == spec_month_section(*g),
{
    let mut out = String::from_str("<section><h2><a href=\"");
    let href = format_month(g.year, g.month);
    let h = escape(href.as_str());
    out.append(h.as_str());
    out.append("\">");
    out.append(month_name(g.month));
    out.append("</a></h2>");
    let inner = items_markup(&g.items);
    out.append(inner.as_str());
    out.append("</section>");
    proof {
        assert(out@ == spec_month_section(*g));
    }
    out
}

fn year_section(g: &YearGroup) -> (r: String)
    requires
        year_group_dates_wf(*g),
    ensures
        r@ == spec_year_section(*g),
{
    let mut out = String::from_str("<section><h1><a href=\"");
    let href = format_year(g.year);
    let h = escape(href.as_str());
    out.append(h.as_str());
    out.append("\">");
    let y = decimal(g.year as u32);
    out.append(y.as_str());
    out.append("</a></h1>");
    let n = g.months.len();
    let mut i: usize = n;
    let mut months_out = String::new();
    proof {
        assert(g.months@.skip(n as int) =~= Seq::<MonthGroup>::empty());
    }
    while i > 0
        invariant
            i <= n,
            n == g.months@.len(),
            year_group_dates_wf(*g),
            months_out@ == spec_months_markup(g.months@.skip(i as int)),
        decreases i,
    {
        let s = month_section(&g.months[i - 1]);
        let mut fresh = s;
        fresh.append(months_out.as_str());
        months_out = fresh;
        proof {
            assert(g.months@.skip(i - 1).drop_first() =~= g.months@.skip(i as int));
            assert(g.months@.skip(i - 1)[0] == g.months@[i - 1]);
            assert(months_out@ == spec_months_markup(g.months@.skip(i - 1)));
        }
        i = i - 1;
    }
    proof {
        assert(g.months@.skip(0) =~= g.months@);
    }
    out.append(months_out.as_str());
    out.append("</section>");
    proof {
        assert(out@ == spec_year_section(*g));
    }
    out
}

/// The whole nested index body: the year sections in the given order.
#[verifier::rlimit(50)]
pub fn years_markup(gs: &Vec<YearGroup>) -> (r: String)
    requires
        forall|i: int| 0 <= i < gs@.len() ==> year_group_dates_wf(#[trigger] gs@[i]),
    ensures
        r@ == spec_years_markup(gs@),
{
    let n = gs.len();
    let mut i: usize = n;
    let mut out = String::new();
    proof {
        assert(gs@.skip(n as int) =~= Seq::<YearGroup>::empty());
    }
    while i > 0
        invariant
            i <= n,
            n == gs@.len(),
            forall|i2: int| 0 <= i2 < gs@.len() ==> year_group_dates_wf(#[trigger] gs@[i2]),
            out@ == spec_years_markup(gs@.skip(i as int)),
        decreases i,
    {
        let s = year_section(&gs[i - 1]);
        let mut fresh = s;
        fresh.append(out.as_str());
        out = fresh;
        proof {
            assert(gs@.skip(i - 1).drop_first() =~= gs@.skip(i as int));
            assert(gs@.skip(i - 1)[0] == gs@[i - 1]);
            assert(out@ == spec_years_markup(gs@.skip(i - 1)));
        }
        i = i - 1;
    }
    proof {
        assert(gs@.skip(0) =~= gs@);
    }
    out
}

} // verus!
