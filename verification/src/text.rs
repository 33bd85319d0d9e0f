//! Text formatting: fixed-width decimal fields, canonical archive routes,
//! month names, RFC 3339 timestamps, and markup escaping.

use vstd::prelude::*;
use vstd::string::StrSliceExecFns;
use vstd::string::StringExecFns;
use crate::date::{Date, DateTime};

verus! {

/// The decimal digit character for `d`, for 0 <= d <= 9.
pub open spec fn spec_digit(d: int) -> char {
    if d == 0 {
        '0'
    } else if d == 1 {
        '1'
    } else if d == 2 {
        '2'
    } else if d == 3 {
        '3'
    } else if d == 4 {
        '4'
    } else if d == 5 {
        '5'
    } else if d == 6 {
        '6'
    } else if d == 7 {
        '7'
    } else if d == 8 {
        '8'
    } else {
        '9'
    }
}

/// The value of a decimal digit character, or -1 for any other character.
pub open spec fn spec_digit_val(c: char) -> int {
    if c == '0' {
        0
    } else if c == '1' {
        1
    } else if c == '2' {
        2
    } else if c == '3' {
        3
    } else if c == '4' {
        4
    } else if c == '5' {
        5
    } else if c == '6' {
        6
    } else if c == '7' {
        7
    } else if c == '8' {
        8
    } else if c == '9' {
        9
    } else {
        -1
    }
}

pub proof fn lemma_digit_round_trip(d: int)
    ensures
        0 <= d <= 9 ==> spec_digit_val(spec_digit(d)) == d,
{
}

/// `n` as four zero-padded decimal digits, for 0 <= n <= 9999.
pub open spec fn spec_pad4(n: int) -> Seq<char> {
    seq![
        spec_digit(n / 1000 % 10),
        spec_digit(n / 100 % 10),
        spec_digit(n / 10 % 10),
        spec_digit(n % 10),
    ]
}

/// `n` as two zero-padded decimal digits, for 0 <= n <= 99.
pub open spec fn spec_pad2(n: int) -> Seq<char> {
    seq![spec_digit(n / 10 % 10), spec_digit(n % 10)]
}

/// Relies on `String::push` of std: appends exactly one character.
#[verifier::external_body]
pub(crate) fn push_char(s: &mut String, c: char)
    ensures
        final(s)@ == old(s)@.push(c),
{
    s.push(c);
}

fn digit(d: u8) -> (r: char)
    requires
        d <= 9,
    ensures
        r == spec_digit(d as int),
{
    match d {
        0 => '0',
        1 => '1',
        2 => '2',
        3 => '3',
        4 => '4',
        5 => '5',
        6 => '6',
        7 => '7',
        8 => '8',
        _ => '9',
    }
}

/// `n` rendered as four zero-padded decimal digits.
pub fn pad4(n: u32) -> (r: String)
    requires
        n <= 9999,
    ensures
        r@ == spec_pad4(n as int),
{
    let mut out = String::new();
    push_char(&mut out, digit((n / 1000 % 10) as u8));
    push_char(&mut out, digit((n / 100 % 10) as u8));
    push_char(&mut out, digit((n / 10 % 10) as u8));
    push_char(&mut out, digit((n % 10) as u8));
    proof {
        assert(out@ =~= spec_pad4(n as int));
    }
    out
}

/// `n` rendered as two zero-padded decimal digits.
pub fn pad2(n: u8) -> (r: String)
    requires
        n <= 99,
    ensures
        r@ == spec_pad2(n as int),
{
    let mut out = String::new();
    push_char(&mut out, digit(n / 10 % 10));
    push_char(&mut out, digit(n % 10));
    proof {
        assert(out@ =~= spec_pad2(n as int));
    }
    out
}

/// `n` as plain decimal digits, without padding.
pub open spec fn spec_decimal(n: int) -> Seq<char>
    decreases n,
{
    if n < 10 {
        seq![spec_digit(n)]
    } else {
        spec_decimal(n / 10) + seq![spec_digit(n % 10)]
    }
}

/// `n` rendered as plain decimal digits, for 0 <= n <= 9999.
pub fn decimal(n: u32) -> (r: String)
    requires
        n <= 9999,
    ensures
        r@ == spec_decimal(n as int),
{
    let mut out = String::new();
    if n >= 1000 {
        push_char(&mut out, digit((n / 1000) as u8));
    }
    if n >= 100 {
        push_char(&mut out, digit((n / 100 % 10) as u8));
    }
    if n >= 10 {
        push_char(&mut out, digit((n / 10 % 10) as u8));
    }
    push_char(&mut out, digit((n % 10) as u8));
    proof {
        reveal_with_fuel(spec_decimal, 5);
        let v = n as int;
        assert(v / 10 / 10 == v / 100);
        assert(v / 100 / 10 == v / 1000);
        if v >= 1000 {
            assert(v / 1000 < 10);
            assert(v / 1000 % 10 == v / 1000);
            assert(out@ =~= spec_decimal(v));
        } else if v >= 100 {
            assert(v / 100 < 10);
            assert(v / 100 % 10 == v / 100);
            assert(out@ =~= spec_decimal(v));
        } else if v >= 10 {
            assert(v / 10 < 10);
            assert(v / 10 % 10 == v / 10);
            assert(out@ =~= spec_decimal(v));
        } else {
            assert(out@ =~= spec_decimal(v));
        }
    }
    out
}

/// The year segment of archive routes: `YYYY`.
pub open spec fn spec_format_year(year: int) -> Seq<char> {
    spec_pad4(year)
}

/// A year archive's route, relative to the output root.
pub fn format_year(year: i32) -> (r: String)
    requires
        0 <= year <= 9999,
    ensures
        r@ == spec_format_year(year as int),
{
    pad4(year as u32)
}

/// The month segment of archive routes: `YYYY/MM`.
pub open spec fn spec_format_month(year: int, month: int) -> Seq<char> {
    spec_pad4(year) + "/"@ + spec_pad2(month)
}

/// A month archive's route, relative to the output root.
pub fn format_month(year: i32, month: u8) -> (r: String)
    requires
        0 <= year <= 9999,
        month <= 99,
    ensures
        r@ == spec_format_month(year as int, month as int),
{
    let mut out = pad4(year as u32);
    out.append("/");
    let mm = pad2(month);
    out.append(mm.as_str());
    out
}

/// A day page's route: `YYYY/MM/DD`, with a leading slash when used as a link.
pub open spec fn spec_format_day(date: Date, is_link: bool) -> Seq<char> {
    (if is_link {
        "/"@
    } else {
        Seq::<char>::empty()
    }) + spec_pad4(date.year as int) + "/"@ + spec_pad2(date.month as int) + "/"@ + spec_pad2(
        date.day as int,
    )
}

/// A day page's route, relative to the output root, or an absolute link.
pub fn format_day(date: Date, is_link: bool) -> (r: String)
    requires
        date.wf(),
    ensures
        r@ == spec_format_day(date, is_link),
{
    let mut out = String::new();
    if is_link {
        out.append("/");
    }
    let y = pad4(date.year as u32);
    out.append(y.as_str());
    out.append("/");
    let m = pad2(date.month);
    out.append(m.as_str());
    out.append("/");
    let d = pad2(date.day);
    out.append(d.as_str());
    proof {
        assert(out@ =~= spec_format_day(date, is_link));
    }
    out
}

/// The English name of `month`, for months 1 through 12.
pub open spec fn spec_month_name(month: int) -> Seq<char> {
    if month == 1 {
        "January"@
    } else if month == 2 {
        "February"@
    } else if month == 3 {
        "March"@
    } else if month == 4 {
        "April"@
    } else if month == 5 {
        "May"@
    } else if month == 6 {
        "June"@
    } else if month == 7 {
        "July"@
    } else if month == 8 {
        "August"@
    } else if month == 9 {
        "September"@
    } else if month == 10 {
        "October"@
    } else if month == 11 {
        "November"@
    } else {
        "December"@
    }
}

pub fn month_name(month: u8) -> (r: &'static str)
    requires
        1 <= month <= 12,
    ensures
        r@ == spec_month_name(month as int),
{
    match month {
        1 => "January",
        2 => "February",
        3 => "March",
        4 => "April",
        5 => "May",
        6 => "June",
        7 => "July",
        8 => "August",
        9 => "September",
        10 => "October",
        11 => "November",
        _ => "December",
    }
}

/// A timestamp in RFC 3339 form, always in UTC: `YYYY-MM-DDTHH:MM:SSZ`.
pub open spec fn spec_rfc3339(dt: DateTime) -> Seq<char> {
    spec_pad4(dt.date.year as int) + "-"@ + spec_pad2(dt.date.month as int) + "-"@ + spec_pad2(
        dt.date.day as int,
    ) + "T"@ + spec_pad2(dt.hour as int) + ":"@ + spec_pad2(dt.minute as int) + ":"@ + spec_pad2(
        dt.second as int,
    ) + "Z"@
}

pub fn rfc3339(dt: &DateTime) -> (r: String)
    requires
        dt.wf(),
    ensures
        r@ == spec_rfc3339(*dt),
{
    let mut out = pad4(dt.date.year as u32);
    out.append("-");
    let mo = pad2(dt.date.month);
    out.append(mo.as_str());
    out.append("-");
    let d = pad2(dt.date.day);
    out.append(d.as_str());
    out.append("T");
    let h = pad2(dt.hour);
    out.append(h.as_str());
    out.append(":");
    let mi = pad2(dt.minute);
    out.append(mi.as_str());
    out.append(":");
    let s = pad2(dt.second);
    out.append(s.as_str());
    out.append("Z");
    proof {
        assert(out@ =~= spec_rfc3339(*dt));
    }
    out
}

/// How one character is escaped in markup text and attribute values.
pub open spec fn spec_escape_char(c: char) -> Seq<char> {
    if c == '&' {
        "&amp;"@
    } else if c == '<' {
        "&lt;"@
    } else if c == '>' {
        "&gt;"@
    } else if c == '"' {
        "&quot;"@
    } else {
        seq![c]
    }
}

/// `s` with every markup-significant character replaced by its entity.
pub open spec fn spec_escaped(s: Seq<char>) -> Seq<char>
    decreases s.len(),
{
    if s.len() == 0 {
        Seq::empty()
    } else {
        spec_escaped(s.drop_last()) + spec_escape_char(s.last())
    }
}

/// Escape `s` for use as markup text or as an attribute value.
pub fn escape(s: &str) -> (r: String)
    ensures
        r@ == spec_escaped(s@),
{
    let n = s.unicode_len();
    let mut out = String::new();
    let mut i: usize = 0;
    while i < n
        invariant
            i <= n,
            n == s@.len(),
            out@ == spec_escaped(s@.take(i as int)),
        decreases n - i,
    {
        let c = s.get_char(i);
        if c == '&' {
            out.append("&amp;");
        } else if c == '<' {
            out.append("&lt;");
        } else if c == '>' {
            out.append("&gt;");
        } else if c == '"' {
            out.append("&quot;");
        } else {
            push_char(&mut out, c);
        }
        proof {
            assert(s@.take(i + 1).drop_last() =~= s@.take(i as int));
            assert(s@.take(i + 1).last() == s@[i as int]);
            if !(c == '&' || c == '<' || c == '>' || c == '"') {
                assert(out@ =~= spec_escaped(s@.take(i as int)) + spec_escape_char(s@[i as int]));
            }
        }
        i = i + 1;
    }
    proof {
        assert(s@.take(n as int) =~= s@);
    }
    out
}

/// Parse a day-page link of the form `/YYYY/MM/DD` back into its date.
/// Returns `None` unless the text has exactly that shape and names a real
/// calendar day.
pub open spec fn spec_parse_day_path(s: Seq<char>) -> Option<Date> {
    if s.len() == 11 && s[0] == '/' && s[5] == '/' && s[8] == '/' && spec_digit_val(s[1]) >= 0
        && spec_digit_val(s[2]) >= 0 && spec_digit_val(s[3]) >= 0 && spec_digit_val(s[4]) >= 0
        && spec_digit_val(s[6]) >= 0 && spec_digit_val(s[7]) >= 0 && spec_digit_val(s[9]) >= 0
        && spec_digit_val(s[10]) >= 0 {
        let d = Date {
            year: (spec_digit_val(s[1]) * 1000 + spec_digit_val(s[2]) * 100 + spec_digit_val(s[3])
                * 10 + spec_digit_val(s[4])) as i32,
            month: (spec_digit_val(s[6]) * 10 + spec_digit_val(s[7])) as u8,
            day: (spec_digit_val(s[9]) * 10 + spec_digit_val(s[10])) as u8,
        };
        if d.wf() {
            Some(d)
        } else {
            None
        }
    } else {
        None
    }
}

fn digit_val(c: char) -> (r: i32)
    ensures
        r as int == spec_digit_val(c),
{
    if c == '0' {
        0
    } else if c == '1' {
        1
    } else if c == '2' {
        2
    } else if c == '3' {
        3
    } else if c == '4' {
        4
    } else if c == '5' {
        5
    } else if c == '6' {
        6
    } else if c == '7' {
        7
    } else if c == '8' {
        8
    } else if c == '9' {
        9
    } else {
        -1
    }
}

/// Parse a day-page link `/YYYY/MM/DD` back into its date.
pub fn parse_day_path(s: &str) -> (r: Option<Date>)
    ensures
        r == spec_parse_day_path(s@),
{
    if s.unicode_len() != 11 {
        return None;
    }
    if s.get_char(0) != '/' || s.get_char(5) != '/' || s.get_char(8) != '/' {
        return None;
    }
    let y3 = digit_val(s.get_char(1));
    let y2 = digit_val(s.get_char(2));
    let y1 = digit_val(s.get_char(3));
    let y0 = digit_val(s.get_char(4));
    let m1 = digit_val(s.get_char(6));
    let m0 = digit_val(s.get_char(7));
    let d1 = digit_val(s.get_char(9));
    let d0 = digit_val(s.get_char(10));
    if y3 < 0 || y2 < 0 || y1 < 0 || y0 < 0 || m1 < 0 || m0 < 0 || d1 < 0 || d0 < 0 {
        return None;
    }
    let date = Date {
        year: y3 * 1000 + y2 * 100 + y1 * 10 + y0,
        month: (m1 * 10 + m0) as u8,
        day: (d1 * 10 + d0) as u8,
    };
    let valid = 1 <= date.month && date.month <= 12 && 1 <= date.day && date.day
        <= date.days_in_month();
    if valid {
        Some(date)
    } else {
        None
    }
}

/// Law: a date-anchored page's canonical link, parsed back, recovers the
/// same year, month and day as the date it was formatted from.
proof fn lemma_decompose4(y: int)
    requires
        0 <= y <= 9999,
    ensures
        y / 1000 % 10 * 1000 + y / 100 % 10 * 100 + y / 10 % 10 * 10 + y % 10 == y,
{
    assert(y == y / 10 * 10 + y % 10);
    assert(y / 10 == y / 10 / 10 * 10 + y / 10 % 10);
    assert(y / 10 / 10 == y / 10 / 10 / 10 * 10 + y / 10 / 10 % 10);
    assert(y / 10 <= 999);
    assert(y / 10 / 10 <= 99);
    assert(y / 10 / 10 / 10 <= 9);
    assert(y / 10 / 10 == y / 100);
    assert(y / 10 / 10 / 10 == y / 1000);
    assert(y / 1000 % 10 == y / 1000);
}

proof fn lemma_decompose2(x: int)
    requires
        0 <= x <= 99,
    ensures
        x / 10 % 10 * 10 + x % 10 == x,
{
    assert(x / 10 % 10 == x / 10);
}

proof fn lemma_format_day_chars(d: Date)
    requires
        d.wf(),
    ensures
        spec_format_day(d, true) =~= seq![
            '/',
            spec_digit(d.year as int / 1000 % 10),
            spec_digit(d.year as int / 100 % 10),
            spec_digit(d.year as int / 10 % 10),
            spec_digit(d.year as int % 10),
            '/',
            spec_digit(d.month as int / 10 % 10),
            spec_digit(d.month as int % 10),
            '/',
            spec_digit(d.day as int / 10 % 10),
            spec_digit(d.day as int % 10),
        ],
{
    reveal_strlit("/");
}

#[verifier::rlimit(60)]
pub proof fn lemma_day_path_round_trip(d: Date)
    requires
        d.wf(),
    ensures
        spec_parse_day_path(spec_format_day(d, true)) == Some(d),
{
    let s = spec_format_day(d, true);
    let y = d.year as int;
    let mo = d.month as int;
    let da = d.day as int;
    lemma_format_day_chars(d);
    lemma_digit_round_trip(y / 1000 % 10);
    lemma_digit_round_trip(y / 100 % 10);
    lemma_digit_round_trip(y / 10 % 10);
    lemma_digit_round_trip(y % 10);
    lemma_digit_round_trip(mo / 10 % 10);
    lemma_digit_round_trip(mo % 10);
    lemma_digit_round_trip(da / 10 % 10);
    lemma_digit_round_trip(da % 10);
    lemma_decompose4(y);
    lemma_decompose2(mo);
    lemma_decompose2(da);
    assert(spec_digit_val(s[1]) * 1000 + spec_digit_val(s[2]) * 100 + spec_digit_val(s[3]) * 10
        + spec_digit_val(s[4]) == y);
    assert(spec_digit_val(s[6]) * 10 + spec_digit_val(s[7]) == mo);
    assert(spec_digit_val(s[9]) * 10 + spec_digit_val(s[10]) == da);
}

} // verus!
