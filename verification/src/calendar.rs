//! Due dates and the calendar that sets them.
use vstd::prelude::*;
use vstd::string::*;

use crate::lists::opt_view;
use crate::lists::views;
use crate::model::NoteColor;
use crate::model::NoteStatus;
use crate::text::all_digits;
use crate::text::concat;
use crate::text::decimal;
use crate::text::decimal_of;
use crate::text::digits_value;
use crate::text::is_digit;
use crate::text::padded;
use crate::text::padded_of;
use crate::text::parse_unsigned;
use crate::text::split;
use crate::text::split_at;
use crate::text::text_before;
use crate::text::text_eq;
use crate::text::text_less;
use crate::text::unsigned_value;

verus! {

/// The short name of a month, by its two digits.
pub open spec fn short_month(digits: Seq<char>) -> Option<Seq<char>> {
    if digits == "01"@ {
        Some("Jan"@)
    } else if digits == "02"@ {
        Some("Feb"@)
    } else if digits == "03"@ {
        Some("Mar"@)
    } else if digits == "04"@ {
        Some("Apr"@)
    } else if digits == "05"@ {
        Some("May"@)
    } else if digits == "06"@ {
        Some("Jun"@)
    } else if digits == "07"@ {
        Some("Jul"@)
    } else if digits == "08"@ {
        Some("Aug"@)
    } else if digits == "09"@ {
        Some("Sep"@)
    } else if digits == "10"@ {
        Some("Oct"@)
    } else if digits == "11"@ {
        Some("Nov"@)
    } else if digits == "12"@ {
        Some("Dec"@)
    } else {
        None
    }
}

fn short_month_name(digits: &str) -> (r: Option<&'static str>)
    ensures
        (match r {
            Some(name) => Some(name@),
            None => None,
        }) == short_month(digits@),
{
    if text_eq(digits, "01") {
        Some("Jan")
    } else if text_eq(digits, "02") {
        Some("Feb")
    } else if text_eq(digits, "03") {
        Some("Mar")
    } else if text_eq(digits, "04") {
        Some("Apr")
    } else if text_eq(digits, "05") {
        Some("May")
    } else if text_eq(digits, "06") {
        Some("Jun")
    } else if text_eq(digits, "07") {
        Some("Jul")
    } else if text_eq(digits, "08") {
        Some("Aug")
    } else if text_eq(digits, "09") {
        Some("Sep")
    } else if text_eq(digits, "10") {
        Some("Oct")
    } else if text_eq(digits, "11") {
        Some("Nov")
    } else if text_eq(digits, "12") {
        Some("Dec")
    } else {
        None
    }
}

/// What a note says about its due date: month and day, where the date has a
/// month that can be named; the date itself, where it has not.
pub open spec fn due_label(due_date: Option<Seq<char>>, overdue: bool) -> Seq<char> {
    match due_date {
        None => "add due"@,
        Some(date) => {
            let parts = split_at(date, '-');
            if parts.len() < 3 {
                date
            } else {
                match short_month(parts[1]) {
                    None => date,
                    Some(month) => (if overdue {
                        "overdue · "@
                    } else {
                        "due "@
                    }) + month + " "@ + parts[2],
                }
            }
        },
    }
}

/// What a note says about its due date.
pub fn due_date_label(due_date: Option<&str>, overdue: bool) -> (r: String)
    ensures
        r@ == due_label(
            match due_date {
                Some(date) => Some(date@),
                None => None,
            },
            overdue,
        ),
{
    let date = match due_date {
        Some(date) => date,
        None => return "add due".to_owned(),
    };
    let parts = split(date, '-');
    assert(views(parts@).len() == parts@.len());
    if parts.len() < 3 {
        return date.to_owned();
    }
    assert(views(parts@)[1] == parts@[1]@);
    assert(views(parts@)[2] == parts@[2]@);
    match short_month_name(&parts[1]) {
        None => date.to_owned(),
        Some(month) => {
            let start = if overdue {
                "overdue · "
            } else {
                "due "
            };
            concat(&concat(&concat(start, month), " "), &parts[2])
        },
    }
}

/// The year, month and day of a date: the numbers between its first hyphens.
pub open spec fn date_of(date: Seq<char>) -> Option<(i32, u32, u32)> {
    let parts = split_at(date, '-');
    if parts.len() < 3 {
        None
    } else {
        match (
            unsigned_value(parts[0], i32::MAX as nat),
            unsigned_value(parts[1], u32::MAX as nat),
            unsigned_value(parts[2], u32::MAX as nat),
        ) {
            (Some(year), Some(month), Some(day)) => Some(
                (year as i32, month as u32, day as u32),
            ),
            _ => None,
        }
    }
}

/// Reads the year, month and day of a date.
pub fn parse_due_date(due_date: &str) -> (r: Option<(i32, u32, u32)>)
    ensures
        r == date_of(due_date@),
{
    let parts = split(due_date, '-');
    assert(views(parts@).len() == parts@.len());
    if parts.len() < 3 {
        return None;
    }
    assert(views(parts@)[0] == parts@[0]@);
    assert(views(parts@)[1] == parts@[1]@);
    assert(views(parts@)[2] == parts@[2]@);
    let year: u64 = match parse_unsigned(&parts[0], 2_147_483_647) {
        Some(n) => n,
        None => return None,
    };
    let month: u64 = match parse_unsigned(&parts[1], 4_294_967_295) {
        Some(n) => n,
        None => return None,
    };
    let day: u64 = match parse_unsigned(&parts[2], 4_294_967_295) {
        Some(n) => n,
        None => return None,
    };
    proof {
        bounded(parts@[0]@, i32::MAX as nat);
        bounded(parts@[1]@, u32::MAX as nat);
        bounded(parts@[2]@, u32::MAX as nat);
    }
    Some((year as i32, month as u32, day as u32))
}

proof fn bounded(s: Seq<char>, max: nat)
    ensures
        unsigned_value(s, max) matches Some(n) ==> n <= max,
{
}

/// A date as it is stored. A year before the common era has its sign within
/// the width.
pub open spec fn date_text(year: int, month: nat, day: nat) -> Seq<char> {
    (if year < 0 {
        "-"@ + padded((-year) as nat, 3)
    } else {
        padded(year as nat, 4)
    }) + "-"@ + padded(month, 2) + "-"@ + padded(day, 2)
}

/// Writes a date.
pub fn date_value(year: i32, month: u32, day: u32) -> (r: String)
    ensures
        r@ == date_text(year as int, month as nat, day as nat),
{
    let wide: i64 = year as i64;
    let start = if wide < 0 {
        concat("-", &padded_of((-wide) as u64, 3))
    } else {
        padded_of(wide as u64, 4)
    };
    let a = concat(&start, "-");
    let b = concat(&a, &padded_of(month as u64, 2));
    let c = concat(&b, "-");
    concat(&c, &padded_of(day as u64, 2))
}

/// Whether a note is late: it is not done, and its date is one and comes before
/// today.
pub open spec fn is_late(
    due_date: Option<Seq<char>>,
    status: NoteStatus,
    today: Seq<char>,
) -> bool {
    &&& status != NoteStatus::Done
    &&& due_date is Some
    &&& date_of(due_date->0) is Some
    &&& text_less(due_date->0, today)
}

/// Whether a note is late.
pub fn is_overdue(due_date: Option<&str>, status: NoteStatus, today: &str) -> (r: bool)
    ensures
        r == is_late(
            match due_date {
                Some(date) => Some(date@),
                None => None,
            },
            status,
            today@,
        ),
{
    if status == NoteStatus::Done {
        return false;
    }
    match due_date {
        Some(date) => parse_due_date(date).is_some() && text_before(date, today),
        None => false,
    }
}

/// Whether a year has a leap day.
pub open spec fn is_leap(year: int) -> bool {
    year % 4 == 0 && (year % 100 != 0 || year % 400 == 0)
}

/// The number of days of a month; a month that is none counts as a long one.
pub open spec fn month_days(year: int, month: int) -> int {
    if month == 2 {
        if is_leap(year) {
            29
        } else {
            28
        }
    } else if month == 4 || month == 6 || month == 9 || month == 11 {
        30
    } else {
        31
    }
}

/// The number of days of a month.
pub fn days_in_month(year: i32, month: u32) -> (r: u32)
    ensures
        r == month_days(year as int, month as int),
{
    if month == 2 {
        if year % 4 == 0 && (year % 100 != 0 || year % 400 == 0) {
            29
        } else {
            28
        }
    } else if month == 4 || month == 6 || month == 9 || month == 11 {
        30
    } else {
        31
    }
}

/// What a month adds to the day of the week.
pub open spec fn month_offset(month: int) -> int {
    if month == 1 {
        0
    } else if month == 2 {
        3
    } else if month == 3 {
        2
    } else if month == 4 {
        5
    } else if month == 5 {
        0
    } else if month == 6 {
        3
    } else if month == 7 {
        5
    } else if month == 8 {
        1
    } else if month == 9 {
        4
    } else if month == 10 {
        6
    } else if month == 11 {
        2
    } else {
        4
    }
}

/// The year that counts for the day of the week: January and February belong
/// to the year before.
pub open spec fn counted_year(year: int, month: int) -> int {
    if month < 3 {
        year - 1
    } else {
        year
    }
}

/// Division towards zero.
pub open spec fn toward_zero(a: int, b: int) -> int {
    if a >= 0 {
        a / b
    } else {
        -((-a) / b)
    }
}

/// The days that have passed, up to a multiple of seven.
pub open spec fn day_count(year: int, month: int) -> int {
    let y = counted_year(year, month);
    y + toward_zero(y, 4) - toward_zero(y, 100) + toward_zero(y, 400) + month_offset(month) + 1
}

/// The day of the week on which a month begins, Sunday being zero. Before the
/// common era it may be negative and is no weekday.
pub open spec fn weekday_of_first(year: int, month: int) -> int {
    let count = day_count(year, month);
    count - 7 * toward_zero(count, 7)
}

/// The day of the week on which a month begins, Sunday being zero. The year is
/// limited by what the sum of its days may come to.
pub fn first_weekday(year: i32, month: u32) -> (r: u32)
    requires
        1 <= month <= 12,
        -1_717_986_919 <= counted_year(year as int, month as int) <= 1_717_986_918,
    ensures
        r as int == (if weekday_of_first(year as int, month as int) >= 0 {
            weekday_of_first(year as int, month as int)
        } else {
            weekday_of_first(year as int, month as int) + 0x1_0000_0000
        }),
{
    let offset: i32 = match month {
        1 => 0,
        2 => 3,
        3 => 2,
        4 => 5,
        5 => 0,
        6 => 3,
        7 => 5,
        8 => 1,
        9 => 4,
        10 => 6,
        11 => 2,
        _ => 4,
    };
    let y: i32 = if month < 3 {
        year - 1
    } else {
        year
    };
    let count: i32 = y + y / 4 - y / 100 + y / 400 + offset + 1;
    let weekday: i32 = count % 7;
    if weekday < 0 {
        assert(weekday as u32 == weekday + 0x1_0000_0000) by (bit_vector)
            requires
                weekday < 0,
        ;
    }
    weekday as u32
}

/// Whether a month has a page: it is one of twelve, in a year that can be
/// counted, and it begins on a weekday.
pub open spec fn has_page(year: int, month: int) -> bool {
    &&& 1 <= month <= 12
    &&& -1_717_986_919 <= counted_year(year, month) <= 1_717_986_918
    &&& weekday_of_first(year, month) >= 0
}

/// Whether a month has a page.
pub fn weekday_is_shown(year: i32, month: u32) -> (r: bool)
    ensures
        r == has_page(year as int, month as int),
{
    if month < 1 || month > 12 {
        return false;
    }
    let counted: i64 = if month < 3 {
        year as i64 - 1
    } else {
        year as i64
    };
    if counted < -1_717_986_919 || counted > 1_717_986_918 {
        return false;
    }
    first_weekday(year, month) < 7
}

/// The fields of a month's page: empty ones up to its first weekday, then its
/// days.
pub open spec fn month_page(year: int, month: int) -> Seq<Option<u32>> {
    Seq::new(
        (weekday_of_first(year, month) + month_days(year, month)) as nat,
        |i: int|
            if i < weekday_of_first(year, month) {
                None
            } else {
                Some((i - weekday_of_first(year, month) + 1) as u32)
            },
    )
}

/// The fields of a month's page.
pub fn calendar_days(year: i32, month: u32) -> (r: Vec<Option<u32>>)
    requires
        has_page(year as int, month as int),
    ensures
        r@ == month_page(year as int, month as int),
{
    let mut days: Vec<Option<u32>> = Vec::new();
    let blank: u32 = first_weekday(year, month);
    let count: u32 = days_in_month(year, month);
    let mut i: u32 = 0;
    while i < blank
        invariant
            i <= blank,
            days@.len() == i,
            forall|j: int| 0 <= j < i ==> days@[j] == None::<u32>,
        decreases blank - i,
    {
        days.push(None);
        i = i + 1;
    }
    let mut day: u32 = 1;
    while day <= count
        invariant
            1 <= day <= count + 1,
            count <= 31,
            blank < 7,
            days@.len() == blank + day - 1,
            forall|j: int| 0 <= j < blank ==> days@[j] == None::<u32>,
            forall|j: int|
                blank <= j < days@.len() ==> days@[j] == Some((j - blank + 1) as u32),
        decreases count + 1 - day,
    {
        days.push(Some(day));
        day = day + 1;
    }
    assert(days@ =~= month_page(year as int, month as int));
    days
}

/// The name of a month.
pub open spec fn month_title(month: int) -> Seq<char> {
    if month == 1 {
        "January"@
    } else if month == 2 {
        "February"@
    } else if month == 3 {
        "March"@
    } else if month == 4 {
        "April"@
    } else if month == 5 {
        "May"@
    } else if month == 6 {
        "June"@
    } else if month == 7 {
        "July"@
    } else if month == 8 {
        "August"@
    } else if month == 9 {
        "September"@
    } else if month == 10 {
        "October"@
    } else if month == 11 {
        "November"@
    } else if month == 12 {
        "December"@
    } else {
        "Month"@
    }
}

/// The name of a month.
pub fn month_name(month: u32) -> (r: &'static str)
    ensures
        r@ == month_title(month as int),
{
    match month {
        1 => "January",
        2 => "February",
        3 => "March",
        4 => "April",
        5 => "May",
        6 => "June",
        7 => "July",
        8 => "August",
        9 => "September",
        10 => "October",
        11 => "November",
        12 => "December",
        _ => "Month",
    }
}

/// The months from the beginning of the common era to a month.
pub open spec fn month_index(year: int, month: int) -> int {
    year * 12 + month - 1
}

/// The month a number of months later.
pub open spec fn shifted(year: int, month: int, delta: int) -> (int, int) {
    ((month_index(year, month) + delta) / 12, (month_index(year, month) + delta) % 12 + 1)
}

/// Whether the months up to a month, and up to the one that is asked for, can
/// be counted.
pub open spec fn is_countable(year: int, month: int, delta: int) -> bool {
    &&& i32::MIN <= year * 12 <= i32::MAX
    &&& month <= i32::MAX
    &&& i32::MIN <= year * 12 + month <= i32::MAX
    &&& i32::MIN <= year * 12 + month - 1 <= i32::MAX
    &&& i32::MIN <= year * 12 + month - 1 + delta <= i32::MAX
}

/// Whether a month can be turned to.
pub fn can_shift(year: i32, month: u32, delta: i32) -> (r: bool)
    ensures
        r == is_countable(year as int, month as int, delta as int),
{
    let low: i64 = -2_147_483_648;
    let high: i64 = 2_147_483_647;
    let years: i64 = year as i64 * 12;
    let end: i64 = years + month as i64;
    low <= years && years <= high && month as i64 <= high && low <= end && end <= high && low <= end
        - 1 && end - 1 <= high && low <= end - 1 + delta as i64 && end - 1 + delta as i64 <= high
}

/// The month a number of months later, or earlier.
pub fn shift_month(year: i32, month: u32, delta: i32) -> (r: (i32, u32))
    requires
        is_countable(year as int, month as int, delta as int),
    ensures
        (r.0 as int, r.1 as int) == shifted(year as int, month as int, delta as int),
{
    let index: i32 = year * 12 + month as i32 - 1 + delta;
    let years: i32 = match index.checked_div_euclid(12) {
        Some(n) => n,
        None => 0,
    };
    let months: i32 = match index.checked_rem_euclid(12) {
        Some(n) => n,
        None => 0,
    };
    (years, months as u32 + 1)
}

/// A month is one of twelve, whatever is added to it, and going as far back
/// leads to where one came from.
pub proof fn shifting_leads_back(year: int, month: int, delta: int)
    requires
        1 <= month <= 12,
    ensures
        1 <= shifted(year, month, delta).1 <= 12,
        shifted(
            shifted(year, month, delta).0,
            shifted(year, month, delta).1,
            -delta,
        ) == (year, month),
{
}

proof fn quotient_steps(y: int, d: int)
    requires
        y >= 1,
        d == 4 || d == 100 || d == 400,
    ensures
        y / d - (y - 1) / d == (if y % d == 0 {
            1int
        } else {
            0
        }),
{
    if d == 4 {
        assert(y / 4 - (y - 1) / 4 == (if y % 4 == 0 {
            1int
        } else {
            0
        }));
    } else if d == 100 {
        assert(y / 100 - (y - 1) / 100 == (if y % 100 == 0 {
            1int
        } else {
            0
        }));
    } else {
        assert(y / 400 - (y - 1) / 400 == (if y % 400 == 0 {
            1int
        } else {
            0
        }));
    }
}

/// The days that a year has beyond fifty-two weeks.
proof fn years_step(y: int)
    requires
        y >= 1,
    ensures
        (y + y / 4 - y / 100 + y / 400) - ((y - 1) + (y - 1) / 4 - (y - 1) / 100 + (y - 1) / 400)
            == (if is_leap(y) {
            2int
        } else {
            1
        }),
{
    let (q4, q100, q400) = (y / 4, y / 100, y / 400);
    let (p4, p100, p400) = ((y - 1) / 4, (y - 1) / 100, (y - 1) / 400);
    let (r4, r100, r400) = (y % 4 == 0, y % 100 == 0, y % 400 == 0);
    quotient_steps(y, 4);
    quotient_steps(y, 100);
    quotient_steps(y, 400);
    centuries_are_nested(y);
    steps_add_up(q4 - p4, q100 - p100, q400 - p400, r4, r100, r400);
}

proof fn centuries_are_nested(y: int)
    ensures
        y % 100 == 0 ==> y % 4 == 0,
        y % 400 == 0 ==> y % 100 == 0,
{
    if y % 100 == 0 {
        vstd::arithmetic::div_mod::lemma_mod_mod(y, 4, 25);
    }
    if y % 400 == 0 {
        vstd::arithmetic::div_mod::lemma_mod_mod(y, 100, 4);
    }
}

proof fn steps_add_up(s4: int, s100: int, s400: int, r4: bool, r100: bool, r400: bool)
    requires
        s4 == (if r4 {
            1int
        } else {
            0
        }),
        s100 == (if r100 {
            1int
        } else {
            0
        }),
        s400 == (if r400 {
            1int
        } else {
            0
        }),
        r100 ==> r4,
        r400 ==> r100,
    ensures
        1 + s4 - s100 + s400 == (if r4 && (!r100 || r400) {
            2int
        } else {
            1
        }),
{
}

/// Counts that differ by whole weeks fall on the same weekday.
proof fn weeks_pass(a: int, b: int, weeks: int)
    requires
        b == a + 7 * weeks,
    ensures
        a % 7 == b % 7,
{
}

proof fn count_is_positive(year: int, month: int)
    requires
        1 <= month <= 12,
        year >= 0,
    ensures
        day_count(year, month) >= 0,
        weekday_of_first(year, month) == day_count(year, month) % 7,
{
    let y = counted_year(year, month);
    if y >= 0 {
        assert(y / 100 <= y);
    } else {
        assert(y == -1);
    }
}

/// One month is followed by the next: it begins on the weekday after the last
/// day of the month before. In the common era this holds of every month but
/// the February of its year zero.
pub proof fn months_follow_each_other(year: int, month: int)
    requires
        1 <= month <= 12,
        year >= 1 || (year == 0 && month != 2),
    ensures
        weekday_of_first(shifted(year, month, 1).0, shifted(year, month, 1).1) == (
        weekday_of_first(year, month) + month_days(year, month)) % 7,
{
    let (next_year, next_month) = shifted(year, month, 1);
    if month == 12 {
        assert(next_year == year + 1 && next_month == 1);
    } else {
        assert(next_year == year && next_month == month + 1);
    }
    count_is_positive(year, month);
    count_is_positive(next_year, next_month);
    let before = day_count(year, month);
    let after = day_count(next_year, next_month);
    let days = month_days(year, month);
    if month == 2 {
        years_step(year);
        assert(after == before + (if is_leap(year) {
            1int
        } else {
            0
        }));
    } else {
        assert(counted_year(next_year, next_month) == counted_year(year, month));
        assert(after - before == month_offset(next_month) - month_offset(month));
    }
    assert(exists|weeks: int| #[trigger] is_weeks(before + days - after, weeks)) by {
        assert(is_weeks(before + days - after, 4) || is_weeks(before + days - after, 5)
            || is_weeks(before + days - after, 3));
    }
    let weeks = choose|weeks: int| #[trigger] is_weeks(before + days - after, weeks);
    weeks_pass(after, before + days, weeks);
    let first = before % 7;
    weeks_pass(first + days, before + days, before / 7);
}

spec fn is_weeks(days: int, weeks: int) -> bool {
    days == 7 * weeks
}

/// A page of the calendar holds every day of the month once, in order, after
/// less than a week of empty fields.
pub proof fn pages_hold_every_day(year: int, month: int, day: int)
    requires
        1 <= month <= 12,
        1 <= day <= month_days(year, month),
        weekday_of_first(year, month) >= 0,
    ensures
        0 <= weekday_of_first(year, month) < 7,
        month_page(year, month).len() == weekday_of_first(year, month) + month_days(year, month),
        month_page(year, month)[weekday_of_first(year, month) + day - 1] == Some(day as u32),
        forall|i: int|
            0 <= i < weekday_of_first(year, month) ==> #[trigger] month_page(year, month)[i]
                is None,
{
}

proof fn zeros_add_nothing(zeros: nat, s: Seq<char>)
    requires
        all_digits(s),
    ensures
        all_digits(Seq::new(zeros, |i: int| '0') + s),
        digits_value(Seq::new(zeros, |i: int| '0') + s) == digits_value(s),
    decreases zeros + s.len(),
{
    let front = Seq::new(zeros, |i: int| '0');
    let all = front + s;
    assert forall|i: int| 0 <= i < all.len() implies is_digit(#[trigger] all[i]) by {
        if i >= zeros {
            assert(all[i] == s[i - zeros]);
        }
    }
    if s.len() > 0 {
        assert(all_digits(s.drop_last())) by {
            assert forall|i: int| 0 <= i < s.drop_last().len() implies is_digit(
                #[trigger] s.drop_last()[i],
            ) by {
                assert(is_digit(s[i]));
            }
        }
        zeros_add_nothing(zeros, s.drop_last());
        assert(all.drop_last() =~= front + s.drop_last());
    } else if zeros > 0 {
        let fewer = Seq::new((zeros - 1) as nat, |i: int| '0');
        zeros_add_nothing((zeros - 1) as nat, s);
        assert(all.drop_last() =~= fewer + s);
        assert(all.last() == '0');
    } else {
        assert(all =~= s);
    }
}

/// A number with zeros in front reads as the number.
pub proof fn padded_reads_back(n: nat, width: int, max: nat)
    requires
        n <= max,
    ensures
        unsigned_value(padded(n, width), max) == Some(n),
        all_digits(padded(n, width)),
{
    crate::text::decimal_reads_back(n, max);
    let d = decimal(n);
    crate::text::decimal_digits(n);
    let zeros: nat = if d.len() < width {
        (width - d.len()) as nat
    } else {
        0
    };
    zeros_add_nothing(zeros, d);
    let s = padded(n, width);
    assert(s =~= Seq::new(zeros, |i: int| '0') + d);
    assert(is_digit(s[0]));
}

proof fn split_extends(front: Seq<char>, digits: Seq<char>, c: char)
    requires
        forall|i: int| 0 <= i < digits.len() ==> digits[i] != c,
    ensures
        split_at(front, c).len() > 0,
        split_at(front + digits, c) == split_at(front, c).update(
            split_at(front, c).len() - 1,
            split_at(front, c).last() + digits,
        ),
    decreases digits.len(),
{
    crate::text::split_joins_back(front, c);
    let pieces = split_at(front, c);
    if digits.len() == 0 {
        assert(front + digits =~= front);
        assert(pieces.last() + digits =~= pieces.last());
        assert(pieces =~= pieces.update(pieces.len() - 1, pieces.last() + digits));
    } else {
        let rest = digits.drop_last();
        split_extends(front, rest, c);
        let all = front + digits;
        assert(all.drop_last() =~= front + rest);
        assert(all.last() == digits.last());
        let before = split_at(front + rest, c);
        assert(before.last() == pieces.last() + rest);
        assert((pieces.last() + rest).push(digits.last()) =~= pieces.last() + digits);
        assert(before.update(before.len() - 1, before.last().push(digits.last()))
            =~= pieces.update(pieces.len() - 1, pieces.last() + digits));
    }
}

proof fn split_breaks(front: Seq<char>, c: char)
    ensures
        split_at(front.push(c), c) == split_at(front, c).push(Seq::<char>::empty()),
{
    assert(front.push(c).drop_last() =~= front);
}

proof fn date_is_split(year: nat, month: nat, day: nat)
    ensures
        split_at(date_text(year as int, month, day), '-') == seq![
            padded(year, 4),
            padded(month, 2),
            padded(day, 2),
        ],
{
    let y = padded(year, 4);
    let m = padded(month, 2);
    let d = padded(day, 2);
    padded_reads_back(year, 4, year);
    padded_reads_back(month, 2, month);
    padded_reads_back(day, 2, day);
    assert forall|i: int| 0 <= i < y.len() implies y[i] != '-' by {
        assert(is_digit(y[i]));
    }
    assert forall|i: int| 0 <= i < m.len() implies m[i] != '-' by {
        assert(is_digit(m[i]));
    }
    assert forall|i: int| 0 <= i < d.len() implies d[i] != '-' by {
        assert(is_digit(d[i]));
    }
    reveal_strlit("-");
    let none = Seq::<char>::empty();
    split_extends(none, y, '-');
    assert(none + y =~= y);
    assert(split_at(y, '-') =~= seq![y]);
    let a = y.push('-');
    split_breaks(y, '-');
    split_extends(a, m, '-');
    assert(none + m =~= m);
    let b = (a + m).push('-');
    assert(split_at(a + m, '-') =~= seq![y, m]);
    split_breaks(a + m, '-');
    split_extends(b, d, '-');
    assert(none + d =~= d);
    assert(split_at(b + d, '-') =~= seq![y, m, d]);
    assert(date_text(year as int, month, day) =~= b + d);
}

/// A date that was chosen reads back as it was chosen.
pub proof fn chosen_dates_read_back(year: i32, month: u32, day: u32)
    requires
        year >= 0,
    ensures
        date_of(date_text(year as int, month as nat, day as nat)) == Some((year, month, day)),
{
    padded_reads_back(year as nat, 4, i32::MAX as nat);
    padded_reads_back(month as nat, 2, u32::MAX as nat);
    padded_reads_back(day as nat, 2, u32::MAX as nat);
    date_is_split(year as nat, month as nat, day as nat);
}

/// The calendar of a note: whether it is open and the month it shows.
#[derive(Clone, Copy, Debug, PartialEq, Eq, Structural)]
pub struct DueCalendar {
    pub open: bool,
    pub year: i32,
    pub month: u32,
}

/// The calendar at the month of a due date, where the note has one.
pub open spec fn turned_to(c: DueCalendar, due_date: Option<Seq<char>>) -> DueCalendar {
    match due_date {
        Some(date) => match date_of(date) {
            Some(d) => DueCalendar { year: d.0, month: d.1, ..c },
            None => c,
        },
        None => c,
    }
}

impl DueCalendar {
    /// A closed calendar at the month of the due date, or of today.
    pub fn new(due_date: &Option<String>, year: i32, month: u32) -> (r: Self)
        ensures
            r == turned_to(DueCalendar { open: false, year, month }, opt_view(*due_date)),
    {
        let mut c = DueCalendar { open: false, year, month };
        c.turn_to(due_date);
        c
    }

    fn turn_to(&mut self, due_date: &Option<String>)
        ensures
            *final(self) == turned_to(*old(self), opt_view(*due_date)),
    {
        if let Some(date) = due_date {
            if let Some(d) = parse_due_date(date) {
                self.year = d.0;
                self.month = d.1;
            }
        }
    }

    /// Opens the calendar at the month of the due date.
    pub fn show(&mut self, due_date: &Option<String>)
        ensures
            *final(self) == (DueCalendar {
                open: true,
                ..turned_to(*old(self), opt_view(*due_date))
            }),
    {
        self.turn_to(due_date);
        self.open = true;
    }

    /// Opens the calendar at the month of the due date, or closes it.
    pub fn toggle(&mut self, due_date: &Option<String>)
        ensures
            *final(self) == (if old(self).open {
                DueCalendar { open: false, ..*old(self) }
            } else {
                DueCalendar { open: true, ..turned_to(*old(self), opt_view(*due_date)) }
            }),
    {
        if !self.open {
            self.turn_to(due_date);
        }
        self.open = !self.open;
    }

    /// Closes the calendar.
    pub fn close(&mut self)
        ensures
            *final(self) == (DueCalendar { open: false, ..*old(self) }),
    {
        self.open = false;
    }

    /// Turns to the month a number of months later.
    pub fn turn(&mut self, delta: i32)
        requires
            is_countable(old(self).year as int, old(self).month as int, delta as int),
        ensures
            (final(self).year as int, final(self).month as int) == shifted(
                old(self).year as int,
                old(self).month as int,
                delta as int,
            ),
            final(self).open == old(self).open,
    {
        let (year, month) = shift_month(self.year, self.month, delta);
        self.year = year;
        self.month = month;
    }

    /// The heading of the page.
    pub fn heading(&self) -> (r: String)
        ensures
            r@ == month_title(self.month as int) + " "@ + (if self.year < 0 {
                "-"@ + decimal((-self.year) as nat)
            } else {
                decimal(self.year as nat)
            }),
    {
        let wide: i64 = self.year as i64;
        let year = if wide < 0 {
            concat("-", &decimal_of((-wide) as u64))
        } else {
            decimal_of(wide as u64)
        };
        concat(&concat(month_name(self.month), " "), &year)
    }
}

/// The paper of a note.
pub fn note_color_background(color: NoteColor) -> (r: &'static str)
    ensures
        r@ == (match color {
            NoteColor::Yellow => "var(--color-note-yellow)"@,
            NoteColor::Pink => "var(--color-note-pink)"@,
            NoteColor::Blue => "var(--color-note-blue)"@,
            NoteColor::Green => "var(--color-note-green)"@,
            NoteColor::Lavender => "var(--color-note-lav)"@,
        }),
{
    match color {
        NoteColor::Yellow => "var(--color-note-yellow)",
        NoteColor::Pink => "var(--color-note-pink)",
        NoteColor::Blue => "var(--color-note-blue)",
        NoteColor::Green => "var(--color-note-green)",
        NoteColor::Lavender => "var(--color-note-lav)",
    }
}

/// The ink of a note.
pub fn note_color_ink(color: NoteColor) -> (r: &'static str)
    ensures
        r@ == (match color {
            NoteColor::Yellow => "var(--color-note-ink-yellow)"@,
            NoteColor::Pink => "var(--color-note-ink-pink)"@,
            NoteColor::Blue => "var(--color-note-ink-blue)"@,
            NoteColor::Green => "var(--color-note-ink-green)"@,
            NoteColor::Lavender => "var(--color-note-ink-lav)"@,
        }),
{
    match color {
        NoteColor::Yellow => "var(--color-note-ink-yellow)",
        NoteColor::Pink => "var(--color-note-ink-pink)",
        NoteColor::Blue => "var(--color-note-ink-blue)",
        NoteColor::Green => "var(--color-note-ink-green)",
        NoteColor::Lavender => "var(--color-note-ink-lav)",
    }
}

proof fn last_signs_decide(a: Seq<char>, b: Seq<char>, x: char, y: char)
    requires
        a.len() == b.len(),
    ensures
        text_less(a.push(x), b.push(y)) == (text_less(a, b) || (a == b && x < y)),
    decreases a.len(),
{
    let (p, q) = (a.push(x), b.push(y));
    if a.len() == 0 {
        assert(a =~= b);
        assert(p.subrange(1, 1) =~= Seq::<char>::empty());
        assert(q.subrange(1, 1) =~= Seq::<char>::empty());
        assert(p[0] == x && q[0] == y);
        assert(!text_less(Seq::<char>::empty(), Seq::<char>::empty()));
        assert(!text_less(a, b));
    } else {
        let (s, t) = (a.subrange(1, a.len() as int), b.subrange(1, b.len() as int));
        assert(p.subrange(1, p.len() as int) =~= s.push(x));
        assert(q.subrange(1, q.len() as int) =~= t.push(y));
        assert(p[0] == a[0] && q[0] == b[0]);
        if a[0] == b[0] {
            last_signs_decide(s, t, x, y);
            if s == t {
                assert(a =~= seq![a[0]] + s);
                assert(b =~= seq![b[0]] + t);
            }
        }
    }
}

proof fn digits_are_ordered_as_numbers(a: Seq<char>, b: Seq<char>)
    requires
        a.len() == b.len(),
        all_digits(a),
        all_digits(b),
    ensures
        text_less(a, b) == (digits_value(a) < digits_value(b)),
        (a == b) == (digits_value(a) == digits_value(b)),
    decreases a.len(),
{
    if a.len() == 0 {
        assert(a =~= b);
    } else {
        let (s, t) = (a.drop_last(), b.drop_last());
        assert(a =~= s.push(a.last()));
        assert(b =~= t.push(b.last()));
        assert(is_digit(a[a.len() - 1]) && is_digit(b[b.len() - 1]));
        assert forall|i: int| 0 <= i < s.len() implies is_digit(#[trigger] s[i]) by {
            assert(s[i] == a[i]);
        }
        assert forall|i: int| 0 <= i < t.len() implies is_digit(#[trigger] t[i]) by {
            assert(t[i] == b[i]);
        }
        digits_are_ordered_as_numbers(s, t);
        last_signs_decide(s, t, a.last(), b.last());
        if a == b {
            assert(s == t);
        }
        if digits_value(a) == digits_value(b) {
            assert(digits_value(s) == digits_value(t));
            assert(a.last() as u32 == b.last() as u32);
            assert(a.last() == b.last());
        }
    }
}

proof fn first_parts_decide(a: Seq<char>, b: Seq<char>, x: Seq<char>, y: Seq<char>)
    requires
        a.len() == b.len(),
    ensures
        text_less(a + x, b + y) == (text_less(a, b) || (a == b && text_less(x, y))),
    decreases a.len(),
{
    let (p, q) = (a + x, b + y);
    if a.len() == 0 {
        assert(a =~= b);
        assert(p =~= x);
        assert(q =~= y);
    } else {
        let (s, t) = (a.subrange(1, a.len() as int), b.subrange(1, b.len() as int));
        assert(p.subrange(1, p.len() as int) =~= s + x);
        assert(q.subrange(1, q.len() as int) =~= t + y);
        assert(p[0] == a[0] && q[0] == b[0]);
        if a[0] == b[0] {
            first_parts_decide(s, t, x, y);
            if s == t {
                assert(a =~= seq![a[0]] + s);
                assert(b =~= seq![b[0]] + t);
            }
        }
    }
}

proof fn padded_width(n: nat, width: int)
    requires
        width == 2 && n < 100 || width == 4 && n < 10_000,
    ensures
        padded(n, width).len() == width,
{
    reveal_with_fuel(decimal, 4);
}

/// A note that is not done is overdue where its date lies before today: an
/// earlier year, or an earlier month of the year, or an earlier day of the month.
pub proof fn notes_are_overdue_after_their_date(
    status: NoteStatus,
    year: i32,
    month: u32,
    day: u32,
    this_year: i32,
    this_month: u32,
    this_day: u32,
)
    requires
        0 <= year < 10_000,
        month < 100,
        day < 100,
        0 <= this_year < 10_000,
        this_month < 100,
        this_day < 100,
    ensures
        is_late(
            Some(date_text(year as int, month as nat, day as nat)),
            status,
            date_text(this_year as int, this_month as nat, this_day as nat),
        ) == (status != NoteStatus::Done && (year < this_year || (year == this_year && (month
            < this_month || (month == this_month && day < this_day))))),
{
    let (y, m, d) = (
        padded(year as nat, 4),
        padded(month as nat, 2),
        padded(day as nat, 2),
    );
    let (ty, tm, td) = (
        padded(this_year as nat, 4),
        padded(this_month as nat, 2),
        padded(this_day as nat, 2),
    );
    padded_is_ordered(year as nat, this_year as nat, 4);
    padded_is_ordered(month as nat, this_month as nat, 2);
    padded_is_ordered(day as nat, this_day as nat, 2);
    reveal_strlit("-");
    let dash = "-"@;
    assert(date_text(year as int, month as nat, day as nat) =~= y + (dash + (m + (dash + d))));
    assert(date_text(this_year as int, this_month as nat, this_day as nat) =~= ty + (dash + (tm + (
    dash + td))));
    first_parts_decide(y, ty, dash + (m + (dash + d)), dash + (tm + (dash + td)));
    crate::text::text_less_is_a_strict_order(dash, dash, dash);
    first_parts_decide(dash, dash, m + (dash + d), tm + (dash + td));
    first_parts_decide(m, tm, dash + d, dash + td);
    first_parts_decide(dash, dash, d, td);
    chosen_dates_read_back(year, month, day);
}

proof fn padded_is_ordered(n: nat, m: nat, width: int)
    requires
        width == 2 && n < 100 && m < 100 || width == 4 && n < 10_000 && m < 10_000,
    ensures
        padded(n, width).len() == padded(m, width).len(),
        text_less(padded(n, width), padded(m, width)) == (n < m),
        (padded(n, width) == padded(m, width)) == (n == m),
{
    padded_width(n, width);
    padded_width(m, width);
    padded_reads_back(n, width, n);
    padded_reads_back(m, width, m);
    let (a, b) = (padded(n, width), padded(m, width));
    assert(is_digit(a[0]) && is_digit(b[0]));
    digits_are_ordered_as_numbers(a, b);
}

/// What has no date, or none that can be read, is never overdue.
pub proof fn undated_notes_are_not_overdue(status: NoteStatus, today: Seq<char>, date: Seq<char>)
    ensures
        !is_late(None, status, today),
        date_of(date) is None ==> !is_late(Some(date), status, today),
        !is_late(Some(date), NoteStatus::Done, today),
        split_at(date, '-').len() < 3 ==> date_of(date) is None,
{
}

/// The label of a date names its month and its day, and says where it is
/// overdue; a note without a date asks for one.
pub proof fn labels_name_the_day(year: nat, month: nat, day: nat, overdue: bool, date: Seq<char>)
    requires
        1 <= month <= 12,
    ensures
        due_label(None, overdue) == "add due"@,
        due_label(Some(date_text(year as int, month, day)), overdue) == (if overdue {
            "overdue · "@
        } else {
            "due "@
        }) + month_title(month as int).take(3) + " "@ + padded(day, 2),
        split_at(date, '-').len() < 3 ==> due_label(Some(date), overdue) == date,
{
    date_is_split(year, month, day);
    short_months_are_short(month);
}

/// The short name of a month is the beginning of its name, under its number in
/// two digits.
pub proof fn short_months_are_short(month: nat)
    requires
        1 <= month <= 12,
    ensures
        short_month(padded(month, 2)) == Some(month_title(month as int).take(3)),
{
    reveal_with_fuel(decimal, 3);
    reveal_strlit("01");
    reveal_strlit("02");
    reveal_strlit("03");
    reveal_strlit("04");
    reveal_strlit("05");
    reveal_strlit("06");
    reveal_strlit("07");
    reveal_strlit("08");
    reveal_strlit("09");
    reveal_strlit("10");
    reveal_strlit("11");
    reveal_strlit("12");
    let p = padded(month, 2);
    padded_width(month, 2);
    assert(p.len() == 2);
    if month < 10 {
        assert(p[0] == '0' && p[1] == crate::text::digit(month));
    } else {
        assert(p[0] == '1' && p[1] == crate::text::digit((month - 10) as nat));
    }
    if month == 1 {
        assert(p =~= "01"@);
        reveal_strlit("Jan");
        reveal_strlit("January");
        assert("January"@.take(3) =~= "Jan"@);
    } else if month == 2 {
        assert(p =~= "02"@);
        reveal_strlit("Feb");
        reveal_strlit("February");
        assert("February"@.take(3) =~= "Feb"@);
    } else if month == 3 {
        assert(p =~= "03"@);
        reveal_strlit("Mar");
        reveal_strlit("March");
        assert("March"@.take(3) =~= "Mar"@);
    } else if month == 4 {
        assert(p =~= "04"@);
        reveal_strlit("Apr");
        reveal_strlit("April");
        assert("April"@.take(3) =~= "Apr"@);
    } else if month == 5 {
        assert(p =~= "05"@);
        reveal_strlit("May");
        assert("May"@.take(3) =~= "May"@);
    } else if month == 6 {
        assert(p =~= "06"@);
        reveal_strlit("Jun");
        reveal_strlit("June");
        assert("June"@.take(3) =~= "Jun"@);
    } else if month == 7 {
        assert(p =~= "07"@);
        reveal_strlit("Jul");
        reveal_strlit("July");
        assert("July"@.take(3) =~= "Jul"@);
    } else if month == 8 {
        assert(p =~= "08"@);
        reveal_strlit("Aug");
        reveal_strlit("August");
        assert("August"@.take(3) =~= "Aug"@);
    } else if month == 9 {
        assert(p =~= "09"@);
        reveal_strlit("Sep");
        reveal_strlit("September");
        assert("September"@.take(3) =~= "Sep"@);
    } else if month == 10 {
        assert(p =~= "10"@);
        reveal_strlit("Oct");
        reveal_strlit("October");
        assert("October"@.take(3) =~= "Oct"@);
    } else if month == 11 {
        assert(p =~= "11"@);
        reveal_strlit("Nov");
        reveal_strlit("November");
        assert("November"@.take(3) =~= "Nov"@);
    } else {
        assert(p =~= "12"@);
        reveal_strlit("Dec");
        reveal_strlit("December");
        assert("December"@.take(3) =~= "Dec"@);
    }
}

/// A month has thirty or thirty-one days, in turns that break in August, and
/// February one or two less than thirty; it is longer every fourth year, save
/// the centuries that four hundred does not divide.
pub proof fn months_have_their_days(year: int, month: int)
    requires
        1 <= month <= 12,
    ensures
        month != 2 && month <= 7 ==> month_days(year, month) == 30 + month % 2,
        month >= 8 ==> month_days(year, month) == 31 - month % 2,
        month_days(year, 2) == 28 || month_days(year, 2) == 29,
        year % 4 != 0 ==> month_days(year, 2) == 28,
        year % 100 == 0 && year % 400 != 0 ==> month_days(year, 2) == 28,
        year % 4 == 0 && year % 100 != 0 ==> month_days(year, 2) == 29,
        year % 400 == 0 ==> month_days(year, 2) == 29,
{
    if year % 400 == 0 {
        assert(year % 4 == 0) by {
            vstd::arithmetic::div_mod::lemma_mod_mod(year, 4, 100);
        }
    }
}

/// Every four hundred years the calendar is the same, and the first day of such
/// a span is a Saturday.
pub proof fn calendars_repeat(spans: int)
    requires
        spans >= 1,
    ensures
        weekday_of_first(400 * spans, 1) == 6,
{
    let y = 400 * spans - 1;
    assert(y / 4 == 100 * spans - 1);
    assert(y / 100 == 4 * spans - 1);
    assert(y / 400 == spans - 1);
    assert(day_count(400 * spans, 1) == 497 * spans - 1);
    let count = 497 * spans - 1;
    assert(count / 7 == 71 * spans - 1);
}

/// A month is shifted to the month that lies so many months after it.
pub proof fn shifted_months_lie_apart(year: int, month: int, delta: int)
    ensures
        ({
            let (y, m) = shifted(year, month, delta);
            &&& 1 <= m <= 12
            &&& (y * 12 + m) - (year * 12 + month) == delta
        }),
{
}

/// The calendar turns to the month of a date that can be read, and else stays.
pub proof fn calendars_turn_to_the_date(c: DueCalendar, year: i32, month: u32, day: u32, date: Seq<char>)
    requires
        year >= 0,
    ensures
        turned_to(c, Some(date_text(year as int, month as nat, day as nat))) == (DueCalendar {
            open: c.open,
            year,
            month,
        }),
        turned_to(c, None) == c,
        date_of(date) is None ==> turned_to(c, Some(date)) == c,
        turned_to(c, Some(date)).open == c.open,
{
    chosen_dates_read_back(year, month, day);
}

/// Every month of a year of the common era has a page, and what is no month has
/// none.
pub proof fn ordinary_months_have_a_page(year: int, month: int)
    ensures
        1 <= month <= 12 && 0 <= year <= 1_717_986_918 ==> has_page(year, month),
        month < 1 || month > 12 ==> !has_page(year, month),
{
    if 1 <= month <= 12 && 0 <= year <= 1_717_986_918 {
        count_is_positive(year, month);
    }
}

/// The calendar can be turned over hundreds of thousands of years.
pub proof fn ordinary_months_can_be_shifted(year: int, month: int, delta: int)
    requires
        -100_000_000 <= year <= 100_000_000,
        1 <= month <= 12,
        -100_000_000 <= delta <= 100_000_000,
    ensures
        is_countable(year, month, delta),
        is_countable(shifted(year, month, delta).0, shifted(year, month, delta).1, -delta),
{
}

} // verus!
