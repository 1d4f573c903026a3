//! A calendar: reading the year and the month that were asked for.

use crate::date::{
    date_exists, days_in_month, is_date, is_weekday_number, paint_reversed, previous_day,
    reversed, weekday_from_sunday, weekday_number, Date, MAX_YEAR,
};
use crate::decimal::Decimal;
use crate::failure::Failure;
use crate::split::texts;
use crate::text::{
    center, centered, decimal_string, decimal_text, int_string, int_text, join, join_with,
    lowercase, pad_end, pad_left, pad_right, pad_start, push_repeated, repeated, starts_with,
};
use vstd::string::StringExecFns;
use vstd::prelude::*;

verus! {

/// The message for text that writes no integer.
pub open spec fn invalid_integer(text: Seq<char>) -> Seq<char> {
    "Invalid integer \""@ + text + "\""@
}

/// Reads an integer of the type `T`.
pub fn parse_int<T: Decimal>(val: &str) -> (r: Result<T, Failure>)
    ensures
        match T::read_spec(val@) {
            Some(n) => r == Ok::<T, Failure>(n),
            None => r is Err && r->Err_0@ == invalid_integer(val@),
        },
{
    match T::read(val) {
        Some(n) => Ok(n),
        None => Err(Failure::about("Invalid integer \"", val, "\"")),
    }
}

/// The message for a year out of range.
pub open spec fn year_out_of_range(text: Seq<char>) -> Seq<char> {
    "year \""@ + text + "\" not in the range 1 through 9999"@
}

/// The year that `text` writes, or the message that says why it writes
/// none: a year is an integer from 1 through 9999.
pub open spec fn year_spec(text: Seq<char>) -> Result<i32, Seq<char>> {
    match i32::read_spec(text) {
        Some(n) => if 1 <= n <= 9999 {
            Ok(n)
        } else {
            Err(year_out_of_range(text))
        },
        None => Err(invalid_integer(text)),
    }
}

/// Reads a year.
pub fn parse_year(year: &str) -> (r: Result<i32, Failure>)
    ensures
        match year_spec(year@) {
            Ok(n) => r == Ok::<i32, Failure>(n),
            Err(message) => r is Err && r->Err_0@ == message,
        },
{
    match parse_int::<i32>(year) {
        Ok(num) => {
            if 1 <= num && num <= 9999 {
                Ok(num)
            } else {
                Err(Failure::about("year \"", year, "\" not in the range 1 through 9999"))
            }
        },
        Err(failure) => Err(failure),
    }
}

/// The names of the months.
pub open spec fn month_names() -> Seq<Seq<char>> {
    seq![
        "January"@,
        "February"@,
        "March"@,
        "April"@,
        "May"@,
        "June"@,
        "July"@,
        "August"@,
        "September"@,
        "October"@,
        "November"@,
        "December"@,
    ]
}

/// The name of the month `month`, counted from one.
pub fn month_name(month: u32) -> (name: &'static str)
    requires
        1 <= month <= 12,
    ensures
        name@ == month_names()[month - 1],
{
    match month {
        1 => "January",
        2 => "February",
        3 => "March",
        4 => "April",
        5 => "May",
        6 => "June",
        7 => "July",
        8 => "August",
        9 => "September",
        10 => "October",
        11 => "November",
        _ => "December",
    }
}

/// The first month from `from` on, counted from one, whose name in lower
/// case begins with `lower`.
pub open spec fn named_month(lower: Seq<char>, from: nat) -> Option<u32>
    decreases 13 - from,
{
    if from < 1 || from > 12 {
        None
    } else if lower.is_prefix_of(lowercase(month_names()[from - 1])) {
        Some(from as u32)
    } else {
        named_month(lower, from + 1)
    }
}

/// The message for a month out of range.
pub open spec fn month_out_of_range(text: Seq<char>) -> Seq<char> {
    "month \""@ + text + "\" not in the range 1 through 12"@
}

/// The message for text that names no month.
pub open spec fn invalid_month(text: Seq<char>) -> Seq<char> {
    "Invalid month \""@ + text + "\""@
}

/// The month that `text` writes, or the message that says why it writes
/// none: a month is a number from 1 through 12, or text that begins the
/// name of a month, whatever its case.
pub open spec fn month_spec(text: Seq<char>) -> Result<u32, Seq<char>> {
    match u32::read_spec(text) {
        Some(n) => if 1 <= n <= 12 {
            Ok(n)
        } else {
            Err(month_out_of_range(text))
        },
        None => match named_month(lowercase(text), 1) {
            Some(n) => Ok(n),
            None => Err(invalid_month(text)),
        },
    }
}

/// Reads a month.
pub fn parse_month(month: &str) -> (r: Result<u32, Failure>)
    ensures
        match month_spec(month@) {
            Ok(n) => r == Ok::<u32, Failure>(n),
            Err(message) => r is Err && r->Err_0@ == message,
        },
{
    match parse_int::<u32>(month) {
        Ok(num) => {
            if 1 <= num && num <= 12 {
                Ok(num)
            } else {
                Err(Failure::about("month \"", month, "\" not in the range 1 through 12"))
            }
        },
        Err(_) => {
            let lower = month.to_lowercase();
            let mut index: u32 = 1;
            while index <= 12
                invariant
                    1 <= index <= 13,
                    u32::read_spec(month@) is None,
                    lower@ == lowercase(month@),
                    named_month(lower@, 1) == named_month(lower@, index as nat),
                decreases 13 - index,
            {
                let name = month_name(index).to_lowercase();
                let found = starts_with(name.as_str(), lower.as_str());
                proof {
                    assert(name@ == lowercase(month_names()[index - 1]));
                    assert(named_month(lower@, index as nat) == if found {
                        Some(index)
                    } else {
                        named_month(lower@, (index + 1) as nat)
                    });
                }
                if found {
                    return Ok(index);
                }
                index = index + 1;
            }
            Err(Failure::about("Invalid month \"", month, "\""))
        },
    }
}

/// The last day of the month `month` of `year`.
pub open spec fn last_day_spec(year: i32, month: u32) -> Date {
    Date { year, month, day: days_in_month(year as int, month as int) as u32 }
}

/// Finds the last day of a month as the day before the first of the next.
pub fn last_day_in_month(year: i32, month: u32) -> (last: Date)
    requires
        is_date(year as int, month as int, 1),
        month < 12 || year < MAX_YEAR,
    ensures
        last == last_day_spec(year, month),
{
    let next = if date_exists(year, month + 1, 1) {
        Date { year, month: month + 1, day: 1 }
    } else {
        Date { year: year + 1, month: 1, day: 1 }
    };
    match previous_day(next) {
        Some(last) => last,
        None => Date { year, month, day: 1 },
    }
}

/// What the calendar shows: a month, or the whole year where there is
/// none, and the year.
pub open spec fn shown_spec(
    month: Option<u32>,
    year: Option<i32>,
    show_current_year: bool,
    today: Date,
) -> (Option<u32>, i32) {
    if show_current_year {
        (None, today.year)
    } else if month is None && year is None {
        (Some(today.month), today.year)
    } else {
        (
            month,
            match year {
                Some(y) => y,
                None => today.year,
            },
        )
    }
}

/// Chooses what the calendar shows, from what was asked for and the day
/// that it is.
pub fn shown(month: Option<u32>, year: Option<i32>, show_current_year: bool, today: Date) -> (r: (
    Option<u32>,
    i32,
))
    ensures
        r == shown_spec(month, year, show_current_year, today),
{
    if show_current_year {
        (None, today.year)
    } else if month.is_none() && year.is_none() {
        (Some(today.month), today.year)
    } else {
        (
            month,
            match year {
                Some(y) => y,
                None => today.year,
            },
        )
    }
}

/// The cell of the day `day` of a month: its number in two characters,
/// in reverse video where it is today.
pub open spec fn day_cell(day: nat, is_today: bool) -> Seq<char> {
    if is_today {
        reversed(pad_left(decimal_text(day), 2))
    } else {
        pad_left(decimal_text(day), 2)
    }
}

/// The cells of a month: an empty one for each day of the week before its
/// first day, then one for each of its days.
pub open spec fn month_cells(year: i32, month: u32, today: Date, first_weekday: u32) -> Seq<
    Seq<char>,
> {
    let days = days_in_month(year as int, month as int);
    Seq::new(
        (first_weekday - 1 + days) as nat,
        |i: int|
            if i < first_weekday - 1 {
                "  "@
            } else {
                day_cell(
                    (i - (first_weekday - 1) + 1) as nat,
                    today.year == year && today.month == month && today.day == i - (first_weekday
                        - 1) + 1,
                )
            },
    )
}

/// The first line of a month: its name, and the year where that is
/// shown, in the middle of twenty characters and before two spaces.
pub open spec fn title_line(year: i32, month: u32, print_year: bool) -> Seq<char> {
    centered(
        if print_year {
            month_names()[month - 1] + " "@ + int_text(year as int)
        } else {
            month_names()[month - 1]
        },
        20,
    ) + "  "@
}

/// The line of a week: its cells with a space between each two, brought
/// to twenty characters, before two spaces.
pub open spec fn week_line(week: Seq<Seq<char>>) -> Seq<char> {
    pad_right(join_with(week, " "@), 20) + "  "@
}

/// The week `w` of `cells`, counted from zero: up to seven of them.
pub open spec fn week_of(cells: Seq<Seq<char>>, w: int) -> Seq<Seq<char>> {
    cells.subrange(
        7 * w,
        if 7 * w + 7 < cells.len() {
            7 * w + 7
        } else {
            cells.len() as int
        },
    )
}

/// How many weeks `cells` fill.
pub open spec fn week_count(cells: Seq<Seq<char>>) -> nat {
    ((cells.len() + 6) / 7) as nat
}

/// The eight lines of a month, where its first day is the
/// `first_weekday`-th of the week: the title, the days of the week, the
/// weeks, and empty lines for the rest.
pub open spec fn month_lines(
    year: i32,
    month: u32,
    print_year: bool,
    today: Date,
    first_weekday: u32,
) -> Seq<Seq<char>> {
    let cells = month_cells(year, month, today, first_weekday);
    Seq::new(
        8,
        |i: int|
            if i == 0 {
                title_line(year, month, print_year)
            } else if i == 1 {
                "Su Mo Tu We Th Fr Sa  "@
            } else if i - 2 < week_count(cells) {
                week_line(week_of(cells, i - 2))
            } else {
                repeated(' ', 22)
            },
    )
}

/// Writes the cells of a month.
fn format_cells(year: i32, month: u32, today: &Date, first_weekday: u32, days: u32) -> (cells: Vec<
    String,
>)
    requires
        1 <= first_weekday <= 7,
        days == days_in_month(year as int, month as int),
    ensures
        texts(cells@) == month_cells(year, month, *today, first_weekday),
{
    let mut cells: Vec<String> = Vec::new();
    let mut blank: u32 = 1;
    while blank < first_weekday
        invariant
            1 <= blank <= first_weekday <= 7,
            cells@.len() == blank - 1,
            forall|i: int| 0 <= i < cells@.len() ==> (#[trigger] cells@[i])@ == "  "@,
        decreases first_weekday - blank,
    {
        cells.push(String::from_str("  "));
        blank = blank + 1;
    }
    let mut day: u32 = 1;
    while day <= days
        invariant
            1 <= first_weekday <= 7,
            1 <= day <= days + 1,
            days == days_in_month(year as int, month as int),
            cells@.len() == first_weekday - 1 + day - 1,
            forall|i: int|
                0 <= i < cells@.len() ==> (#[trigger] cells@[i])@ == month_cells(
                    year,
                    month,
                    *today,
                    first_weekday,
                )[i],
        decreases days + 1 - day,
    {
        let number = decimal_string(day as u64);
        let plain = pad_start(number.as_str(), 2);
        if today.year == year && today.month == month && today.day == day {
            cells.push(paint_reversed(plain.as_str()));
        } else {
            cells.push(plain);
        }
        day = day + 1;
    }
    proof {
        assert(texts(cells@) =~= month_cells(year, month, *today, first_weekday));
    }
    cells
}

/// Writes the eight lines of a month.
pub fn format_month(year: i32, month: u32, print_year: bool, today: &Date) -> (lines: Vec<String>)
    requires
        is_date(year as int, month as int, 1),
        month < 12 || year < MAX_YEAR,
    ensures
        texts(lines@) == month_lines(
            year,
            month,
            print_year,
            *today,
            weekday_from_sunday(year, month, 1),
        ),
        is_weekday_number(weekday_from_sunday(year, month, 1)),
{
    let first_weekday = match weekday_number(year, month, 1) {
        Some(number) => number,
        None => 1,
    };
    let last = last_day_in_month(year, month);
    let cells = format_cells(year, month, today, first_weekday, last.day);
    let ghost all = texts(cells@);
    let ghost expected = month_lines(year, month, print_year, *today, first_weekday);
    let mut lines: Vec<String> = Vec::new();
    let mut title = String::from_str(month_name(month));
    if print_year {
        title.append(" ");
        title.append(int_string(year as i64).as_str());
    }
    let mut title_line = center(title.as_str(), 20);
    title_line.append("  ");
    lines.push(title_line);
    lines.push(String::from_str("Su Mo Tu We Th Fr Sa  "));
    let n = cells.len();
    let mut start: usize = 0;
    while start < n
        invariant
            n == cells@.len() <= 38,
            all == texts(cells@),
            all == month_cells(year, month, *today, first_weekday),
            expected == month_lines(year, month, print_year, *today, first_weekday),
            start % 7 == 0,
            start <= n + 6,
            lines@.len() == 2 + start / 7,
            forall|i: int| 0 <= i < lines@.len() ==> (#[trigger] lines@[i])@ == expected[i],
        decreases n + 7 - start,
    {
        let end = if start + 7 < n {
            start + 7
        } else {
            n
        };
        let mut week: Vec<String> = Vec::new();
        let mut k: usize = start;
        while k < end
            invariant
                start <= k <= end <= n == cells@.len(),
                week@.len() == k - start,
                forall|i: int|
                    0 <= i < week@.len() ==> (#[trigger] week@[i])@ == cells@[start + i]@,
            decreases end - k,
        {
            week.push(cells[k].clone());
            k = k + 1;
        }
        proof {
            assert(texts(week@) =~= week_of(all, start as int / 7));
        }
        let mut line = pad_end(join(&week, " ").as_str(), 20);
        line.append("  ");
        lines.push(line);
        start = start + 7;
    }
    while lines.len() < 8
        invariant
            expected == month_lines(year, month, print_year, *today, first_weekday),
            2 + week_count(month_cells(year, month, *today, first_weekday)) <= lines@.len() <= 8,
            forall|i: int| 0 <= i < lines@.len() ==> (#[trigger] lines@[i])@ == expected[i],
        decreases 8 - lines@.len(),
    {
        let mut filler = String::new();
        push_repeated(&mut filler, ' ', 22);
        proof {
            assert(filler@ =~= repeated(' ', 22));
        }
        lines.push(filler);
    }
    proof {
        assert(texts(lines@) =~= expected);
    }
    lines
}

/// The eight lines of the month `month` of `year` without the year in
/// its title.
pub open spec fn plain_month(year: i32, month: u32, today: Date) -> Seq<Seq<char>> {
    month_lines(year, month, false, today, weekday_from_sunday(year, month, 1))
}

/// The lines of a whole year: the year at the right of thirty-two
/// characters, then four rows of three months side by side, with an
/// empty line behind each row but the last.
pub open spec fn year_lines(year: i32, today: Date) -> Seq<Seq<char>> {
    Seq::new(
        36,
        |i: int|
            if i == 0 {
                pad_left(int_text(year as int), 32)
            } else if (i - 1) % 9 == 8 {
                Seq::empty()
            } else {
                let first = (3 * ((i - 1) / 9) + 1) as u32;
                let k = (i - 1) % 9;
                plain_month(year, first, today)[k] + plain_month(
                    year,
                    (first + 1) as u32,
                    today,
                )[k] + plain_month(year, (first + 2) as u32, today)[k]
            },
    )
}

/// Writes the lines of a whole year.
pub fn format_year(year: i32, today: &Date) -> (lines: Vec<String>)
    requires
        is_date(year as int, 1, 1),
        year < MAX_YEAR,
    ensures
        texts(lines@) == year_lines(year, *today),
{
    let ghost expected = year_lines(year, *today);
    let mut lines: Vec<String> = Vec::new();
    lines.push(pad_start(int_string(year as i64).as_str(), 32));
    let mut row: u32 = 0;
    while row < 4
        invariant
            row <= 4,
            is_date(year as int, 1, 1),
            year < MAX_YEAR,
            expected == year_lines(year, *today),
            lines@.len() == if row == 4 {
                36nat
            } else {
                (1 + 9 * row) as nat
            },
            forall|i: int| 0 <= i < lines@.len() ==> (#[trigger] lines@[i])@ == expected[i],
        decreases 4 - row,
    {
        let first = 3 * row + 1;
        let left = format_month(year, first, false, today);
        let middle = format_month(year, first + 1, false, today);
        let right = format_month(year, first + 2, false, today);
        let mut k: usize = 0;
        while k < 8
            invariant
                k <= 8,
                row < 4,
                first == 3 * row + 1,
                expected == year_lines(year, *today),
                texts(left@) == plain_month(year, first, *today),
                texts(middle@) == plain_month(year, (first + 1) as u32, *today),
                texts(right@) == plain_month(year, (first + 2) as u32, *today),
                lines@.len() == 1 + 9 * row + k,
                forall|i: int| 0 <= i < lines@.len() ==> (#[trigger] lines@[i])@ == expected[i],
            decreases 8 - k,
        {
            proof {
                assert(texts(left@).len() == 8 && texts(middle@).len() == 8 && texts(
                    right@,
                ).len() == 8);
                assert(texts(left@)[k as int] == left@[k as int]@);
                assert(texts(middle@)[k as int] == middle@[k as int]@);
                assert(texts(right@)[k as int] == right@[k as int]@);
                let i = 1 + 9 * row + k;
                assert((i - 1) / 9 == row && (i - 1) % 9 == k);
            }
            let mut line = left[k].clone();
            line.append(middle[k].as_str());
            line.append(right[k].as_str());
            lines.push(line);
            k = k + 1;
        }
        if row < 3 {
            proof {
                let i = 1 + 9 * row + 8;
                assert((i - 1) % 9 == 8);
            }
            lines.push(String::new());
        }
        row = row + 1;
    }
    proof {
        assert(texts(lines@) =~= expected);
    }
    lines
}

/// The lines of the calendar: those of the month, or those of the whole
/// year where there is no month.
pub open spec fn calendar_lines(month: Option<u32>, year: i32, today: Date) -> Seq<Seq<char>> {
    match month {
        Some(m) => month_lines(year, m, true, today, weekday_from_sunday(year, m, 1)),
        None => year_lines(year, today),
    }
}

/// Writes the lines of the calendar.
pub fn calendar(month: Option<u32>, year: i32, today: &Date) -> (lines: Vec<String>)
    requires
        is_date(year as int, 1, 1),
        match month {
            Some(m) => 1 <= m <= 12 && (m < 12 || year < MAX_YEAR),
            None => year < MAX_YEAR,
        },
    ensures
        texts(lines@) == calendar_lines(month, year, *today),
{
    match month {
        Some(m) => format_month(year, m, true, today),
        None => format_year(year, today),
    }
}

} // verus!
