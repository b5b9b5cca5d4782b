//! Pure computations of the drawing layer.
//!
//! Pixel and font work happen outside the library; what is verified here is
//! everything the layout decides on plain values: the German weekday and
//! month labels, two-digit date formatting, the grouping of consecutive
//! events by month for the calendar column, and the choice of the most
//! recent todo items.

use vstd::prelude::*;

verus! {

/// Days of the week.
#[derive(Debug, Clone, Copy, PartialEq, Eq, Structural)]
pub enum Weekday {
    Monday,
    Tuesday,
    Wednesday,
    Thursday,
    Friday,
    Saturday,
    Sunday,
}

/// The two-letter German label of a weekday.
pub fn localized_weekday(weekday: Weekday) -> (r: &'static str)
    ensures
        weekday == Weekday::Monday ==> r@ == "Mo"@,
        weekday == Weekday::Tuesday ==> r@ == "Di"@,
        weekday == Weekday::Wednesday ==> r@ == "Mi"@,
        weekday == Weekday::Thursday ==> r@ == "Do"@,
        weekday == Weekday::Friday ==> r@ == "Fr"@,
        weekday == Weekday::Saturday ==> r@ == "Sa"@,
        weekday == Weekday::Sunday ==> r@ == "So"@,
{
    match weekday {
        Weekday::Monday => "Mo",
        Weekday::Tuesday => "Di",
        Weekday::Wednesday => "Mi",
        Weekday::Thursday => "Do",
        Weekday::Friday => "Fr",
        Weekday::Saturday => "Sa",
        Weekday::Sunday => "So",
    }
}

/// The three-letter German label of a month number, with a placeholder for
/// a number outside 1 to 12.
pub fn localized_month(month: i8) -> (r: &'static str)
    ensures
        month == 1 ==> r@ == "JAN"@,
        month == 2 ==> r@ == "FEB"@,
        month == 3 ==> r@ == "MÄR"@,
        month == 4 ==> r@ == "APR"@,
        month == 5 ==> r@ == "MAI"@,
        month == 6 ==> r@ == "JUN"@,
        month == 7 ==> r@ == "JUL"@,
        month == 8 ==> r@ == "AUG"@,
        month == 9 ==> r@ == "SEP"@,
        month == 10 ==> r@ == "OKT"@,
        month == 11 ==> r@ == "NOV"@,
        month == 12 ==> r@ == "DEZ"@,
        month < 1 || month > 12 ==> r@ == "???"@,
{
    match month {
        1 => "JAN",
        2 => "FEB",
        3 => "MÄR",
        4 => "APR",
        5 => "MAI",
        6 => "JUN",
        7 => "JUL",
        8 => "AUG",
        9 => "SEP",
        10 => "OKT",
        11 => "NOV",
        12 => "DEZ",
        _ => "???",
    }
}

/// The two ASCII digits of a number below one hundred, for zero-padded
/// day and month rendering.
pub fn two_digits(n: u8) -> (r: Vec<u8>)
    requires
        n <= 99,
    ensures
        r@.len() == 2,
        r@[0] == 48 + n / 10,
        r@[1] == 48 + n % 10,
{
    let mut r: Vec<u8> = Vec::new();
    r.push(48 + n / 10);
    r.push(48 + n % 10);
    r
}

/// A run of consecutive events sharing a calendar month: the month and the
/// inclusive range of event indexes it labels.
#[derive(Debug, Clone, Copy, PartialEq, Eq, Structural)]
pub struct MonthGroup {
    pub month: i8,
    pub start_index: usize,
    pub end_index: usize,
}

/// `gs` partitions `months` into maximal runs of one month each, in order.
pub open spec fn groups_cover(gs: Seq<MonthGroup>, months: Seq<i8>) -> bool {
    &&& (months.len() == 0 ==> gs.len() == 0)
    &&& (months.len() > 0 ==> gs.len() > 0 && gs[0].start_index == 0 && gs[gs.len()
        - 1].end_index == months.len() - 1)
    &&& (forall|k: int|
        0 <= k < gs.len() ==> (#[trigger] gs[k]).start_index <= gs[k].end_index < months.len())
    &&& (forall|k: int|
        0 <= k < gs.len() - 1 ==> (#[trigger] gs[k + 1]).start_index == gs[k].end_index + 1)
    &&& (forall|k: int, j: int|
        #![trigger gs[k], months[j]]
        0 <= k < gs.len() && gs[k].start_index <= j <= gs[k].end_index ==> months[j] == gs[k].month)
    &&& (forall|k: int| 0 <= k < gs.len() - 1 ==> (#[trigger] gs[k]).month != gs[k + 1].month)
}

/// Group consecutive equal entries of `months` (the months of the events to
/// draw, in display order) into labelled runs: the calendar column draws one
/// vertical month label per run.
pub fn month_groups(months: &Vec<i8>) -> (r: Vec<MonthGroup>)
    ensures
        groups_cover(r@, months@),
{
    let mut r: Vec<MonthGroup> = Vec::new();
    let n = months.len();
    if n == 0 {
        return r;
    }
    let mut current_month: i8 = months[0];
    let mut group_start: usize = 0;
    let mut i: usize = 1;
    while i < n
        invariant
            1 <= i <= n,
            n == months@.len(),
            group_start < i,
            current_month == months@[group_start as int],
            forall|j: int| group_start <= j < i ==> months@[j] == current_month,
            group_start == 0 ==> r@.len() == 0,
            group_start > 0 ==> r@.len() > 0 && r@[0].start_index == 0 && r@[r@.len()
                - 1].end_index == group_start - 1,
            forall|k: int|
                0 <= k < r@.len() ==> (#[trigger] r@[k]).start_index <= r@[k].end_index
                    < group_start,
            forall|k: int|
                0 <= k < r@.len() - 1 ==> (#[trigger] r@[k + 1]).start_index == r@[k].end_index
                    + 1,
            forall|k: int, j: int|
                #![trigger r@[k], months@[j]]
                0 <= k < r@.len() && r@[k].start_index <= j <= r@[k].end_index ==> months@[j]
                    == r@[k].month,
            forall|k: int| 0 <= k < r@.len() - 1 ==> (#[trigger] r@[k]).month != r@[k + 1].month,
            r@.len() > 0 ==> r@[r@.len() - 1].month != current_month,
        decreases n - i,
    {
        if months[i] != current_month {
            r.push(
                MonthGroup { month: current_month, start_index: group_start, end_index: i - 1 },
            );
            current_month = months[i];
            group_start = i;
        }
        i = i + 1;
    }
    r.push(MonthGroup { month: current_month, start_index: group_start, end_index: n - 1 });
    r
}

/// A copy of a byte string.
fn copy_bytes(v: &Vec<u8>) -> (r: Vec<u8>)
    ensures
        r@ == v@,
{
    let mut r: Vec<u8> = Vec::new();
    let mut i: usize = 0;
    while i < v.len()
        invariant
            i <= v@.len(),
            r@ == v@.take(i as int),
        decreases v@.len() - i,
    {
        r.push(v[i]);
        proof {
            assert(v@.take(i as int).push(v@[i as int]) =~= v@.take(i as int + 1));
        }
        i = i + 1;
    }
    proof {
        assert(v@.take(v@.len() as int) =~= v@);
    }
    r
}

/// The up-to-`limit` most recent items for the todo region, most recent
/// first: the first items of `lines` in reverse order, ready to be drawn
/// bottom-up.
pub fn recent_first(lines: &Vec<Vec<u8>>, limit: usize) -> (r: Vec<Vec<u8>>)
    ensures
        r@.len() == (if lines@.len() <= limit {
            lines@.len() as int
        } else {
            limit as int
        }),
        forall|k: int| 0 <= k < r@.len() ==> (#[trigger] r@[k])@ == lines@[r@.len() - 1 - k]@,
{
    let count = if lines.len() <= limit {
        lines.len()
    } else {
        limit
    };
    let mut r: Vec<Vec<u8>> = Vec::new();
    let mut i: usize = count;
    while i > 0
        invariant
            i <= count,
            count <= lines@.len(),
            r@.len() == count - i,
            forall|k: int| 0 <= k < r@.len() ==> (#[trigger] r@[k])@ == lines@[count - 1 - k]@,
        decreases i,
    {
        i = i - 1;
        r.push(copy_bytes(&lines[i]));
    }
    r
}

} // verus!
