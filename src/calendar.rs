use vstd::prelude::*;

verus! {

/// Leap years are exactly the years divisible by 4; century years get no exception.
pub open spec fn is_leap(year: int) -> bool {
    year % 4 == 0
}

/// Length of `month` (1 to 12) in `year`.
pub open spec fn days_in_month(month: int, year: int) -> int {
    if month == 2 {
        if is_leap(year) {
            29
        } else {
            28
        }
    } else if month == 4 || month == 6 || month == 9 || month == 11 {
        30
    } else {
        31
    }
}

/// A calendar date as (day, month, year).
pub type DateTriple = (int, int, int);

pub open spec fn valid_date(d: DateTriple) -> bool {
    1 <= d.1 <= 12 && 1 <= d.0 <= days_in_month(d.1, d.2)
}

/// The first day of the month after the one `d` lies in.
pub open spec fn first_of_next_month(d: DateTriple) -> DateTriple {
    if d.1 < 12 {
        (1, d.1 + 1, d.2)
    } else {
        (1, 1, d.2 + 1)
    }
}

/// The day after `d`.
pub open spec fn next_day(d: DateTriple) -> DateTriple {
    if d.0 < days_in_month(d.1, d.2) {
        (d.0 + 1, d.1, d.2)
    } else {
        first_of_next_month(d)
    }
}

/// The date `n` days after `d`.
pub open spec fn advance(d: DateTriple, n: nat) -> DateTriple
    decreases n,
{
    if n == 0 {
        d
    } else {
        advance(next_day(d), (n - 1) as nat)
    }
}

/// Advancing by `a` and then by `b` days is advancing by `a + b` days.
pub proof fn lemma_advance_add(d: DateTriple, a: nat, b: nat)
    ensures
        advance(d, a + b) == advance(advance(d, a), b),
    decreases a,
{
    if a > 0 {
        lemma_advance_add(next_day(d), (a - 1) as nat, b);
        assert((a + b - 1) as nat == (a - 1) as nat + b);
    }
}

/// Advancing keeps a date valid and never moves the year back.
pub proof fn lemma_advance_valid(d: DateTriple, n: nat)
    requires
        valid_date(d),
    ensures
        valid_date(advance(d, n)),
        advance(d, n).2 >= d.2,
    decreases n,
{
    if n > 0 {
        lemma_advance_valid(next_day(d), (n - 1) as nat);
    }
}

/// Advancing by at most the days left in the month stays in it, or lands on
/// the first of the next month.
pub proof fn lemma_advance_in_month(d: DateTriple, k: nat)
    requires
        valid_date(d),
        k <= days_in_month(d.1, d.2) - d.0 + 1,
    ensures
        advance(d, k) == if d.0 + k <= days_in_month(d.1, d.2) {
            (d.0 + k, d.1, d.2)
        } else {
            first_of_next_month(d)
        },
    decreases k,
{
    if k > 0 {
        if d.0 < days_in_month(d.1, d.2) {
            lemma_advance_in_month(next_day(d), (k - 1) as nat);
        } else {
            assert(advance(next_day(d), 0) == next_day(d));
        }
    }
}

/// Length of `month` (1 to 12) in `year`.
pub fn month_length(month: u8, year: u16) -> (r: u32)
    requires
        1 <= month <= 12,
    ensures
        r == days_in_month(month as int, year as int),
{
    match month {
        1 => 31,
        2 => if year % 4 == 0 {
            29
        } else {
            28
        },
        3 => 31,
        4 => 30,
        5 => 31,
        6 => 30,
        7 => 31,
        8 => 31,
        9 => 30,
        10 => 31,
        11 => 30,
        _ => 31,
    }
}

/// The date `days` days after (`day`, `month`, `year`), reached a month at a
/// time.
pub fn advance_days(day: u32, month: u8, year: u16, days: u32) -> (r: (u32, u8, u16))
    requires
        valid_date((day as int, month as int, year as int)),
        advance((day as int, month as int, year as int), days as nat).2 <= u16::MAX,
    ensures
        (r.0 as int, r.1 as int, r.2 as int) == advance((day as int, month as int, year as int), days as nat),
{
    let ghost target = advance((day as int, month as int, year as int), days as nat);
    let mut d = day;
    let mut m = month;
    let mut y = year;
    let mut remaining = days;
    while remaining > 0
        invariant
            valid_date((d as int, m as int, y as int)),
            advance((d as int, m as int, y as int), remaining as nat) == target,
            target.2 <= u16::MAX,
        decreases remaining,
    {
        let ghost cur = (d as int, m as int, y as int);
        let dim = month_length(m, y);
        let room: u32 = dim - d + 1;
        let step: u32 = if remaining < room { remaining } else { room };
        let ghost next = advance(cur, step as nat);
        proof {
            lemma_advance_in_month(cur, step as nat);
            lemma_advance_add(cur, step as nat, (remaining - step) as nat);
            lemma_advance_valid(cur, step as nat);
            lemma_advance_valid(next, (remaining - step) as nat);
        }
        d = d + step;
        remaining = remaining - step;
        if d > dim {
            d = 1;
            m = m + 1;
            if m > 12 {
                m = 1;
                y = y + 1;
            }
        }
        assert((d as int, m as int, y as int) == next);
    }
    (d, m, y)
}

} // verus!
