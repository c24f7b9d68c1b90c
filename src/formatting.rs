use vstd::prelude::*;

verus! {

/// The character of a decimal digit.
pub open spec fn digit_char(d: nat) -> char {
    if d == 0 {
        '0'
    } else if d == 1 {
        '1'
    } else if d == 2 {
        '2'
    } else if d == 3 {
        '3'
    } else if d == 4 {
        '4'
    } else if d == 5 {
        '5'
    } else if d == 6 {
        '6'
    } else if d == 7 {
        '7'
    } else if d == 8 {
        '8'
    } else {
        '9'
    }
}

/// Decimal digits of `n`, most significant first, without leading zeros.
pub open spec fn decimal(n: nat) -> Seq<char>
    decreases n,
{
    if n < 10 {
        seq![digit_char(n)]
    } else {
        decimal(n / 10).push(digit_char(n % 10))
    }
}

/// Relies on `ToString` for `u32` (through its `Display`): the plain decimal
/// digits, with no sign, padding or separators.
#[verifier::external_body]
fn decimal_string(n: u32) -> (r: String)
    ensures
        r@ == decimal(n as nat),
{
    n.to_string()
}

/// An amount of dollars written as `$` followed by its digits.
pub fn format_money(amount: u32) -> (r: String)
    ensures
        r@ == seq!['$'] + decimal(amount as nat),
{
    let digits = decimal_string(amount);
    let mut s = String::from_str("$");
    s.append(digits.as_str());
    proof {
        reveal_strlit("$");
    }
    s
}

/// English name of the month at `i` (0 for January to 11 for December).
pub open spec fn month_name(i: int) -> Seq<char> {
    if i == 0 {
        "January"@
    } else if i == 1 {
        "February"@
    } else if i == 2 {
        "March"@
    } else if i == 3 {
        "April"@
    } else if i == 4 {
        "May"@
    } else if i == 5 {
        "June"@
    } else if i == 6 {
        "July"@
    } else if i == 7 {
        "August"@
    } else if i == 8 {
        "September"@
    } else if i == 9 {
        "October"@
    } else if i == 10 {
        "November"@
    } else {
        "December"@
    }
}

/// Index of the month name shown for `month`: months 1 to 12 map to 0 to 11,
/// 0 maps to January, and larger values wrap around.
pub open spec fn month_index(month: u8) -> int {
    (if month == 0 {
        0
    } else {
        month - 1
    }) % 12
}

fn month_name_str(i: u8) -> (r: &'static str)
    requires
        i < 12,
    ensures
        r@ == month_name(i as int),
{
    match i {
        0 => "January",
        1 => "February",
        2 => "March",
        3 => "April",
        4 => "May",
        5 => "June",
        6 => "July",
        7 => "August",
        8 => "September",
        9 => "October",
        10 => "November",
        _ => "December",
    }
}

/// A date written as `<Month> <day>, <year>`.
pub fn format_date(month: u8, day: u8, year: u16) -> (r: String)
    ensures
        r@ == month_name(month_index(month)) + seq![' '] + decimal(day as nat) + seq![',', ' ']
            + decimal(year as nat),
{
    let before: u8 = if month == 0 { 0 } else { month - 1 };
    let idx: u8 = before % 12;
    let mut s = String::from_str(month_name_str(idx));
    s.append(" ");
    let d = decimal_string(day as u32);
    s.append(d.as_str());
    s.append(", ");
    let y = decimal_string(year as u32);
    s.append(y.as_str());
    proof {
        reveal_strlit(" ");
        reveal_strlit(", ");
    }
    s
}

} // verus!
