use vstd::prelude::*;

verus! {

// The front matter states a date as a numeric day-month-year triple.  Posts
// are ordered by these dates, so the library models a date as the plain
// triple; rendering a date for display is left to the calendar collaborator.

#[derive(Clone, Copy, PartialEq, Eq, Structural, Debug)]
pub struct Date {
    pub day: u32,
    pub month: u32,
    pub year: i32,
}

pub open spec fn is_leap_year(y: int) -> bool {
    (y % 4 == 0 && y % 100 != 0) || y % 400 == 0
}

pub open spec fn days_in_month(y: int, m: int) -> int {
    if m == 2 {
        if is_leap_year(y) {
            29
        } else {
            28
        }
    } else if m == 4 || m == 6 || m == 9 || m == 11 {
        30
    } else {
        31
    }
}

/// A date the proleptic Gregorian calendar actually contains.
pub open spec fn valid_date(d: Date) -> bool {
    1 <= d.month <= 12 && 1 <= d.day <= days_in_month(d.year as int, d.month as int)
}

/// Dates ordered as instants: by year, then month, then day.
pub open spec fn date_le(a: Date, b: Date) -> bool {
    a.year < b.year || (a.year == b.year && (a.month < b.month || (a.month == b.month
        && a.day <= b.day)))
}

fn is_leap_year_exec(y: i32) -> (r: bool)
    ensures
        r == is_leap_year(y as int),
{
    // Shift into the non-negative range by a multiple of 400 (hence also of
    // 100 and of 4) so that the machine remainder agrees with the
    // mathematical one.
    let z: u64 = (y as i64 + 2_000_000_000_000i64) as u64;
    proof {
        assert(z == y as int + 2_000_000_000_000);
        vstd::arithmetic::div_mod::lemma_mod_multiples_vanish(500_000_000_000, y as int, 4);
        vstd::arithmetic::div_mod::lemma_mod_multiples_vanish(20_000_000_000, y as int, 100);
        vstd::arithmetic::div_mod::lemma_mod_multiples_vanish(5_000_000_000, y as int, 400);
        assert(4 * 500_000_000_000 + y as int == z as int);
        assert(100 * 20_000_000_000 + y as int == z as int);
        assert(400 * 5_000_000_000 + y as int == z as int);
    }
    (z % 4 == 0 && z % 100 != 0) || z % 400 == 0
}

/// Whether the triple is a real calendar date; the month lengths follow the
/// Gregorian leap-year rule.
pub fn check_valid_date(d: &Date) -> (r: bool)
    ensures
        r == valid_date(*d),
{
    if d.month < 1 || d.month > 12 {
        return false;
    }
    let dim: u32 = if d.month == 2 {
        if is_leap_year_exec(d.year) {
            29
        } else {
            28
        }
    } else if d.month == 4 || d.month == 6 || d.month == 9 || d.month == 11 {
        30
    } else {
        31
    };
    1 <= d.day && d.day <= dim
}

/// Date comparison matching `date_le`.
pub fn date_le_exec(a: &Date, b: &Date) -> (r: bool)
    ensures
        r == date_le(*a, *b),
{
    if a.year != b.year {
        a.year < b.year
    } else if a.month != b.month {
        a.month < b.month
    } else {
        a.day <= b.day
    }
}

/// The ordering on dates is total.
pub proof fn lemma_date_le_total(a: Date, b: Date)
    ensures
        date_le(a, b) || date_le(b, a),
        date_le(a, b) && date_le(b, a) ==> a.year == b.year && a.month == b.month && a.day
            == b.day,
{
}

/// The ordering on dates is transitive.
pub proof fn lemma_date_le_trans(a: Date, b: Date, c: Date)
    requires
        date_le(a, b),
        date_le(b, c),
    ensures
        date_le(a, c),
{
}

} // verus!
