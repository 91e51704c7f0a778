use vstd::prelude::*;

verus! {

/// The day number (days since the common era, 0001-01-01 being day 1) of a
/// `YYYY-MM-DD` date; `None` when the text is no valid date.
pub uninterp spec fn day_number_of(date: Seq<char>) -> Option<i32>;

/// The `YYYY-MM-DD` text of a day number; `None` outside the calendar's range.
pub uninterp spec fn date_text_of(day: i32) -> Option<Seq<char>>;

pub open spec fn opt_string_view(o: Option<String>) -> Option<Seq<char>> {
    match o {
        Some(s) => Some(s@),
        None => None,
    }
}

/// Relies on chrono's `NaiveDate::parse_from_str` with `%Y-%m-%d` and
/// `Datelike::num_days_from_ce`: the result depends on the text alone.
#[verifier::external_body]
fn parse_day(date_local: &str) -> (r: Option<i32>)
    ensures
        r == day_number_of(date_local@),
{
    match chrono::NaiveDate::parse_from_str(date_local, "%Y-%m-%d") {
        Ok(d) => Some(chrono::Datelike::num_days_from_ce(&d)),
        Err(_) => None,
    }
}

/// Relies on chrono's `NaiveDate::from_num_days_from_ce_opt` and
/// `NaiveDate::format` with `%Y-%m-%d`: the result depends on the day alone.
#[verifier::external_body]
fn format_day(day: i32) -> (r: Option<String>)
    ensures
        opt_string_view(r) == date_text_of(day),
{
    match chrono::NaiveDate::from_num_days_from_ce_opt(day) {
        Some(d) => Some(d.format("%Y-%m-%d").to_string()),
        None => None,
    }
}

/// The seven days ending on `today`: its first and last day as text.
pub open spec fn week_window_spec(today: Seq<char>) -> Option<(Seq<char>, Seq<char>)> {
    match day_number_of(today) {
        None => None,
        Some(d) => if d - 6 < i32::MIN {
            None
        } else {
            match (date_text_of((d - 6) as i32), date_text_of(d)) {
                (Some(first), Some(last)) => Some((first, last)),
                _ => None,
            }
        },
    }
}

pub open spec fn window_view(o: Option<(String, String)>) -> Option<(Seq<char>, Seq<char>)> {
    match o {
        Some((a, b)) => Some((a@, b@)),
        None => None,
    }
}

/// First and last day of the seven days ending on `today_local`: the day six
/// days before it, and the day itself, both written as `YYYY-MM-DD`.
pub fn date_range_last_7_days(today_local: &str) -> (r: Option<(String, String)>)
    ensures
        window_view(r) == week_window_spec(today_local@),
{
    let day = match parse_day(today_local) {
        Some(d) => d,
        None => return None,
    };
    if day < i32::MIN + 6 {
        return None;
    }
    let first = match format_day(day - 6) {
        Some(t) => t,
        None => return None,
    };
    let last = match format_day(day) {
        Some(t) => t,
        None => return None,
    };
    Some((first, last))
}

} // verus!
