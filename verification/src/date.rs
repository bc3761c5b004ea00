//! The `Date` header text: the civil UTC time is read through the `time`
//! crate, and the header line itself is formatted by verified code.

use vstd::prelude::*;
use vstd::string::StringExecFns;

use crate::ascii::{dec_str, u32_to_dec_string};

verus! {

/// A civil UTC timestamp broken into plain fields.
pub struct DateParts {
    /// Calendar year.
    pub year: u32,
    /// Month, `1..=12`.
    pub month: u8,
    /// Day of the month, `1..=31`.
    pub day: u8,
    /// Days since Sunday, `0..=6`.
    pub weekday: u8,
    /// Hour, below 24.
    pub hour: u8,
    /// Minute, below 60.
    pub minute: u8,
    /// Second, below 60.
    pub second: u8,
}

/// The field ranges the clock reader promises.
pub open spec fn date_parts_wf(p: DateParts) -> bool {
    &&& 1 <= p.month <= 12
    &&& 1 <= p.day <= 31
    &&& p.weekday < 7
    &&& p.hour < 24
    &&& p.minute < 60
    &&& p.second < 60
}

/// Relies on `time::OffsetDateTime::now_utc` and its accessors `year`,
/// `month`, `day`, `weekday`, `hour`, `minute` and `second`: the current UTC
/// civil time, with the documented field ranges (month 1..=12, day 1..=31,
/// hour below 24, minute and second below 60, weekday index below 7).
#[verifier::external_body]
pub fn now_utc_parts() -> (r: DateParts)
    ensures
        date_parts_wf(r),
{
    let t = time::OffsetDateTime::now_utc();
    DateParts {
        year: t.year() as u32,
        month: u8::from(t.month()),
        day: t.day(),
        weekday: t.weekday().number_days_from_sunday(),
        hour: t.hour(),
        minute: t.minute(),
        second: t.second(),
    }
}

/// Three-letter English weekday name, indexed from Sunday.
pub open spec fn spec_weekday_abbrev(wd: u8) -> Seq<char> {
    if wd == 0 {
        "Sun"@
    } else if wd == 1 {
        "Mon"@
    } else if wd == 2 {
        "Tue"@
    } else if wd == 3 {
        "Wed"@
    } else if wd == 4 {
        "Thu"@
    } else if wd == 5 {
        "Fri"@
    } else {
        "Sat"@
    }
}

/// Three-letter English month name, indexed from 1.
pub open spec fn spec_month_abbrev(m: u8) -> Seq<char> {
    if m == 1 {
        "Jan"@
    } else if m == 2 {
        "Feb"@
    } else if m == 3 {
        "Mar"@
    } else if m == 4 {
        "Apr"@
    } else if m == 5 {
        "May"@
    } else if m == 6 {
        "Jun"@
    } else if m == 7 {
        "Jul"@
    } else if m == 8 {
        "Aug"@
    } else if m == 9 {
        "Sep"@
    } else if m == 10 {
        "Oct"@
    } else if m == 11 {
        "Nov"@
    } else {
        "Dec"@
    }
}

/// Two-digit zero-padded decimal.
pub open spec fn pad2_str(n: nat) -> Seq<char> {
    if n < 10 {
        "0"@ + dec_str(n)
    } else {
        dec_str(n)
    }
}

/// The `Date` header text for a timestamp: weekday and month names, unpadded
/// day, year and hour, zero-padded minute and second, always labelled GMT.
pub open spec fn spec_date_text(p: DateParts) -> Seq<char> {
    spec_weekday_abbrev(p.weekday) + ", "@ + spec_month_abbrev(p.month) + " "@ + dec_str(
        p.day as nat,
    ) + " "@ + dec_str(p.year as nat) + " "@ + dec_str(p.hour as nat) + ":"@ + pad2_str(
        p.minute as nat,
    ) + ":"@ + pad2_str(p.second as nat) + " GMT"@
}

/// Render a weekday name.
pub fn weekday_abbrev(wd: u8) -> (r: &'static str)
    ensures
        r@ == spec_weekday_abbrev(wd),
{
    proof {
        reveal_strlit("Sun");
        reveal_strlit("Mon");
        reveal_strlit("Tue");
        reveal_strlit("Wed");
        reveal_strlit("Thu");
        reveal_strlit("Fri");
        reveal_strlit("Sat");
    }
    if wd == 0 {
        "Sun"
    } else if wd == 1 {
        "Mon"
    } else if wd == 2 {
        "Tue"
    } else if wd == 3 {
        "Wed"
    } else if wd == 4 {
        "Thu"
    } else if wd == 5 {
        "Fri"
    } else {
        "Sat"
    }
}

/// Render a month name.
pub fn month_abbrev(m: u8) -> (r: &'static str)
    ensures
        r@ == spec_month_abbrev(m),
{
    proof {
        reveal_strlit("Jan");
        reveal_strlit("Feb");
        reveal_strlit("Mar");
        reveal_strlit("Apr");
        reveal_strlit("May");
        reveal_strlit("Jun");
        reveal_strlit("Jul");
        reveal_strlit("Aug");
        reveal_strlit("Sep");
        reveal_strlit("Oct");
        reveal_strlit("Nov");
        reveal_strlit("Dec");
    }
    if m == 1 {
        "Jan"
    } else if m == 2 {
        "Feb"
    } else if m == 3 {
        "Mar"
    } else if m == 4 {
        "Apr"
    } else if m == 5 {
        "May"
    } else if m == 6 {
        "Jun"
    } else if m == 7 {
        "Jul"
    } else if m == 8 {
        "Aug"
    } else if m == 9 {
        "Sep"
    } else if m == 10 {
        "Oct"
    } else if m == 11 {
        "Nov"
    } else {
        "Dec"
    }
}

/// Append a two-digit zero-padded number to a string.
fn append_pad2(out: &mut String, n: u8)
    ensures
        final(out)@ == old(out)@ + pad2_str(n as nat),
{
    if n < 10 {
        out.append("0");
    }
    let digits = u32_to_dec_string(n as u32);
    out.append(digits.as_str());
    assert(final(out)@ =~= old(out)@ + pad2_str(n as nat));
}

/// Format a timestamp as `Date` header text.
pub fn format_date_text(p: &DateParts) -> (r: String)
    ensures
        r@ == spec_date_text(*p),
{
    let mut out = String::new();
    out.append(weekday_abbrev(p.weekday));
    out.append(", ");
    out.append(month_abbrev(p.month));
    out.append(" ");
    let day = u32_to_dec_string(p.day as u32);
    out.append(day.as_str());
    out.append(" ");
    let year = u32_to_dec_string(p.year);
    out.append(year.as_str());
    out.append(" ");
    let hour = u32_to_dec_string(p.hour as u32);
    out.append(hour.as_str());
    out.append(":");
    append_pad2(&mut out, p.minute);
    out.append(":");
    append_pad2(&mut out, p.second);
    out.append(" GMT");
    assert(out@ =~= spec_date_text(*p));
    out
}

/// The `Date` header text for the current UTC time.
pub fn date_text_now() -> (r: String)
    ensures
        exists|p: DateParts| date_parts_wf(p) && r@ == spec_date_text(p),
{
    let parts = now_utc_parts();
    let r = format_date_text(&parts);
    proof {
        let ghost w = parts;
        assert(date_parts_wf(w) && r@ == spec_date_text(w));
    }
    r
}

} // verus!
