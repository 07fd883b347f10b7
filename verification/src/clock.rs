//! Time stamps in file names.

use crate::text;
use vstd::prelude::*;
use vstd::string::*;

verus! {

/// How stamps are written: the date, a hyphen and the time.
pub const STAMP_FORMAT: &'static str = "%Y%m%d-%H%M%S";

/// The UTC date and time of a point in time, as chrono's `DateTime::format` writes it with a format
/// text, or nothing where chrono's calendar does not reach. The point is given in seconds since the
/// start of 1970.
pub uninterp spec fn utc_text(secs: i64, format: Seq<char>) -> Option<Seq<char>>;

/// The stamp of a point in time.
pub open spec fn utc_stamp(secs: i64) -> Option<Seq<char>> {
    utc_text(secs, STAMP_FORMAT@)
}

/// `DateTime::from_timestamp` of chrono, in UTC, and what `DateTime::format` makes of it with a
/// format text. The result is a function of the two alone, named [`utc_text`]. Only the format of
/// stamps is admitted, since others may make chrono panic. From the start of 1970 to the end of 9999
/// there is a stamp: a year of four digits, the other parts of two digits each, and a hyphen.
#[verifier::external_body]
pub(crate) fn stamp(secs: i64, format: &str) -> (r: Option<String>)
    requires
        format@ == STAMP_FORMAT@,
    ensures
        text::opt_view(r) == utc_text(secs, format@),
        0 <= secs <= 253_402_300_799 ==> r is Some && r->0@.len() == 15,
{
    let time = chrono::DateTime::<chrono::Utc>::from_timestamp(secs, 0)?;
    Some(time.format(format).to_string())
}

/// A file name with a stamp in it.
pub open spec fn stamped(prefix: Seq<char>, stamp: Seq<char>, suffix: Seq<char>) -> Seq<char> {
    prefix + stamp + suffix
}

/// A file name with a given stamp in it.
pub fn name_with_stamp(prefix: &str, stamp: &str, suffix: &str) -> (r: String)
    ensures
        r@ == stamped(prefix@, stamp@, suffix@),
{
    let mut out = prefix.to_owned();
    out.append(stamp);
    out.append(suffix);
    out
}

/// A file name with the stamp of a point in time in it, where there is one.
pub fn stamped_name(prefix: &str, secs: i64, suffix: &str) -> (r: Option<String>)
    ensures
        match r {
            Some(name) => utc_stamp(secs) is Some && name@ == stamped(
                prefix@,
                utc_stamp(secs)->0,
                suffix@,
            ),
            None => utc_stamp(secs) is None,
        },
        0 <= secs <= 253_402_300_799 ==> r is Some,
{
    match stamp(secs, STAMP_FORMAT) {
        Some(s) => Some(name_with_stamp(prefix, s.as_str(), suffix)),
        None => None,
    }
}

/// A stamp gives the year, the month and the day, and behind a hyphen the hours, the minutes and the
/// seconds; a stamped name has it between its two parts.
pub proof fn stamps_stand_between(prefix: Seq<char>, stamp: Seq<char>, suffix: Seq<char>, secs: i64)
    ensures
        utc_stamp(secs) == utc_text(secs, "%Y%m%d-%H%M%S"@),
        stamped(prefix, stamp, suffix).take(prefix.len() as int) == prefix,
        stamped(prefix, stamp, suffix).subrange(
            prefix.len() as int,
            (prefix.len() + stamp.len()) as int,
        ) == stamp,
        stamped(prefix, stamp, suffix).skip((prefix.len() + stamp.len()) as int) == suffix,
{
    let name = stamped(prefix, stamp, suffix);
    assert(name.take(prefix.len() as int) =~= prefix);
    assert(name.subrange(prefix.len() as int, (prefix.len() + stamp.len()) as int) =~= stamp);
    assert(name.skip((prefix.len() + stamp.len()) as int) =~= suffix);
}

} // verus!
