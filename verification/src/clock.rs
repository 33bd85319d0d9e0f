//! The one clock access the core needs: today's date in UTC, used to hold
//! back pages whose publish date lies in the future.

use vstd::prelude::*;
use crate::date::Date;

verus! {

/// Relies on `time::OffsetDateTime::now_utc` and the `year`, `month` and
/// `day` accessors of its date: the current UTC date is a real calendar
/// day, and every clock a machine can report lies within the supported
/// year range. The result depends on the clock, so nothing more than
/// validity is stated.
#[verifier::external_body]
pub(crate) fn today_utc() -> (r: Date)
    ensures
        r.wf(),
{
    let now = time::OffsetDateTime::now_utc().date();
    Date { year: now.year(), month: u8::from(now.month()), day: now.day() }
}

} // verus!
