//! PostgreSQL timestamp handling.
//!
//! The wire carries microseconds since 2000-01-01 00:00:00 UTC; Unix
//! time is shifted by `946_684_800` seconds.  The shift is verified
//! arithmetic; rendering a timestamp as a UTC date string is done by an
//! outside date-time library behind a trusted wrapper.

use vstd::prelude::*;

verus! {

use vstd::arithmetic::div_mod::lemma_fundamental_div_mod;

/// Seconds from the Unix epoch (1970) to the PostgreSQL epoch (2000).
pub const PG_EPOCH_OFFSET_SECS: i64 = 946_684_800;

/// Convert a wall-clock time, given as microseconds since the Unix
/// epoch, to PostgreSQL's timestamp encoding.
pub fn system_time_to_postgres_timestamp(unix_micros: i64) -> (r: i64)
    requires
        unix_micros >= i64::MIN + 946_684_800_000_000,
    ensures
        r == unix_micros - 946_684_800_000_000,
{
    unix_micros - 946_684_800_000_000
}

/// The quotient of `ts` by one million, rounded toward zero.
pub open spec fn trunc_div_million(ts: int) -> int {
    if ts >= 0 {
        ts / 1_000_000
    } else {
        -((-ts) / 1_000_000)
    }
}

/// The remainder of `ts` by one million, with the sign of `ts`.
pub open spec fn trunc_rem_million(ts: int) -> int {
    ts - 1_000_000 * trunc_div_million(ts)
}

/// The whole seconds of a PostgreSQL timestamp, shifted to Unix time.
pub open spec fn pg_ts_secs(ts: int) -> int {
    trunc_div_million(ts) + 946_684_800
}

/// The nanoseconds passed to the date-time library for a PostgreSQL
/// timestamp: the truncating microsecond remainder times 1000, wrapped
/// into a `u32` exactly as the two's-complement cast does.  For a
/// negative timestamp that is not a whole second this lands far above
/// the valid nanosecond range, so rendering fails.
pub open spec fn pg_ts_nsecs(ts: int) -> int {
    let r = trunc_rem_million(ts) * 1000;
    if r >= 0 {
        r
    } else {
        0x100000000 + r
    }
}

/// The fixed rendering of the instant `secs` seconds and `nsecs`
/// nanoseconds after the Unix epoch as a `"%Y-%m-%d %H:%M:%S%.3f UTC"`
/// string; a function of its arguments alone.
pub uninterp spec fn pg_time_string(secs: i64, nsecs: u32) -> Seq<char>;

/// Relies on `chrono::DateTime::<Utc>::from_timestamp` and its
/// `format("%Y-%m-%d %H:%M:%S%.3f UTC")` rendering: the result depends
/// only on the seconds and nanoseconds given, and the library accepts
/// every instant between the Unix epoch and the year 9999 with a valid
/// nanosecond part.
#[verifier::external_body]
fn format_utc_timestamp(secs: i64, nsecs: u32) -> (r: Option<String>)
    ensures
        r matches Some(t) ==> t@ == pg_time_string(secs, nsecs),
        (0 <= secs <= 253_402_300_799 && nsecs < 1_000_000_000) ==> r is Some,
{
    match chrono::DateTime::from_timestamp(secs, nsecs) {
        Some(dt) => Some(dt.format("%Y-%m-%d %H:%M:%S%.3f UTC").to_string()),
        None => None,
    }
}

/// Render a PostgreSQL timestamp as a UTC date string.  Returns `None`
/// where the instant cannot be rendered (far out of range, or a
/// negative timestamp whose wrapped nanosecond part is invalid); every
/// timestamp between the PostgreSQL epoch and the year 9999 renders.
pub fn format_timestamp_from_pg(ts: i64) -> (r: Option<String>)
    ensures
        r matches Some(t) ==> t@ == pg_time_string(
            pg_ts_secs(ts as int) as i64,
            pg_ts_nsecs(ts as int) as u32,
        ),
        (0 <= ts <= 252_455_615_999_999_999) ==> r is Some,
{
    let (secs, nsecs): (i64, u32) = if ts >= 0 {
        let q = (ts as u64) / 1_000_000;
        let r0 = (ts as u64) % 1_000_000;
        proof {
            lemma_fundamental_div_mod(ts as int, 1_000_000);
        }
        ((q as i64) + 946_684_800, (r0 * 1000) as u32)
    } else {
        // Magnitude computed without overflowing `i64::MIN`.
        let m = ((-(ts + 1)) as u64) + 1;
        let q0 = m / 1_000_000;
        let r0 = m % 1_000_000;
        proof {
            lemma_fundamental_div_mod(m as int, 1_000_000);
        }
        let secs = -(q0 as i64) + 946_684_800;
        let nsecs: u32 = if r0 == 0 {
            0
        } else {
            (0x100000000u64 - r0 * 1000) as u32
        };
        (secs, nsecs)
    };
    assert(secs == pg_ts_secs(ts as int));
    assert(nsecs == pg_ts_nsecs(ts as int));
    format_utc_timestamp(secs, nsecs)
}

} // verus!
