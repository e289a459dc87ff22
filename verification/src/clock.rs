use vstd::prelude::*;

verus! {

/// The first second, counted from the Unix epoch, of the year 0: RFC 2822 writes a year with
/// four digits, from 0000 on.
pub const FIRST_RFC2822_SECOND: i64 = -62167219200;

/// The last second, counted from the Unix epoch, of the year 9999.
pub const LAST_RFC2822_SECOND: i64 = 253402300799;

#[verifier::external_type_specification]
#[verifier::external_body]
pub struct ExSystemTime(std::time::SystemTime);

/// The text of `chrono::DateTime::to_rfc2822` for the UTC time `secs` seconds after the Unix
/// epoch (before it, for a negative `secs`), as bytes: for example
/// `Thu, 1 Jan 1970 00:00:00 +0000` for `0`.
pub uninterp spec fn rfc2822_date(secs: i64) -> Seq<u8>;

/// A reading of the clock against the Unix epoch: `Ok((s, n))` is `s` seconds and `n`
/// nanoseconds after it, `Err((s, n))` that long before it.
pub type EpochOffset = Result<(u64, u32), (u64, u32)>;

/// The second that a reading falls in, counted from the Unix epoch (rounded down, so that a
/// time a little before the epoch falls in second -1).
pub open spec fn reading_second(reading: EpochOffset) -> int {
    match reading {
        Ok((s, _)) => s as int,
        Err((s, n)) => if n > 0 {
            -(s + 1)
        } else {
            -(s as int)
        },
    }
}

/// The `Date` text for second `secs`: its RFC 2822 text from the year 0 to the year 9999, and
/// nothing outside them, where RFC 2822 cannot write the year.
pub open spec fn date_text(secs: int) -> Seq<u8> {
    if FIRST_RFC2822_SECOND <= secs <= LAST_RFC2822_SECOND {
        rfc2822_date(secs as i64)
    } else {
        Seq::empty()
    }
}

/// Whether `date` can be the date that a response is sent with: the `Date` text of some second.
pub open spec fn sendable_date(date: Seq<u8>) -> bool {
    exists|secs: int| date == #[trigger] date_text(secs)
}

/// Calls `std::time::SystemTime::now`. Nothing is claimed of the time: it is the clock's.
#[verifier::external_body]
fn system_now() -> std::time::SystemTime {
    std::time::SystemTime::now()
}

/// Calls `SystemTime::duration_since` with the Unix epoch and takes the duration apart into
/// whole seconds and nanoseconds (`Duration::as_secs`, `Duration::subsec_nanos`): `Ok` after
/// the epoch, `Err` with how long before it (`SystemTimeError::duration`) for an earlier time.
/// Nothing is claimed of the numbers: they come from the clock.
#[verifier::external_body]
fn epoch_offset(t: &std::time::SystemTime) -> EpochOffset {
    match t.duration_since(std::time::UNIX_EPOCH) {
        Ok(d) => Ok((d.as_secs(), d.subsec_nanos())),
        Err(e) => Err((e.duration().as_secs(), e.duration().subsec_nanos())),
    }
}

/// Calls `chrono::DateTime::from_timestamp(secs, 0)`, which turns the second into a UTC time,
/// and formats that time with `DateTime::to_rfc2822`. From the year 0 to the year 9999 the
/// first gives a time and the second does not panic (chrono refuses only years outside them
/// there). The text is named `rfc2822_date(secs)`.
#[verifier::external_body]
fn rfc2822_of(secs: i64) -> (r: Vec<u8>)
    requires
        FIRST_RFC2822_SECOND <= secs <= LAST_RFC2822_SECOND,
    ensures
        r@ == rfc2822_date(secs),
{
    match chrono::DateTime::from_timestamp(secs, 0) {
        Some(d) => d.to_rfc2822().into_bytes(),
        None => Vec::new(),
    }
}

/// The `Date` text for a reading of the clock (see `date_text` and `reading_second`).
pub fn date_for(reading: EpochOffset) -> (r: Vec<u8>)
    ensures
        r@ == date_text(reading_second(reading)),
        sendable_date(r@),
{
    let r = match reading {
        Ok((s, _)) => if s <= LAST_RFC2822_SECOND as u64 {
            rfc2822_of(s as i64)
        } else {
            Vec::new()
        },
        Err((s, n)) => if s <= 62167219200 {
            let secs: i64 = if n > 0 {
                -(s as i64) - 1
            } else {
                -(s as i64)
            };
            if secs >= FIRST_RFC2822_SECOND {
                rfc2822_of(secs)
            } else {
                Vec::new()
            }
        } else {
            Vec::new()
        },
    };
    assert(r@ == date_text(reading_second(reading)));
    r
}

/// The `Date` text now, as a response is sent with it.
pub fn now_date() -> (r: Vec<u8>)
    ensures
        sendable_date(r@),
{
    let now = system_now();
    date_for(epoch_offset(&now))
}

} // verus!
