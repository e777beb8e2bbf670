//! The time of day as text.
use vstd::prelude::*;

verus! {

/// A moment and where it is looked at: the seconds since 1970 in universal time, the
/// nanoseconds on top of them, and how many seconds the place is ahead of universal time.
#[derive(Clone, Copy, Debug, PartialEq, Eq, Structural)]
pub struct LocalTime {
    pub seconds: i64,
    pub nanos: u32,
    pub offset: i32,
}

/// The last second that has a date, at the end of the year 262142.
pub const LAST_SECOND: i64 = 8_210_266_876_799;

impl LocalTime {
    /// The moment has a date, and the place is less than a day away.
    pub open spec fn valid(self) -> bool {
        &&& 0 <= self.seconds <= LAST_SECOND
        &&& self.nanos < 1_000_000_000
        &&& -86_400 < self.offset < 86_400
    }

    /// The moment in a format, where the format is one.
    pub open spec fn written(self, format: Seq<char>) -> Option<Seq<char>> {
        time_text(self.seconds, self.nanos, self.offset, format)
    }
}

/// The text of a moment at a place in a format, as `chrono` writes it.
pub uninterp spec fn time_text(
    seconds: i64,
    nanos: u32,
    offset: i32,
    format: Seq<char>,
) -> Option<Seq<char>>;

/// Whether a text is a format in which a time can be written: every specifier in it is
/// known and complete, is padded only where it can be, and is not for reading alone. It is
/// enough to try one moment.
pub open spec fn is_time_format(format: Seq<char>) -> bool {
    time_text(0, 0, 0, format) is Some
}

/// The time now, here.
///
/// `chrono::Local::now` reads the clock and the time zone. What it gives has a date, and
/// an offset of less than a day; which moment and which place it is, is not promised. A
/// clock that stands before 1970 is out of `chrono`'s reach.
#[verifier::external_body]
pub(crate) fn local_now() -> (time: LocalTime)
    ensures
        time.valid(),
{
    let now = chrono::Local::now();
    LocalTime {
        seconds: now.timestamp(),
        nanos: now.timestamp_subsec_nanos(),
        offset: now.offset().local_minus_utc(),
    }
}

/// A moment at a place, in a format.
///
/// `DateTime::format` takes the format apart, and `DelayedFormat::write_to` writes the
/// text, which depends on the moment, the place and the format alone. It fails on a
/// specifier that is unknown, cut short, padded where no padding is possible (`%-Z`), or
/// meant for reading alone (`%#z`), and on nothing else: a moment at a place has every part
/// that a format can ask for. So whether it fails depends on the format alone.
#[verifier::external_body]
pub(crate) fn write_time(time: LocalTime, format: &str) -> (text: Option<String>)
    requires
        time.valid(),
    ensures
        (match text {
            Some(text) => Some(text@),
            None => None,
        }) == time_text(time.seconds, time.nanos, time.offset, format@),
        text is Some == is_time_format(format@),
{
    let place = chrono::FixedOffset::east_opt(time.offset)?;
    let moment = chrono::DateTime::from_timestamp(time.seconds, time.nanos)?;
    let mut text = String::new();
    match moment.with_timezone(&place).format(format).write_to(&mut text) {
        Ok(()) => Some(text),
        Err(_) => None,
    }
}

} // verus!
