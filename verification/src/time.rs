//! Instants on the UTC time line, as plain integers, and their RFC 3339 text.
//!
//! Arithmetic on instants is proved here. The clock and the calendar are
//! chrono's work: the three functions that call it are trusted, not proved,
//! and say so.

use vstd::prelude::*;

verus! {

/// chrono's error for text that is not a date and time.
#[verifier::external_type_specification]
#[verifier::external_body]
pub struct ExCalendarParseError(chrono::ParseError);

/// An instant: whole seconds since 1970-01-01T00:00:00Z and the nanoseconds
/// that follow them.
///
/// `nanos` normally stays below one second, and every instant read from text
/// has it so. A larger value counts as that much later.
#[derive(Debug, Clone, Copy, PartialEq, Eq, Structural)]
pub struct Timestamp {
    pub secs: i64,
    pub nanos: u32,
}

/// Nanoseconds in one second.
pub const NANOS_PER_SECOND: i128 = 1_000_000_000;

/// The text chrono writes for an instant, `None` where chrono has no date for
/// it. Uninterpreted: the calendar is not modelled here.
pub uninterp spec fn rfc3339_text(secs: int, nanos: int) -> Option<Seq<char>>;

/// The instant chrono reads from a text, `None` where it rejects the text.
/// Uninterpreted, like [`rfc3339_text`].
pub uninterp spec fn rfc3339_instant(text: Seq<char>) -> Option<(int, int)>;

/// Trusted: `chrono::Utc::now`, its result read out through
/// `DateTime::timestamp` and `DateTime::timestamp_subsec_nanos`. Nothing is
/// claimed of the reading: two calls may differ in any way. chrono itself
/// gives up where the system clock stands before 1970.
#[verifier::external_body]
fn read_clock() -> (reading: (i64, u32)) {
    let now = chrono::Utc::now();
    (now.timestamp(), now.timestamp_subsec_nanos())
}

/// Trusted: `chrono::DateTime::to_rfc3339_opts`, with automatic sub-second
/// digits and a `Z` suffix, on the date that `chrono::DateTime::from_timestamp`
/// makes of the two integers. The contract claims only that the outcome is a
/// function of the two integers, and gives it a name; there is no text where
/// `from_timestamp` has no date.
#[verifier::external_body]
fn write_rfc3339(secs: i64, nanos: u32) -> (text: Option<String>)
    ensures
        match text {
            Some(t) => rfc3339_text(secs as int, nanos as int) == Some(t@),
            None => rfc3339_text(secs as int, nanos as int) is None,
        },
{
    match chrono::DateTime::from_timestamp(secs, nanos) {
        Some(instant) => Some(instant.to_rfc3339_opts(chrono::SecondsFormat::AutoSi, true)),
        None => None,
    }
}

/// Trusted: `chrono::DateTime::parse_from_rfc3339`, its result read out
/// through `DateTime::timestamp` and `DateTime::timestamp_subsec_nanos`. The
/// contract claims only that the outcome is a function of the text, and gives
/// it a name.
#[verifier::external_body]
fn read_rfc3339(text: &str) -> (parsed: Result<(i64, u32), chrono::ParseError>)
    ensures
        match parsed {
            Ok(pair) => rfc3339_instant(text@) == Some((pair.0 as int, pair.1 as int)),
            Err(_) => rfc3339_instant(text@) is None,
        },
{
    match chrono::DateTime::parse_from_rfc3339(text) {
        Ok(instant) => Ok((instant.timestamp(), instant.timestamp_subsec_nanos())),
        Err(error) => Err(error),
    }
}

/// The instant that a reading of seconds and nanoseconds stands for. chrono
/// reports a leap second as the last second of its minute with a second
/// billion of nanoseconds: such a reading stands for no instant here.
pub open spec fn instant_of_reading(secs: int, nanos: int) -> Option<Timestamp> {
    if i64::MIN <= secs <= i64::MAX && 0 <= nanos < NANOS_PER_SECOND {
        Some(Timestamp { secs: secs as i64, nanos: nanos as u32 })
    } else {
        None
    }
}

/// The instant that `text` denotes.
pub open spec fn instant_of_text(text: Seq<char>) -> Option<Timestamp> {
    match rfc3339_instant(text) {
        Some(pair) => instant_of_reading(pair.0, pair.1),
        None => None,
    }
}

impl Timestamp {
    /// Nanoseconds between 1970-01-01T00:00:00Z and this instant.
    pub open spec fn nanos_since_epoch(self) -> int {
        self.secs * 1_000_000_000 + self.nanos
    }

    /// Whether this instant comes less than `margin_seconds` after `now`.
    pub open spec fn within(self, now: Timestamp, margin_seconds: int) -> bool {
        self.nanos_since_epoch() - now.nanos_since_epoch() < margin_seconds * 1_000_000_000
    }

    /// This instant moved by `seconds`, where the result still has a whole
    /// number of seconds in `i64`.
    pub open spec fn plus_seconds(self, seconds: int) -> Option<Timestamp> {
        if i64::MIN <= self.secs + seconds <= i64::MAX {
            Some(Timestamp { secs: (self.secs + seconds) as i64, nanos: self.nanos })
        } else {
            None
        }
    }

    /// The text under which this instant can be stored: what chrono writes for
    /// it, provided chrono reads the same instant back from that text.
    pub open spec fn stored_text(self) -> Option<Seq<char>> {
        match rfc3339_text(self.secs as int, self.nanos as int) {
            Some(text) => if instant_of_text(text) == Some(self) {
                Some(text)
            } else {
                None
            },
            None => None,
        }
    }

    pub fn new(secs: i64, nanos: u32) -> (instant: Timestamp)
        ensures
            instant == (Timestamp { secs, nanos }),
    {
        Timestamp { secs, nanos }
    }

    /// The system clock's reading.
    pub fn now() -> Timestamp {
        let reading = read_clock();
        Timestamp { secs: reading.0, nanos: reading.1 }
    }

    /// Executable form of [`Timestamp::within`].
    pub fn is_within(self, now: Timestamp, margin_seconds: u32) -> (soon: bool)
        ensures
            soon == self.within(now, margin_seconds as int),
    {
        let left: i128 = (self.secs as i128 - now.secs as i128) * NANOS_PER_SECOND + (
        self.nanos as i128 - now.nanos as i128);
        left < margin_seconds as i128 * NANOS_PER_SECOND
    }

    /// Executable form of [`Timestamp::plus_seconds`].
    pub fn checked_add_seconds(self, seconds: i64) -> (moved: Option<Timestamp>)
        ensures
            moved == self.plus_seconds(seconds as int),
    {
        match self.secs.checked_add(seconds) {
            Some(secs) => Some(Timestamp { secs, nanos: self.nanos }),
            None => None,
        }
    }

    /// What a reading of calendar text amounts to: the instant read, or `None`
    /// for rejected text and for a leap second.
    pub fn from_reading(parsed: Result<(i64, u32), chrono::ParseError>) -> (instant: Option<
        Timestamp,
    >)
        ensures
            instant == match parsed {
                Ok(pair) => instant_of_reading(pair.0 as int, pair.1 as int),
                Err(_) => None,
            },
    {
        match parsed {
            Ok(pair) => {
                if pair.1 < 1_000_000_000 {
                    Some(Timestamp { secs: pair.0, nanos: pair.1 })
                } else {
                    None
                }
            },
            Err(_) => None,
        }
    }

    /// Reads RFC 3339 text.
    pub fn from_text(text: &str) -> (instant: Option<Timestamp>)
        ensures
            instant == instant_of_text(text@),
    {
        Timestamp::from_reading(read_rfc3339(text))
    }

    /// Keeps `text` as the stored form of this instant only if reading it back
    /// gave `reread`, and `reread` is this instant.
    pub fn confirm_text(self, text: String, reread: Option<Timestamp>) -> (kept: Option<String>)
        ensures
            match kept {
                Some(t) => reread == Some(self) && t@ == text@,
                None => reread != Some(self),
            },
    {
        match reread {
            Some(other) => {
                if other.secs == self.secs && other.nanos == self.nanos {
                    Some(text)
                } else {
                    None
                }
            },
            None => None,
        }
    }

    /// Writes this instant as RFC 3339 text and reads the text back: the text
    /// is returned only if it denotes this very instant.
    pub fn to_text(self) -> (text: Option<String>)
        ensures
            match text {
                Some(t) => self.stored_text() == Some(t@),
                None => self.stored_text() is None,
            },
    {
        match write_rfc3339(self.secs, self.nanos) {
            Some(written) => {
                let reread = Timestamp::from_text(written.as_str());
                self.confirm_text(written, reread)
            },
            None => None,
        }
    }
}

/// Whatever text an instant is stored under reads back as that instant.
pub proof fn lemma_stored_text_reads_back(instant: Timestamp, text: Seq<char>)
    requires
        instant.stored_text() == Some(text),
    ensures
        instant_of_text(text) == Some(instant),
{
}

} // verus!
