//! The date that a response is stamped with.

use vstd::prelude::*;
use vstd::string::*;

verus! {

/// The last second of the year 9999, counted from the beginning of 1970. No
/// later instant has a date of four digits for the year.
pub const LAST_SECOND: u64 = 253_402_300_799;

/// Whether `c` may stand in a date: a letter, a digit, a space, a comma, a colon
/// or a plus sign.
pub open spec fn is_date_character(c: char) -> bool {
    ||| 'A' <= c <= 'Z'
    ||| 'a' <= c <= 'z'
    ||| '0' <= c <= '9'
    ||| c == ' '
    ||| c == ','
    ||| c == ':'
    ||| c == '+'
}

/// Whether `date` has the form of a date in universal time such as
/// `Tue, 1 Jul 2003 10:52:37 +0000`: thirty characters, or one more for a day
/// of two digits, each of them one that may stand in a date. Such a text holds
/// no line feed.
pub open spec fn is_date(date: Seq<char>) -> bool {
    &&& 30 <= date.len() <= 31
    &&& forall|i: int| 0 <= i < date.len() ==> is_date_character(#[trigger] date[i])
}

/// A date holds no line feed.
pub proof fn law_date_holds_no_line_feed(date: Seq<char>)
    requires
        is_date(date),
    ensures
        !date.contains('\n'),
{
    if date.contains('\n') {
        let i = choose|i: int| 0 <= i < date.len() && date[i] == '\n';
        assert(is_date_character(date[i]));
    }
}

/// The date of the instant `seconds` after the beginning of 1970 in universal
/// time, as `chrono::DateTime::to_rfc2822` writes it.
pub uninterp spec fn rfc2822_date(seconds: i64) -> Seq<char>;

/// The date that is stamped where the clock shows `clock` seconds since the
/// beginning of 1970, and nothing for a clock that is set before 1970: the
/// date of that instant up to the end of the year 9999, and the first date of
/// 1970 on any other clock.
pub open spec fn stamp(clock: Option<u64>) -> Seq<char> {
    match clock {
        Some(seconds) => if seconds <= LAST_SECOND {
            rfc2822_date(seconds as i64)
        } else {
            "Thu, 1 Jan 1970 00:00:00 +0000"@
        },
        None => "Thu, 1 Jan 1970 00:00:00 +0000"@,
    }
}

/// Reads the clock with `std::time::SystemTime::elapsed` on the beginning of
/// 1970: the whole seconds since then, and nothing where the clock is set before
/// 1970. The call does not panic. Nothing is claimed of the number: it depends
/// on the clock.
#[verifier::external_body]
fn clock_seconds() -> (seconds: Option<u64>) {
    match std::time::UNIX_EPOCH.elapsed() {
        Ok(elapsed) => Some(elapsed.as_secs()),
        Err(_) => None,
    }
}

/// Writes the instant `seconds` after the beginning of 1970 with
/// `chrono::DateTime::from_timestamp` and `DateTime::to_rfc2822`.
///
/// Up to the end of the year 9999 the first call gives an instant and the
/// second does not panic. The text is that of the instant and of nothing else,
/// so it has a name. Its form is claimed as the source shows it: the name of the
/// weekday in three letters, a comma, the day, the name of the month in three
/// letters, the year in four digits, the time and the offset `+0000`.
#[verifier::external_body]
fn rfc2822(seconds: i64) -> (date: String)
    requires
        0 <= seconds <= LAST_SECOND,
    ensures
        date@ == rfc2822_date(seconds),
        is_date(date@),
{
    chrono::DateTime::from_timestamp(seconds, 0).unwrap_or_default().to_rfc2822()
}

/// Returns the date to stamp where the clock shows `clock`: the date of that
/// instant, or the first date of 1970 where the clock is set before 1970 or
/// after the year 9999.
pub fn date_at(clock: Option<u64>) -> (date: String)
    ensures
        date@ == stamp(clock),
        is_date(date@),
{
    match clock {
        Some(seconds) => {
            if seconds <= LAST_SECOND {
                return rfc2822(seconds as i64);
            }
        },
        None => {},
    }
    let date = String::from_str("Thu, 1 Jan 1970 00:00:00 +0000");
    proof {
        reveal_strlit("Thu, 1 Jan 1970 00:00:00 +0000");
        assert(is_date(date@));
    }
    date
}

/// Returns the date to stamp now. Which one it is depends on the clock.
pub fn current_date() -> (date: String)
    ensures
        is_date(date@),
        exists|clock: Option<u64>| date@ == #[trigger] stamp(clock),
{
    date_at(clock_seconds())
}

} // verus!
