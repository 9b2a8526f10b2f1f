//! Calls into `chrono` and `uuid` for the current time and for fresh
//! identifiers. Which instant or which identifier comes back depends on the
//! clock or on chance; the contracts state the form of the text, which the
//! two crates fix for every outcome.

use vstd::prelude::*;
use crate::text::{all_digits, is_digit};

verus! {

/// The pattern, in `chrono`'s `strftime` syntax, of the date and time printed
/// on each label.
pub const LABEL_TIMESTAMP_FORMAT: &'static str = "%d/%m/%Y %H:%M:%S";

/// Whether `c` is a lowercase hexadecimal digit.
pub open spec fn is_lower_hex(c: char) -> bool {
    ('0' <= c && c <= '9') || ('a' <= c && c <= 'f')
}

/// Whether `s` is the hyphenated lowercase text of a random UUID (version 4,
/// RFC 4122 variant): 32 hexadecimal digits in groups of 8, 4, 4, 4 and 12,
/// the version digit `4` and a variant digit of `8`, `9`, `a` or `b`.
pub open spec fn uuid_v4_text(s: Seq<char>) -> bool {
    &&& s.len() == 36
    &&& forall|i: int| 0 <= i < 36 && i != 8 && i != 13 && i != 18 && i != 23 ==> is_lower_hex(#[trigger] s[i])
    &&& s[8] == '-' && s[13] == '-' && s[18] == '-' && s[23] == '-'
    &&& s[14] == '4'
    &&& (s[19] == '8' || s[19] == '9' || s[19] == 'a' || s[19] == 'b')
}

/// Whether the two characters of `s` at `i` are decimal digits whose value
/// lies between `lo` and `hi`.
pub open spec fn two_digits_in(s: Seq<char>, i: int, lo: int, hi: int) -> bool {
    &&& is_digit(s[i]) && is_digit(s[i + 1])
    &&& lo <= (s[i] as int - '0' as int) * 10 + (s[i + 1] as int - '0' as int) <= hi
}

/// Whether `y` is a year as `chrono` writes it: four digits for the years 0
/// to 9999, otherwise a sign followed by at least four digits.
pub open spec fn year_text(y: Seq<char>) -> bool {
    ||| y.len() == 4 && all_digits(y)
    ||| y.len() >= 5 && (y[0] == '+' || y[0] == '-') && all_digits(y.drop_first())
}

/// Whether `f` is a fraction of a second as RFC 3339 output writes it: nothing,
/// or a point followed by 3, 6 or 9 digits.
pub open spec fn fraction_text(f: Seq<char>) -> bool {
    ||| f.len() == 0
    ||| (f.len() == 4 || f.len() == 7 || f.len() == 10) && f[0] == '.' && all_digits(f.drop_first())
}

/// Whether `s` reads as a year of `n` characters, `-MM-DDTHH:MM:SS`, a
/// fraction of `m` characters and the offset `+00:00`.
pub open spec fn rfc3339_utc_parts(s: Seq<char>, n: int, m: int) -> bool {
    &&& 0 <= n && 0 <= m && s.len() == n + 15 + m + 6
    &&& year_text(s.subrange(0, n))
    &&& s[n] == '-' && two_digits_in(s, n + 1, 1, 12)
    &&& s[n + 3] == '-' && two_digits_in(s, n + 4, 1, 31)
    &&& s[n + 6] == 'T' && two_digits_in(s, n + 7, 0, 23)
    &&& s[n + 9] == ':' && two_digits_in(s, n + 10, 0, 59)
    &&& s[n + 12] == ':' && two_digits_in(s, n + 13, 0, 60)
    &&& fraction_text(s.subrange(n + 15, n + 15 + m))
    &&& s.subrange(n + 15 + m, s.len() as int) == seq!['+', '0', '0', ':', '0', '0']
}

/// Whether `s` is a UTC instant in the RFC 3339 form that `chrono` writes,
/// such as `2024-05-01T09:30:00.123+00:00`.
pub open spec fn utc_rfc3339_text(s: Seq<char>) -> bool {
    exists|n: int, m: int| #[trigger] rfc3339_utc_parts(s, n, m)
}

/// Whether `s` is a local date and time as `LABEL_TIMESTAMP_FORMAT` renders
/// it: `DD/MM/YYYY HH:MM:SS`, the year written as `year_text` says (so 19
/// characters for the years 0 to 9999).
pub open spec fn label_stamp_text(s: Seq<char>) -> bool {
    &&& s.len() >= 19
    &&& two_digits_in(s, 0, 1, 31) && s[2] == '/'
    &&& two_digits_in(s, 3, 1, 12) && s[5] == '/'
    &&& year_text(s.subrange(6, s.len() - 9))
    &&& s[s.len() - 9] == ' ' && two_digits_in(s, s.len() - 8, 0, 23)
    &&& s[s.len() - 6] == ':' && two_digits_in(s, s.len() - 5, 0, 59)
    &&& s[s.len() - 3] == ':' && two_digits_in(s, s.len() - 2, 0, 60)
}

/// The instant that the stored text `s` denotes, read as RFC 3339 and
/// written again in UTC the way `to_rfc3339` writes it; `None` when `s` is
/// not RFC 3339 text.
pub uninterp spec fn stored_time_in_utc(s: Seq<char>) -> Option<Seq<char>>;

/// Calls `chrono::DateTime::parse_from_rfc3339` on `s`, moves the instant to
/// UTC with `with_timezone(&Utc)` and renders it with `to_rfc3339`. The
/// result is a function of `s` alone, named `stored_time_in_utc`; when there
/// is one, it has the form that `to_rfc3339` gives every UTC instant.
#[verifier::external_body]
pub(crate) fn parse_stored_time(s: &str) -> (r: Option<String>)
    ensures
        match r {
            Some(t) => stored_time_in_utc(s@) == Some(t@),
            None => stored_time_in_utc(s@) is None,
        },
        r matches Some(t) ==> utc_rfc3339_text(t@),
{
    chrono::DateTime::parse_from_rfc3339(s).ok().map(|d| d.with_timezone(&chrono::Utc).to_rfc3339())
}

/// A stored time read back in UTC, or the current time when the stored text
/// is not RFC 3339.
pub fn stored_time_or_now(s: &str) -> (r: String)
    ensures
        match stored_time_in_utc(s@) {
            Some(t) => r@ == t,
            None => utc_rfc3339_text(r@),
        },
        utc_rfc3339_text(r@),
{
    match parse_stored_time(s) {
        Some(t) => t,
        None => utc_now_rfc3339(),
    }
}

/// Calls `chrono::Utc::now()` and renders the instant with
/// `DateTime::to_rfc3339`. Which instant comes back depends on the clock; the
/// contract states the form that `to_rfc3339` gives every UTC instant: the
/// date and time fields, a fraction only when the nanoseconds are not zero,
/// and the offset `+00:00`.
#[verifier::external_body]
pub(crate) fn utc_now_rfc3339() -> (s: String)
    ensures
        utc_rfc3339_text(s@),
{
    chrono::Utc::now().to_rfc3339()
}

/// Calls `chrono::Local::now()` and renders it with `format(pattern)`; only
/// the label pattern is accepted. Which instant and which time zone depend on
/// the machine; the contract states the form that pattern gives every date
/// and time.
#[verifier::external_body]
pub(crate) fn local_label_timestamp(pattern: &str) -> (s: String)
    requires
        pattern@ == LABEL_TIMESTAMP_FORMAT@,
    ensures
        label_stamp_text(s@),
{
    chrono::Local::now().format(pattern).to_string()
}

/// Calls `uuid::Uuid::new_v4()` and renders the identifier with `to_string`.
/// The identifier is random; the contract states the form of its hyphenated
/// lowercase text, with the version and variant digits that `new_v4` sets.
#[verifier::external_body]
pub(crate) fn new_job_id() -> (s: String)
    ensures
        uuid_v4_text(s@),
{
    uuid::Uuid::new_v4().to_string()
}

} // verus!
