//! Points in time, lengths of time, and their text forms.

use chrono::TimeZone;
use vstd::prelude::*;
use vstd::string::*;
use crate::error::DecodeError;
use crate::text::{all_digits, digits_value, first_index, find_char, parse_unsigned, digit_value, lemma_first_index, unsigned_part};

verus! {

pub const MILLIS_PER_SECOND: u64 = 1000;
pub const MILLIS_PER_MINUTE: u64 = 60000;
pub const SECONDS_PER_DAY: i64 = 86400;
pub const SECONDS_PER_HOUR: i64 = 3600;

/// The longest duration that decodes, in minutes: its milliseconds fit an `i64`.
pub const MAX_DURATION_MINUTES: u64 = 153722867280912;

/// A length of time, in milliseconds.
#[derive(Debug, Clone, Copy, PartialEq, Eq, Structural)]
pub struct Duration {
    pub millis: u64,
}

impl Duration {
    pub fn from_minutes(minutes: u64) -> (r: Duration)
        requires
            minutes <= MAX_DURATION_MINUTES,
        ensures
            r.millis == minutes * 60000,
    {
        Duration { millis: minutes * MILLIS_PER_MINUTE }
    }

    /// Whole minutes, rounded down.
    pub fn num_minutes(&self) -> (r: u64)
        ensures
            r == self.millis / 60000,
    {
        self.millis / MILLIS_PER_MINUTE
    }
}

/// An instant, with the offset of the local time zone in force at it.
#[derive(Debug, Clone, Copy, PartialEq, Eq, Structural)]
pub struct Timestamp {
    /// Seconds since 1970-01-01 00:00 UTC.
    pub utc_secs: i64,
    /// Local time minus UTC, in seconds.
    pub offset_secs: i32,
}

/// Seconds since 1970-01-01 00:00 on the local wall clock.
pub open spec fn local_secs(t: Timestamp) -> int {
    t.utc_secs + t.offset_secs
}

/// The local calendar day, counted in days since 1970-01-01.
pub open spec fn local_day_of(t: Timestamp) -> int {
    local_secs(t) / 86400
}

/// The hour of the local wall clock, 0 to 23.
pub open spec fn local_hour_of(t: Timestamp) -> int {
    (local_secs(t) % 86400) / 3600
}

impl Timestamp {
    /// The local calendar day of this instant, in days since 1970-01-01.
    pub fn local_day(&self) -> (r: i64)
        ensures
            r == local_day_of(*self),
    {
        let s: i128 = self.utc_secs as i128 + self.offset_secs as i128;
        let d = s.checked_div_euclid(86400i128);
        let day: i128 = match d {
            Some(v) => v,
            None => 0,
        };
        proof {
            assert(d is Some);
            assert(-0x8000_0000_0000_0000 - 0x8000_0000 <= s <= 0x7fff_ffff_ffff_ffff + 0x7fff_ffff);
            assert(-0x8000_0000_0000_0000 <= s / 86400 <= 0x7fff_ffff_ffff_ffff) by (nonlinear_arith)
                requires
                    -0x8000_0000_0000_0000 - 0x8000_0000 <= s <= 0x7fff_ffff_ffff_ffff + 0x7fff_ffff,
            ;
        }
        day as i64
    }

    /// The hour of the local wall clock, 0 to 23.
    pub fn local_hour(&self) -> (r: u32)
        ensures
            r == local_hour_of(*self),
            r < 24,
    {
        let s: i128 = self.utc_secs as i128 + self.offset_secs as i128;
        let within = s.checked_rem_euclid(86400i128);
        let w: i128 = match within {
            Some(v) => v,
            None => 0,
        };
        proof {
            assert(within is Some);
            assert(0 <= w < 86400);
            assert(0 <= w / 3600 < 24) by (nonlinear_arith)
                requires
                    0 <= w < 86400,
            ;
        }
        (w / 3600) as u32
    }

    /// Whole seconds from `self` to `later`.
    pub fn seconds_until(&self, later: &Timestamp) -> (r: i128)
        ensures
            r == later.utc_secs - self.utc_secs,
    {
        later.utc_secs as i128 - self.utc_secs as i128
    }
}

/// The layout of a timestamp field: `day/month/year hour:minute`.
pub open spec fn timestamp_layout() -> Seq<char> {
    "%0d/%0m/%Y %H:%M"@
}

/// The instant that `chrono` reads from `text` laid out as `layout`, in UTC, in
/// seconds since 1970-01-01; `None` where the text does not fit the layout.
pub uninterp spec fn utc_seconds_of(text: Seq<char>, layout: Seq<char>) -> Option<i64>;

/// Relies on chrono's `TimeZone::datetime_from_str` on `Utc` to read the text as
/// UTC wall-clock time, and on `DateTime::with_timezone(&Local)` for the offset of
/// the machine's time zone at that instant (a `FixedOffset`, under a day).
#[verifier::external_body]
#[allow(deprecated)]
fn parse_utc(text: &str, layout: &str) -> (r: Option<(i64, i32)>)
    ensures
        r is None <==> utc_seconds_of(text@, layout@) is None,
        r matches Some(p) ==> utc_seconds_of(text@, layout@) == Some(p.0) && -86400 < p.1 < 86400,
{
    match chrono::Utc.datetime_from_str(text, layout) {
        Ok(t) => {
            let local = t.with_timezone(&chrono::Local);
            Some((local.timestamp(), local.offset().local_minus_utc()))
        },
        Err(_) => None,
    }
}

/// Whether `t` is a reading of `text`: the instant that the text names, with any
/// local offset under a day.
pub open spec fn reads_as(text: Seq<char>, t: Timestamp) -> bool {
    &&& utc_seconds_of(text, timestamp_layout()) == Some(t.utc_secs)
    &&& -86400 < t.offset_secs < 86400
}

/// Decodes a `day/month/year hour:minute` field, read as UTC, into an instant
/// carrying the local offset.
pub fn decode_timestamp(text: &str) -> (r: Result<Timestamp, DecodeError>)
    ensures
        r is Ok <==> utc_seconds_of(text@, timestamp_layout()) is Some,
        r matches Ok(t) ==> reads_as(text@, t),
        r is Err ==> r == Err::<Timestamp, DecodeError>(DecodeError::MalformedTimestamp),
{
    match parse_utc(text, "%0d/%0m/%Y %H:%M") {
        Some(p) => Ok(Timestamp { utc_secs: p.0, offset_secs: p.1 }),
        None => Err(DecodeError::MalformedTimestamp),
    }
}


/// What a `HOURS:MINUTES` field decodes to: exactly one `:`, digits on both
/// sides (each may start with `+`), and a total that fits.
pub open spec fn duration_of(text: Seq<char>) -> Option<Duration> {
    let p = first_index(text, ':');
    let hours = unsigned_part(text.subrange(0, p));
    let minutes = unsigned_part(text.subrange(p + 1, text.len() as int));
    if p >= 0 && hours.len() > 0 && minutes.len() > 0 && all_digits(hours) && all_digits(minutes)
        && digits_value(hours) * 60 + digits_value(minutes) <= MAX_DURATION_MINUTES {
        Some(Duration { millis: ((digits_value(hours) * 60 + digits_value(minutes)) * 60000) as u64 })
    } else {
        None
    }
}

/// Decodes a `HOURS:MINUTES` field.
pub fn decode_duration(text: &Vec<char>) -> (r: Result<Duration, DecodeError>)
    ensures
        r matches Ok(d) ==> duration_of(text@) == Some(d),
        r is Err ==> duration_of(text@) is None && r == Err::<Duration, DecodeError>(DecodeError::MalformedDuration),
{
    proof {
        lemma_first_index(text@, ':');
    }
    let p = match find_char(text, ':') {
        Some(p) => p,
        None => return Err(DecodeError::MalformedDuration),
    };
    let ghost hs = unsigned_part(text@.subrange(0, p as int));
    let ghost ms = unsigned_part(text@.subrange(p + 1, text@.len() as int));
    let h = parse_unsigned(text, 0, p, MAX_DURATION_MINUTES / 60);
    let n = text.len();
    assert(p < n);
    let m = parse_unsigned(text, p + 1, n, MAX_DURATION_MINUTES);
    match (h, m) {
        (Some(h), Some(m)) => {
            if h * 60 + m <= MAX_DURATION_MINUTES {
                Ok(Duration::from_minutes(h * 60 + m))
            } else {
                Err(DecodeError::MalformedDuration)
            }
        },
        _ => {
            proof {
                if hs.len() > 0 && ms.len() > 0 && all_digits(hs) && all_digits(ms)
                    && digits_value(hs) * 60 + digits_value(ms) <= MAX_DURATION_MINUTES {
                    assert(digits_value(hs) <= MAX_DURATION_MINUTES / 60);
                }
            }
            Err(DecodeError::MalformedDuration)
        },
    }
}

/// The character of a digit value below ten.
pub open spec fn digit_char(n: nat) -> char {
    if n == 0 { '0' } else if n == 1 { '1' } else if n == 2 { '2' } else if n == 3 { '3' }
    else if n == 4 { '4' } else if n == 5 { '5' } else if n == 6 { '6' } else if n == 7 { '7' }
    else if n == 8 { '8' } else { '9' }
}

/// The decimal digits of `n`, with no leading zero.
pub open spec fn decimal_text(n: nat) -> Seq<char>
    decreases n,
{
    if n < 10 {
        seq![digit_char(n)]
    } else {
        decimal_text(n / 10).push(digit_char(n % 10))
    }
}

/// The decimal digits of `n`, zero-padded to at least two.
pub open spec fn padded_text(n: nat) -> Seq<char> {
    if n < 10 {
        seq!['0', digit_char(n)]
    } else {
        decimal_text(n)
    }
}

/// `HH:MM`: whole hours, then the minutes left over.
pub open spec fn hhmm_text(d: Duration) -> Seq<char> {
    let m = (d.millis / 60000) as nat;
    padded_text(m / 60) + seq![':'] + padded_text(m % 60)
}

/// `HH:MM:SS`: whole hours, then the minutes and the seconds left over.
pub open spec fn hhmmss_text(d: Duration) -> Seq<char> {
    let s = (d.millis / 1000) as nat;
    padded_text(s / 3600) + seq![':'] + padded_text((s / 60) % 60) + seq![':'] + padded_text(s % 60)
}

fn digit(n: u64) -> (c: &'static str)
    requires
        n < 10,
    ensures
        c@ == seq![digit_char(n as nat)],
{
    proof {
        reveal_strlit("0");
        reveal_strlit("1");
        reveal_strlit("2");
        reveal_strlit("3");
        reveal_strlit("4");
        reveal_strlit("5");
        reveal_strlit("6");
        reveal_strlit("7");
        reveal_strlit("8");
        reveal_strlit("9");
    }
    let c = match n {
        0 => "0",
        1 => "1",
        2 => "2",
        3 => "3",
        4 => "4",
        5 => "5",
        6 => "6",
        7 => "7",
        8 => "8",
        _ => "9",
    };
    assert(c@ =~= seq![digit_char(n as nat)]);
    c
}

fn push_decimal(n: u64, out: &mut String)
    ensures
        final(out)@ == old(out)@ + decimal_text(n as nat),
    decreases n,
{
    if n >= 10 {
        push_decimal(n / 10, out);
    }
    out.append(digit(n % 10));
    proof {
        if n >= 10 {
            assert(decimal_text(n as nat) == decimal_text((n / 10) as nat).push(digit_char((n % 10) as nat)));
        } else {
            assert(decimal_text(n as nat) == seq![digit_char(n as nat)]);
        }
    }
    assert(out@ =~= old(out)@ + decimal_text(n as nat));
}

fn push_padded(n: u64, out: &mut String)
    ensures
        final(out)@ == old(out)@ + padded_text(n as nat),
{
    if n < 10 {
        out.append(digit(0));
        out.append(digit(n));
        assert(out@ =~= old(out)@ + padded_text(n as nat));
    } else {
        push_decimal(n, out);
    }
}

fn push_colon(out: &mut String)
    ensures
        final(out)@ == old(out)@ + seq![':'],
{
    proof {
        reveal_strlit(":");
    }
    out.append(":");
    assert(out@ =~= old(out)@ + seq![':']);
}

impl Duration {
    /// Renders as zero-padded `HH:MM`, dropping seconds.
    pub fn to_hhmm(&self) -> (r: String)
        ensures
            r@ == hhmm_text(*self),
    {
        let m = self.millis / MILLIS_PER_MINUTE;
        let mut out = String::new();
        push_padded(m / 60, &mut out);
        push_colon(&mut out);
        push_padded(m % 60, &mut out);
        assert(out@ =~= hhmm_text(*self));
        out
    }

    /// Renders as zero-padded `HH:MM:SS`, dropping milliseconds.
    pub fn to_hhmmss(&self) -> (r: String)
        ensures
            r@ == hhmmss_text(*self),
    {
        let s = self.millis / MILLIS_PER_SECOND;
        let mut out = String::new();
        push_padded(s / 3600, &mut out);
        push_colon(&mut out);
        push_padded((s / 60) % 60, &mut out);
        push_colon(&mut out);
        push_padded(s % 60, &mut out);
        assert(out@ =~= hhmmss_text(*self));
        out
    }
}

proof fn lemma_digit_char(n: nat)
    requires
        n < 10,
    ensures
        digit_value(digit_char(n)) == n,
        '0' <= digit_char(n) <= '9',
{
}

proof fn lemma_decimal_text(n: nat)
    ensures
        decimal_text(n).len() > 0,
        all_digits(decimal_text(n)),
        digits_value(decimal_text(n)) == n,
    decreases n,
{
    if n < 10 {
        lemma_digit_char(n);
        let t = decimal_text(n);
        assert(t.drop_last() =~= Seq::<char>::empty());
        assert(digits_value(Seq::<char>::empty()) == 0);
        assert(digits_value(t) == digits_value(t.drop_last()) * 10 + digit_value(t.last()));
    } else {
        lemma_decimal_text(n / 10);
        lemma_digit_char(n % 10);
        let t = decimal_text(n);
        assert(t.drop_last() =~= decimal_text(n / 10));
        assert(t.last() == digit_char(n % 10));
        assert(digits_value(t) == digits_value(t.drop_last()) * 10 + digit_value(t.last()));
        assert((n / 10) * 10 + n % 10 == n);
        assert forall|i: int| 0 <= i < t.len() implies crate::text::is_digit(#[trigger] t[i]) by {
            if i < t.len() - 1 {
                assert(t[i] == decimal_text(n / 10)[i]);
            }
        }
    }
}

proof fn lemma_padded_text(n: nat)
    ensures
        padded_text(n).len() > 0,
        all_digits(padded_text(n)),
        digits_value(padded_text(n)) == n,
{
    if n < 10 {
        lemma_digit_char(n);
        let t = padded_text(n);
        assert(t.drop_last() =~= seq!['0']);
        assert(seq!['0'].drop_last() =~= Seq::<char>::empty());
        assert(digits_value(Seq::<char>::empty()) == 0);
        assert(digits_value(seq!['0']) == digits_value(seq!['0'].drop_last()) * 10 + digit_value('0'));
        assert(digits_value(t) == digits_value(t.drop_last()) * 10 + digit_value(t.last()));
    } else {
        lemma_decimal_text(n);
    }
}

proof fn lemma_split_at_colon(a: Seq<char>, b: Seq<char>)
    requires
        all_digits(a),
    ensures
        first_index(a + seq![':'] + b, ':') == a.len(),
    decreases a.len(),
{
    let s = a + seq![':'] + b;
    if a.len() == 0 {
        assert(s[0] == ':');
    } else {
        assert(crate::text::is_digit(a[0]));
        assert(s[0] == a[0]);
        assert(s.drop_first() =~= a.drop_first() + seq![':'] + b);
        assert forall|i: int| 0 <= i < a.drop_first().len() implies crate::text::is_digit(#[trigger] a.drop_first()[i]) by {
            assert(a.drop_first()[i] == a[i + 1]);
        }
        lemma_split_at_colon(a.drop_first(), b);
    }
}

/// Rendering a decoded duration as `HH:MM` and decoding that text again gives the
/// same duration: decoding is a left inverse of the rendering.
pub proof fn lemma_hhmm_round_trip(text: Seq<char>, d: Duration)
    requires
        duration_of(text) == Some(d),
    ensures
        duration_of(hhmm_text(d)) == Some(d),
{
    let p = first_index(text, ':');
    let total = digits_value(unsigned_part(text.subrange(0, p))) * 60
        + digits_value(unsigned_part(text.subrange(p + 1, text.len() as int)));
    assert(d.millis == total * 60000);
    assert(d.millis / 60000 == total) by (nonlinear_arith)
        requires
            d.millis == total * 60000,
    ;
    let m = (d.millis / 60000) as nat;
    let a = padded_text(m / 60);
    let b = padded_text(m % 60);
    lemma_padded_text(m / 60);
    lemma_padded_text(m % 60);
    lemma_split_at_colon(a, b);
    let s = hhmm_text(d);
    assert(s == a + seq![':'] + b);
    assert(s.subrange(0, a.len() as int) =~= a);
    assert(s.subrange(a.len() as int + 1, s.len() as int) =~= b);
    assert(crate::text::is_digit(a[0]));
    assert(crate::text::is_digit(b[0]));
    assert(unsigned_part(a) == a);
    assert(unsigned_part(b) == b);
    assert((m / 60) * 60 + m % 60 == m);
}

} // verus!
