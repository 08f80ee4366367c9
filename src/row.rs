//! One row of the log export, and its decoding into a typed event.

use vstd::prelude::*;
use crate::error::DecodeError;
use crate::event::{
    BottleEvent, BreastEvent, DiaperEvent, Event, FeedingEvent, MeasureEvent, Milk, NoteEvent,
    PumpingEvent, SleepEvent, TummyTimeEvent, event_time,
};
use crate::quantity::{Decimal, MAX_DECIMAL_SCALE, decimal_of, ml_of_ounces, ounces_to_ml, parse_decimal};
use crate::text::{bounded_value, chars_of, contains, contains_text, ends_with, ends_with_text, parse_digits, same_text, take_prefix};
use crate::time::{Duration, Timestamp, decode_duration, decode_timestamp, duration_of, reads_as, timestamp_layout, utc_seconds_of};

verus! {

/// A row as the export holds it: seven text fields, named by the header.
#[derive(Debug, Clone, PartialEq, Eq)]
pub struct RawRow {
    pub typ: String,
    pub start: String,
    pub end: String,
    pub duration: String,
    pub extra: String,
    pub extra2: String,
    pub note: String,
}

/// What the regular expression `pattern` captures in its first group at its
/// leftmost match in `text`; `None` where it does not match, where that group
/// takes no part, or where the pattern does not compile.
pub uninterp spec fn first_capture_of(pattern: Seq<char>, text: Seq<char>) -> Option<Seq<char>>;

/// Relies on regex's `Regex::new`, `Regex::captures` and `Captures::get(1)`: the
/// text of the first group at the leftmost match.
#[verifier::external_body]
fn first_capture(pattern: &str, text: &str) -> (r: Option<String>)
    ensures
        r is None <==> first_capture_of(pattern@, text@) is None,
        r matches Some(c) ==> first_capture_of(pattern@, text@) == Some(c@),
{
    match regex::Regex::new(pattern) {
        Ok(re) => re.captures(text).and_then(|c| c.get(1)).map(|m| m.as_str().to_string()),
        Err(_) => None,
    }
}

/// A left-side volume in a pumping note: `<N>L`.
pub open spec fn left_pattern() -> Seq<char> {
    "(\\d+)\\s*L"@
}

/// A right-side volume in a pumping note: `<N>R`.
pub open spec fn right_pattern() -> Seq<char> {
    "(\\d+)\\s*R"@
}

pub open spec fn weight_pattern() -> Seq<char> {
    "Weight: (\\d+(?:\\.\\d+)?) lb"@
}

pub open spec fn height_pattern() -> Seq<char> {
    "Height: (\\d+(?:\\.\\d+)?) in"@
}

pub open spec fn head_circ_pattern() -> Seq<char> {
    "Head circumference: (\\d+(?:\\.\\d+)?) in"@
}

/// The unit that ends a quantity in ounces.
pub open spec fn ounce_suffix() -> Seq<char> {
    " oz"@
}

/// A volume in whole millilitres, as a captured digit string reads.
pub open spec fn volume_of(capture: Option<Seq<char>>) -> Option<u32> {
    match capture {
        Some(c) => match bounded_value(c, 0x7fff_ffff) {
            Some(v) => Some(v as u32),
            None => None,
        },
        None => None,
    }
}

/// A measurement, as a captured decimal reads.
pub open spec fn measurement_of(capture: Option<Seq<char>>) -> Option<Decimal> {
    match capture {
        Some(c) => decimal_of(c),
        None => None,
    }
}

/// Whether a timestamp field fails to decode.
pub open spec fn bad_timestamp(text: Seq<char>) -> bool {
    utc_seconds_of(text, timestamp_layout()) is None
}

/// Whether an end field, which may be empty, fails to decode.
pub open spec fn bad_end(text: Seq<char>) -> bool {
    text.len() > 0 && bad_timestamp(text)
}

/// Whether `end` is a reading of an end field: absent exactly when it is empty.
pub open spec fn end_reads_as(text: Seq<char>, end: Option<Timestamp>) -> bool {
    if text.len() == 0 {
        end is None
    } else {
        end matches Some(t) && reads_as(text, t)
    }
}

/// The text before the ounce unit.
pub open spec fn quantity_text(extra: Seq<char>) -> Seq<char> {
    extra.subrange(0, extra.len() - 3)
}

/// The ounces in a quantity field: the number before the unit, or zero where the
/// field does not end in the unit or holds no number before it.
pub open spec fn ounces_of(extra: Seq<char>) -> Decimal {
    if ends_with_text(extra, ounce_suffix()) && decimal_of(quantity_text(extra)) is Some {
        decimal_of(quantity_text(extra)).unwrap()
    } else {
        Decimal { negative: false, digits: 0, scale: 0 }
    }
}

/// The first failure, in field order, of a row shaped as a session.
pub open spec fn session_error(row: RawRow) -> Option<DecodeError> {
    if bad_timestamp(row.start@) {
        Some(DecodeError::MalformedTimestamp)
    } else if bad_end(row.end@) {
        Some(DecodeError::MalformedTimestamp)
    } else if duration_of(row.duration@) is None {
        Some(DecodeError::MalformedDuration)
    } else {
        None
    }
}

/// The first failure, in field order, of a row whose only required field is its start.
pub open spec fn start_error(row: RawRow) -> Option<DecodeError> {
    if bad_timestamp(row.start@) {
        Some(DecodeError::MalformedTimestamp)
    } else {
        None
    }
}

/// Whether the session fields `start`, `end`, `duration` and `note` read the row.
pub open spec fn session_reads(
    row: RawRow,
    start: Timestamp,
    end: Option<Timestamp>,
    duration: Duration,
    note: String,
) -> bool {
    &&& reads_as(row.start@, start)
    &&& end_reads_as(row.end@, end)
    &&& duration_of(row.duration@) == Some(duration)
    &&& note@ == row.note@
}

pub open spec fn milk_of(extra2: Seq<char>) -> Milk {
    if extra2 == "Mom's milk"@ {
        Milk::BreastMilk
    } else if extra2 == "Formula"@ {
        Milk::Formula
    } else {
        Milk::Unknown
    }
}

pub open spec fn diaper_reads(row: RawRow, e: DiaperEvent) -> bool {
    &&& reads_as(row.start@, e.time)
    &&& e.pee == contains_text(row.extra@, "Urine"@)
    &&& e.poo == contains_text(row.extra@, "Feces"@)
    &&& e.note@ == row.note@
}

pub open spec fn bottle_reads(row: RawRow, e: BottleEvent) -> bool {
    &&& reads_as(row.start@, e.time)
    &&& e.milk == milk_of(row.extra2@)
    &&& e.ounces == ounces_of(row.extra@)
    &&& e.note@ == row.note@
}

pub open spec fn pumping_reads(row: RawRow, e: PumpingEvent) -> bool {
    &&& reads_as(row.start@, e.start)
    &&& e.volume_ml == ml_of_ounces(ounces_of(row.extra@))
    &&& e.left_ml == volume_of(first_capture_of(left_pattern(), row.note@))
    &&& e.right_ml == volume_of(first_capture_of(right_pattern(), row.note@))
    &&& e.note@ == row.note@
}

pub open spec fn measure_reads(row: RawRow, e: MeasureEvent) -> bool {
    &&& reads_as(row.start@, e.time)
    &&& e.weight == measurement_of(first_capture_of(weight_pattern(), row.note@))
    &&& e.height == measurement_of(first_capture_of(height_pattern(), row.note@))
    &&& e.head_circ == measurement_of(first_capture_of(head_circ_pattern(), row.note@))
    &&& e.note@ == row.note@
}


/// Decodes an end field: empty while the session is still open.
fn decode_end(text: &str) -> (r: Result<Option<Timestamp>, DecodeError>)
    ensures
        r is Err <==> bad_end(text@),
        r matches Ok(e) ==> end_reads_as(text@, e),
        r is Err ==> r == Err::<Option<Timestamp>, DecodeError>(DecodeError::MalformedTimestamp),
{
    if text.is_empty() {
        Ok(None)
    } else {
        match decode_timestamp(text) {
            Ok(t) => Ok(Some(t)),
            Err(x) => Err(x),
        }
    }
}

/// Decodes a quantity field: the ounces it names, zero where it names none.
fn decode_ounces(extra: &str) -> (r: Decimal)
    ensures
        r == ounces_of(extra@),
        r.scale <= MAX_DECIMAL_SCALE,
{
    let chars = chars_of(extra);
    if ends_with(&chars, " oz") {
        proof {
            reveal_strlit(" oz");
        }
        let number = take_prefix(&chars, chars.len() - 3);
        match parse_decimal(&number) {
            Some(d) => d,
            None => Decimal { negative: false, digits: 0, scale: 0 },
        }
    } else {
        Decimal { negative: false, digits: 0, scale: 0 }
    }
}

/// Reads a captured volume token, in whole millilitres: digits, no greater than
/// `i32::MAX`.
pub fn volume_from_capture(capture: &str) -> (r: Option<u32>)
    ensures
        r == volume_of(Some(capture@)),
{
    let digits = chars_of(capture);
    assert(digits@.subrange(0, digits@.len() as int) =~= digits@);
    match parse_digits(&digits, 0, digits.len(), 0x7fff_ffff) {
        Some(v) => Some(v as u32),
        None => None,
    }
}

/// Reads a captured measurement as a decimal.
pub fn measurement_from_capture(capture: &str) -> (r: Option<Decimal>)
    ensures
        r == measurement_of(Some(capture@)),
{
    parse_decimal(&chars_of(capture))
}

/// The volume that `pattern` captures in `note`, in whole millilitres.
fn capture_volume(pattern: &str, note: &str) -> (r: Option<u32>)
    ensures
        r == volume_of(first_capture_of(pattern@, note@)),
{
    match first_capture(pattern, note) {
        Some(c) => volume_from_capture(c.as_str()),
        None => None,
    }
}

/// The measurement that `pattern` captures in `note`.
fn capture_measurement(pattern: &str, note: &str) -> (r: Option<Decimal>)
    ensures
        r == measurement_of(first_capture_of(pattern@, note@)),
{
    match first_capture(pattern, note) {
        Some(c) => measurement_from_capture(c.as_str()),
        None => None,
    }
}

impl RawRow {
    /// Decodes the start, end and duration of a row shaped as a session.
    fn to_session(&self) -> (r: Result<(Timestamp, Option<Timestamp>, Duration), DecodeError>)
        ensures
            r is Ok <==> session_error(*self) is None,
            r matches Err(x) ==> session_error(*self) == Some(x),
            r matches Ok(s) ==> session_reads(*self, s.0, s.1, s.2, self.note),
    {
        let start = match decode_timestamp(self.start.as_str()) {
            Ok(t) => t,
            Err(x) => return Err(x),
        };
        let end = match decode_end(self.end.as_str()) {
            Ok(e) => e,
            Err(x) => return Err(x),
        };
        let duration = match decode_duration(&chars_of(self.duration.as_str())) {
            Ok(d) => d,
            Err(x) => return Err(x),
        };
        Ok((start, end, duration))
    }

    pub fn to_sleep_event(&self) -> (r: Result<SleepEvent, DecodeError>)
        ensures
            r is Ok <==> session_error(*self) is None,
            r matches Err(x) ==> session_error(*self) == Some(x),
            r matches Ok(e) ==> session_reads(*self, e.start, e.end, e.duration, e.note),
    {
        match self.to_session() {
            Ok(s) => Ok(SleepEvent { start: s.0, end: s.1, duration: s.2, note: self.note.clone() }),
            Err(x) => Err(x),
        }
    }

    pub fn to_breast_event(&self) -> (r: Result<BreastEvent, DecodeError>)
        ensures
            r is Ok <==> session_error(*self) is None,
            r matches Err(x) ==> session_error(*self) == Some(x),
            r matches Ok(e) ==> session_reads(*self, e.start, e.end, e.duration, e.note),
    {
        match self.to_session() {
            Ok(s) => Ok(BreastEvent { start: s.0, end: s.1, duration: s.2, note: self.note.clone() }),
            Err(x) => Err(x),
        }
    }

    pub fn to_tummy_time_event(&self) -> (r: Result<TummyTimeEvent, DecodeError>)
        ensures
            r is Ok <==> session_error(*self) is None,
            r matches Err(x) ==> session_error(*self) == Some(x),
            r matches Ok(e) ==> session_reads(*self, e.start, e.end, e.duration, e.note),
    {
        match self.to_session() {
            Ok(s) => Ok(TummyTimeEvent { start: s.0, end: s.1, duration: s.2, note: self.note.clone() }),
            Err(x) => Err(x),
        }
    }

    pub fn to_diaper_event(&self) -> (r: Result<DiaperEvent, DecodeError>)
        ensures
            r is Ok <==> start_error(*self) is None,
            r matches Err(x) ==> start_error(*self) == Some(x),
            r matches Ok(e) ==> diaper_reads(*self, e),
    {
        let time = match decode_timestamp(self.start.as_str()) {
            Ok(t) => t,
            Err(x) => return Err(x),
        };
        let extra = chars_of(self.extra.as_str());
        Ok(DiaperEvent {
            time,
            pee: contains(&extra, "Urine"),
            poo: contains(&extra, "Feces"),
            note: self.note.clone(),
        })
    }

    pub fn to_bottle_event(&self) -> (r: Result<BottleEvent, DecodeError>)
        ensures
            r is Ok <==> start_error(*self) is None,
            r matches Err(x) ==> start_error(*self) == Some(x),
            r matches Ok(e) ==> bottle_reads(*self, e),
    {
        let time = match decode_timestamp(self.start.as_str()) {
            Ok(t) => t,
            Err(x) => return Err(x),
        };
        let kind = chars_of(self.extra2.as_str());
        let milk = if same_text(&kind, "Mom's milk") {
            Milk::BreastMilk
        } else if same_text(&kind, "Formula") {
            Milk::Formula
        } else {
            Milk::Unknown
        };
        let ounces = decode_ounces(self.extra.as_str());
        Ok(BottleEvent { time, milk, ounces, note: self.note.clone() })
    }

    pub fn to_pumping_event(&self) -> (r: Result<PumpingEvent, DecodeError>)
        ensures
            r is Ok <==> start_error(*self) is None,
            r matches Err(x) ==> start_error(*self) == Some(x),
            r matches Ok(e) ==> pumping_reads(*self, e),
    {
        let left = capture_volume("(\\d+)\\s*L", self.note.as_str());
        let right = capture_volume("(\\d+)\\s*R", self.note.as_str());
        let start = match decode_timestamp(self.start.as_str()) {
            Ok(t) => t,
            Err(x) => return Err(x),
        };
        let volume_ml = ounces_to_ml(decode_ounces(self.extra.as_str()));
        Ok(PumpingEvent { start, volume_ml, left_ml: left, right_ml: right, note: self.note.clone() })
    }

    pub fn to_measure_event(&self) -> (r: Result<MeasureEvent, DecodeError>)
        ensures
            r is Ok <==> start_error(*self) is None,
            r matches Err(x) ==> start_error(*self) == Some(x),
            r matches Ok(e) ==> measure_reads(*self, e),
    {
        let weight = capture_measurement("Weight: (\\d+(?:\\.\\d+)?) lb", self.note.as_str());
        let height = capture_measurement("Height: (\\d+(?:\\.\\d+)?) in", self.note.as_str());
        let head_circ = capture_measurement("Head circumference: (\\d+(?:\\.\\d+)?) in", self.note.as_str());
        let time = match decode_timestamp(self.start.as_str()) {
            Ok(t) => t,
            Err(x) => return Err(x),
        };
        Ok(MeasureEvent { time, weight, height, head_circ, note: self.note.clone() })
    }

    pub fn to_note_event(&self) -> (r: Result<NoteEvent, DecodeError>)
        ensures
            r is Ok <==> start_error(*self) is None,
            r matches Err(x) ==> start_error(*self) == Some(x),
            r matches Ok(e) ==> reads_as(self.start@, e.time) && e.note@ == self.note@,
    {
        let time = match decode_timestamp(self.start.as_str()) {
            Ok(t) => t,
            Err(x) => return Err(x),
        };
        Ok(NoteEvent { time, note: self.note.clone() })
    }
}


/// The result that one row decodes to. The type tag picks the kind of event; the
/// first field that fails, in order, gives the error; an unknown tag is an error
/// that names it.
pub open spec fn decodes_to(row: RawRow, r: Result<Event, DecodeError>) -> bool {
    let t = row.typ@;
    if t == "Sleep"@ {
        match session_error(row) {
            Some(x) => r == Err::<Event, DecodeError>(x),
            None => r matches Ok(Event::Sleep(e)) && session_reads(row, e.start, e.end, e.duration, e.note),
        }
    } else if t == "Diaper"@ {
        match start_error(row) {
            Some(x) => r == Err::<Event, DecodeError>(x),
            None => r matches Ok(Event::Diaper(e)) && diaper_reads(row, e),
        }
    } else if t == "Bottle feeding"@ {
        match start_error(row) {
            Some(x) => r == Err::<Event, DecodeError>(x),
            None => r matches Ok(Event::Feeding(FeedingEvent::Bottle(e))) && bottle_reads(row, e),
        }
    } else if t == "Left breast"@ {
        match session_error(row) {
            Some(x) => r == Err::<Event, DecodeError>(x),
            None => r matches Ok(Event::Feeding(FeedingEvent::LeftBreast(e)))
                && session_reads(row, e.start, e.end, e.duration, e.note),
        }
    } else if t == "Right breast"@ {
        match session_error(row) {
            Some(x) => r == Err::<Event, DecodeError>(x),
            None => r matches Ok(Event::Feeding(FeedingEvent::RightBreast(e)))
                && session_reads(row, e.start, e.end, e.duration, e.note),
        }
    } else if t == "Pumping"@ {
        match start_error(row) {
            Some(x) => r == Err::<Event, DecodeError>(x),
            None => r matches Ok(Event::Pumping(e)) && pumping_reads(row, e),
        }
    } else if t == "Vaccination"@ {
        match session_error(row) {
            Some(x) => r == Err::<Event, DecodeError>(x),
            None => r matches Ok(Event::TummyTime(e)) && session_reads(row, e.start, e.end, e.duration, e.note),
        }
    } else if t == "Measure"@ {
        match start_error(row) {
            Some(x) => r == Err::<Event, DecodeError>(x),
            None => r matches Ok(Event::Measure(e)) && measure_reads(row, e),
        }
    } else if t == "Note"@ {
        match start_error(row) {
            Some(x) => r == Err::<Event, DecodeError>(x),
            None => r matches Ok(Event::Note(e)) && reads_as(row.start@, e.time) && e.note@ == row.note@,
        }
    } else {
        r matches Err(DecodeError::UnknownEventType(name)) && name@ == t
    }
}

/// Whether a type tag names one of the kinds of event.
pub open spec fn known_type(t: Seq<char>) -> bool {
    t == "Sleep"@ || t == "Diaper"@ || t == "Bottle feeding"@ || t == "Left breast"@
        || t == "Right breast"@ || t == "Pumping"@ || t == "Vaccination"@ || t == "Measure"@
        || t == "Note"@
}

impl RawRow {
    /// Decodes the row into the event that its type tag names.
    pub fn to_event(&self) -> (r: Result<Event, DecodeError>)
        ensures
            decodes_to(*self, r),
    {
        let t = chars_of(self.typ.as_str());
        if same_text(&t, "Sleep") {
            match self.to_sleep_event() {
                Ok(e) => Ok(Event::Sleep(e)),
                Err(x) => Err(x),
            }
        } else if same_text(&t, "Diaper") {
            match self.to_diaper_event() {
                Ok(e) => Ok(Event::Diaper(e)),
                Err(x) => Err(x),
            }
        } else if same_text(&t, "Bottle feeding") {
            match self.to_bottle_event() {
                Ok(e) => Ok(Event::Feeding(FeedingEvent::Bottle(e))),
                Err(x) => Err(x),
            }
        } else if same_text(&t, "Left breast") {
            match self.to_breast_event() {
                Ok(e) => Ok(Event::Feeding(FeedingEvent::LeftBreast(e))),
                Err(x) => Err(x),
            }
        } else if same_text(&t, "Right breast") {
            match self.to_breast_event() {
                Ok(e) => Ok(Event::Feeding(FeedingEvent::RightBreast(e))),
                Err(x) => Err(x),
            }
        } else if same_text(&t, "Pumping") {
            match self.to_pumping_event() {
                Ok(e) => Ok(Event::Pumping(e)),
                Err(x) => Err(x),
            }
        } else if same_text(&t, "Vaccination") {
            match self.to_tummy_time_event() {
                Ok(e) => Ok(Event::TummyTime(e)),
                Err(x) => Err(x),
            }
        } else if same_text(&t, "Measure") {
            match self.to_measure_event() {
                Ok(e) => Ok(Event::Measure(e)),
                Err(x) => Err(x),
            }
        } else if same_text(&t, "Note") {
            match self.to_note_event() {
                Ok(e) => Ok(Event::Note(e)),
                Err(x) => Err(x),
            }
        } else {
            Err(DecodeError::UnknownEventType(self.typ.clone()))
        }
    }

    /// Decodes the row, consuming it.
    pub fn into_event(self) -> (r: Result<Event, DecodeError>)
        ensures
            decodes_to(self, r),
    {
        self.to_event()
    }
}

/// Turns one item of the row source into one item of the event stream: a failure
/// of the source passes through, a row is decoded.
pub fn decode_item(item: Result<RawRow, String>) -> (r: Result<Event, DecodeError>)
    ensures
        item matches Ok(row) ==> decodes_to(row, r),
        item matches Err(m) ==> r matches Err(DecodeError::RowSource(n)) && n@ == m@,
{
    match item {
        Ok(row) => row.into_event(),
        Err(m) => Err(DecodeError::RowSource(m)),
    }
}

/// Decodes rows in order: one result per row, each from that row alone.
pub fn decode_rows(rows: &Vec<RawRow>) -> (r: Vec<Result<Event, DecodeError>>)
    ensures
        r@.len() == rows@.len(),
        forall|i: int| 0 <= i < rows@.len() ==> decodes_to(#[trigger] rows@[i], r@[i]),
{
    let mut r: Vec<Result<Event, DecodeError>> = Vec::new();
    let mut i: usize = 0;
    while i < rows.len()
        invariant
            i <= rows@.len(),
            r@.len() == i,
            forall|j: int| 0 <= j < i ==> decodes_to(#[trigger] rows@[j], r@[j]),
        decreases rows.len() - i,
    {
        r.push(rows[i].to_event());
        i += 1;
    }
    r
}

/// Every event that a row decodes to happens at the instant that the row's start
/// field names.
pub proof fn lemma_event_time_is_start(row: RawRow, e: Event)
    requires
        decodes_to(row, Ok(e)),
    ensures
        reads_as(row.start@, event_time(e)),
{
}

/// A row whose type tag is unknown decodes to exactly one error, which names the
/// tag, and takes nothing from the other rows: each of them still decodes from
/// itself alone, and none with a known tag gives that error.
pub proof fn lemma_unknown_type_is_isolated(
    rows: Seq<RawRow>,
    results: Seq<Result<Event, DecodeError>>,
    i: int,
)
    requires
        0 <= i < rows.len(),
        results.len() == rows.len(),
        forall|j: int| 0 <= j < rows.len() ==> decodes_to(#[trigger] rows[j], results[j]),
        !known_type(rows[i].typ@),
    ensures
        results[i] matches Err(DecodeError::UnknownEventType(name)) && name@ == rows[i].typ@,
        forall|j: int| 0 <= j < rows.len() && j != i ==> decodes_to(#[trigger] rows[j], results[j]),
        forall|j: int| 0 <= j < rows.len() && j != i && known_type(rows[j].typ@)
            ==> !(#[trigger] results[j] matches Err(DecodeError::UnknownEventType(_))),
{
    assert(decodes_to(rows[i], results[i]));
    assert forall|j: int| 0 <= j < rows.len() && j != i && known_type(rows[j].typ@)
        implies !(#[trigger] results[j] matches Err(DecodeError::UnknownEventType(_))) by {
        assert(decodes_to(rows[j], results[j]));
    }
}

} // verus!
