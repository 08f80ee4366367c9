//! The typed events of the log, and how one raw row becomes one of them.

use vstd::prelude::*;
use crate::quantity::Decimal;
use crate::time::{Duration, Timestamp};

verus! {

/// What kind of milk a bottle held.
#[derive(Debug, Clone, Copy, PartialEq, Eq, Structural)]
pub enum Milk {
    BreastMilk,
    Formula,
    Unknown,
}

/// A stretch of sleep; `end` is absent while it is still going on.
#[derive(Debug, Clone, PartialEq, Eq)]
pub struct SleepEvent {
    pub start: Timestamp,
    pub end: Option<Timestamp>,
    pub duration: Duration,
    pub note: String,
}

#[derive(Debug, Clone, PartialEq, Eq)]
pub struct DiaperEvent {
    pub time: Timestamp,
    pub pee: bool,
    pub poo: bool,
    pub note: String,
}

#[derive(Debug, Clone, PartialEq, Eq)]
pub enum FeedingEvent {
    Bottle(BottleEvent),
    LeftBreast(BreastEvent),
    RightBreast(BreastEvent),
}

#[derive(Debug, Clone, PartialEq, Eq)]
pub struct BottleEvent {
    pub time: Timestamp,
    pub milk: Milk,
    pub ounces: Decimal,
    pub note: String,
}

#[derive(Debug, Clone, PartialEq, Eq)]
pub struct BreastEvent {
    pub start: Timestamp,
    pub end: Option<Timestamp>,
    pub duration: Duration,
    pub note: String,
}

/// A pumping session; the left and right volumes, when the note gives them, need
/// not add up to the total.
#[derive(Debug, Clone, PartialEq, Eq)]
pub struct PumpingEvent {
    pub start: Timestamp,
    pub volume_ml: i32,
    pub left_ml: Option<u32>,
    pub right_ml: Option<u32>,
    pub note: String,
}

#[derive(Debug, Clone, PartialEq, Eq)]
pub struct TummyTimeEvent {
    pub start: Timestamp,
    pub end: Option<Timestamp>,
    pub duration: Duration,
    pub note: String,
}

/// Growth measurements: weight in pounds, height and head circumference in inches.
#[derive(Debug, Clone, PartialEq, Eq)]
pub struct MeasureEvent {
    pub time: Timestamp,
    pub weight: Option<Decimal>,
    pub height: Option<Decimal>,
    pub head_circ: Option<Decimal>,
    pub note: String,
}

#[derive(Debug, Clone, PartialEq, Eq)]
pub struct NoteEvent {
    pub time: Timestamp,
    pub note: String,
}

#[derive(Debug, Clone, PartialEq, Eq)]
pub enum Event {
    Sleep(SleepEvent),
    Diaper(DiaperEvent),
    Feeding(FeedingEvent),
    Pumping(PumpingEvent),
    TummyTime(TummyTimeEvent),
    Measure(MeasureEvent),
    Note(NoteEvent),
}

pub open spec fn feeding_time(f: FeedingEvent) -> Timestamp {
    match f {
        FeedingEvent::Bottle(r) => r.time,
        FeedingEvent::LeftBreast(r) => r.start,
        FeedingEvent::RightBreast(r) => r.start,
    }
}

/// The instant an event started or happened.
pub open spec fn event_time(e: Event) -> Timestamp {
    match e {
        Event::Sleep(r) => r.start,
        Event::Diaper(r) => r.time,
        Event::Feeding(r) => feeding_time(r),
        Event::Pumping(r) => r.start,
        Event::TummyTime(r) => r.start,
        Event::Measure(r) => r.time,
        Event::Note(r) => r.time,
    }
}

impl FeedingEvent {
    pub fn time(&self) -> (r: Timestamp)
        ensures
            r == feeding_time(*self),
    {
        match self {
            FeedingEvent::Bottle(r) => r.time,
            FeedingEvent::LeftBreast(r) => r.start,
            FeedingEvent::RightBreast(r) => r.start,
        }
    }
}

impl Event {
    /// The instant the event started or happened.
    pub fn time(&self) -> (r: Timestamp)
        ensures
            r == event_time(*self),
    {
        match self {
            Event::Sleep(r) => r.start,
            Event::Diaper(r) => r.time,
            Event::Feeding(r) => r.time(),
            Event::Pumping(r) => r.start,
            Event::TummyTime(r) => r.start,
            Event::Measure(r) => r.time,
            Event::Note(r) => r.time,
        }
    }
}

impl PumpingEvent {
    /// The total volume in ounces, rounded toward zero to thousandths.
    pub fn oz(&self) -> (r: Decimal)
        ensures
            r.negative == (self.volume_ml < 0),
            r.scale == 3,
            r.digits == (if self.volume_ml < 0 { -self.volume_ml } else { self.volume_ml as int }) * 1000000 / 29574,
    {
        let size: u64 = if self.volume_ml < 0 {
            (0 - self.volume_ml as i64) as u64
        } else {
            self.volume_ml as u64
        };
        Decimal { negative: self.volume_ml < 0, digits: size * 1000000 / 29574, scale: 3 }
    }
}

} // verus!
