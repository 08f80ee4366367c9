//! Typed events and daily statistics for an infant-care log.
//!
//! Rows of the export are decoded into events ([`row`]), grouped by local day
//! ([`group`]) and reduced to per-day figures ([`stats`], [`wakeups`]).

pub mod chart;
pub mod error;
pub mod event;
pub mod group;
pub mod quantity;
pub mod row;
pub mod stats;
pub mod text;
pub mod time;
pub mod wakeups;

pub use chart::Grid;
pub use error::DecodeError;
pub use event::{
    BottleEvent, BreastEvent, DiaperEvent, Event, FeedingEvent, MeasureEvent, Milk, NoteEvent,
    PumpingEvent, SleepEvent, TummyTimeEvent,
};
pub use group::{DayBucket, group_by_day};
pub use quantity::Decimal;
pub use row::{RawRow, decode_item, decode_rows};
pub use stats::{events_by_day, max_duration_per_day, sleep_events, sleeps_by_end_day, sleeps_per_day, windowed_mean};
pub use time::{Duration, Timestamp, decode_duration, decode_timestamp};
pub use wakeups::{count_wakeups, sort_by_start, wakeups_by_day};
