//! Harvesting pipeline for historical game results and trailing-30-day team
//! performance snapshots: a fixed-schedule calendar, a lenient/strict stat
//! normalizer over a modelled JSON value, a schedule walker with its skip and
//! validation rules, a bounded-retry fetch policy, a checkpointed work queue
//! over (season, team) pairs, and deterministic output paths.
//!
//! All network and file I/O is performed by the surrounding application; this
//! crate holds the decisions and computations between those edges.

pub mod calendar;
pub mod checkpoint;
pub mod errors;
pub mod fetcher;
pub mod harvest;
pub mod json;
pub mod rate;
pub mod schedule;
pub mod stats;
pub mod team;
pub mod text;
