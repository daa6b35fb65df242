//! Playback-continuity core: alternative-track matching, the search cache,
//! the ordered queue and the session watchdog.
pub mod display;
pub mod track;
pub mod scoring;
pub mod ranking;
pub mod query;
pub mod matcher;
pub mod queue;
pub mod cache;
pub mod watchdog;
pub mod recovery;
