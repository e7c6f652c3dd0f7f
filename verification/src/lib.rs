//! Core of a community litter-cleanup service: the report lifecycle state
//! machine (Pending -> Claimed -> Cleared -> Verified), the peer-verification
//! quorum, and the scoring engine with streaks, area bonuses and leaderboards.
//!
//! All state lives in an in-memory model of the relational store. Every
//! transition validates the current state as part of the same atomic update,
//! so a lost race is detected by the update itself, never trusted from an
//! earlier read. Collaborators that the service consumes - the clock, the
//! image store, the user directory - enter only as plain values.

pub mod admin;
pub mod auth;
pub mod clock;
pub mod config;
pub mod digits;
pub mod error;
pub mod feed;
pub mod geo;
pub mod laws;
pub mod leaderboard;
pub mod lifecycle;
pub mod queries;
pub mod quorum;
pub mod report;
pub mod score;
pub(crate) mod select;
pub mod scoring;
pub mod store;
pub mod templates;
pub mod user;
pub mod verification;
