//! Score aggregates, the score-event ledger, and leaderboard entries.

use vstd::prelude::*;
use crate::clock::{MAX_TIMESTAMP, MAX_DAY};

verus! {

/// Per-user score aggregate, mutated only by the scoring engine.
#[derive(Debug, Clone, Copy, PartialEq, Eq, Structural)]
pub struct UserScore {
    pub user_id: u64,
    pub total_points: i32,
    pub reports_cleared: i32,
    pub current_streak: i32,
    pub longest_streak: i32,
    pub last_cleared_date: Option<i64>,
    pub created_at: i64,
    pub updated_at: i64,
}

impl UserScore {
    /// Invariant of an aggregate: counters are non-negative, the current
    /// streak never exceeds the longest nor the number of clears, and a
    /// recorded last-clear day is a day the model accepts.
    pub open spec fn wf(self) -> bool {
        &&& 0 <= self.total_points
        &&& 0 <= self.reports_cleared
        &&& 0 <= self.current_streak <= self.longest_streak
        &&& self.current_streak <= self.reports_cleared
        &&& (self.last_cleared_date matches Some(d) ==> 0 <= d <= MAX_DAY)
        &&& (self.last_cleared_date is Some <==> self.reports_cleared > 0)
        &&& 0 <= self.created_at <= MAX_TIMESTAMP
        &&& 0 <= self.updated_at <= MAX_TIMESTAMP
    }

    /// A fresh aggregate for a user who has not scored yet.
    pub open spec fn init_spec(user_id: u64, now: i64) -> UserScore {
        UserScore {
            user_id,
            total_points: 0,
            reports_cleared: 0,
            current_streak: 0,
            longest_streak: 0,
            last_cleared_date: None,
            created_at: now,
            updated_at: now,
        }
    }
}

/// What a ledger event was awarded for.
#[derive(Debug, Clone, Copy, PartialEq, Eq, Structural)]
pub enum ScoreEventKind {
    Clear,
    Verification,
    VerifiedBonus,
}

/// One entry of the append-only score ledger; time-windowed leaderboards sum
/// these.
#[derive(Debug, Clone, Copy, PartialEq, Eq, Structural)]
pub struct ScoreEvent {
    pub user_id: u64,
    pub kind: ScoreEventKind,
    pub points: i32,
    pub report_id: Option<u64>,
    pub created_at: i64,
}

impl ScoreEvent {
    pub open spec fn wf(self) -> bool {
        &&& 0 <= self.points
        &&& 0 <= self.created_at <= MAX_TIMESTAMP
    }
}

/// One row of a leaderboard.
#[derive(Debug)]
pub struct LeaderboardEntry {
    pub user_id: u64,
    pub full_name: String,
    pub city: String,
    pub country: String,
    pub total_points: i64,
    pub reports_cleared: u64,
    pub current_streak: i32,
    pub rank: i64,
}

/// Mathematical image of a leaderboard row.
pub ghost struct LeaderboardEntryV {
    pub user_id: u64,
    pub full_name: Seq<char>,
    pub city: Seq<char>,
    pub country: Seq<char>,
    pub total_points: i64,
    pub reports_cleared: u64,
    pub current_streak: i32,
    pub rank: i64,
}

impl View for LeaderboardEntry {
    type V = LeaderboardEntryV;

    open spec fn view(&self) -> LeaderboardEntryV {
        LeaderboardEntryV {
            user_id: self.user_id,
            full_name: self.full_name@,
            city: self.city@,
            country: self.country@,
            total_points: self.total_points,
            reports_cleared: self.reports_cleared,
            current_streak: self.current_streak,
            rank: self.rank,
        }
    }
}

/// Selects a leaderboard's time window.
#[derive(Debug)]
pub struct LeaderboardQuery {
    pub period: Option<String>,
}

} // verus!
