//! The scoring engine: point awards, streaks, the first-in-area bonus, and
//! verification eligibility.
//!
//! Every award is one atomic update of the user's aggregate plus one appended
//! ledger event; a counter that would no longer fit its column aborts the
//! whole award, leaving the store untouched.

use vstd::prelude::*;
use vstd::pervasive::VecAdditionalExecFns;
use crate::clock::{day_of, day_of_spec, day_ok, ts_ok};
use crate::config::ScoringConfig;
use crate::error::AppError;
use crate::geo::{is_within_radius, within_radius, Location};
use crate::report::LitterReport;
use crate::score::{ScoreEvent, ScoreEventKind, UserScore};
use crate::store::{
    has_score, lemma_score_idx_is, score_idx, score_users_unique, Store, StoreV,
};

verus! {

/// Radius, in metres, of the area the first-in-area bonus looks at.
pub const AREA_RADIUS_M: i64 = 1_000;

/// How far back, in seconds, the first-in-area bonus looks.
pub const AREA_WINDOW_SECONDS: i64 = 86_400;

/// The streak a clear on day `today` moves the aggregate to: a first-ever
/// clear starts at one, a repeat on the same day keeps the streak, the next
/// day extends it, and any other gap - forward or backward - resets it.
pub open spec fn streak_after(score: UserScore, today: i64) -> int {
    match score.last_cleared_date {
        None => 1,
        Some(last) => if today == last {
            score.current_streak as int
        } else if today - last == 1 {
            score.current_streak + 1
        } else {
            1
        },
    }
}

/// Whether the clear continued a streak: a first-ever clear or a
/// consecutive-day clear does, a same-day repeat or a reset does not.
pub open spec fn streak_continued(score: UserScore, today: i64) -> bool {
    match score.last_cleared_date {
        None => true,
        Some(last) => today - last == 1,
    }
}

/// The points one clear earns under `cfg`, given the streak it moves the
/// user to and whether it was first in its area.
pub open spec fn clear_points_spec(cfg: ScoringConfig, new_streak: int, first_in_area: bool) -> int {
    cfg.base_points_per_clear + new_streak * cfg.streak_bonus_points + if first_in_area {
        cfg.first_in_area_bonus as int
    } else {
        0int
    }
}

/// Whether `r` records a clear by someone other than `user_id`, within the
/// bonus window before `now`, within the bonus radius of `loc`.
pub open spec fn other_recent_clear_near(
    r: LitterReport,
    loc: Location,
    user_id: u64,
    now: i64,
) -> bool {
    &&& r.cleared_by matches Some(u) && u != user_id
    &&& r.cleared_at matches Some(t) && t > now - AREA_WINDOW_SECONDS
    &&& within_radius(r.location, loc, AREA_RADIUS_M as int)
}

/// A clear at `loc` is first in its area when no other user's clear is
/// recorded within the bonus radius in the window before `now`.
pub open spec fn first_in_area_spec(
    reports: Seq<LitterReport>,
    loc: Location,
    user_id: u64,
    now: i64,
) -> bool {
    forall|i: int|
        0 <= i < reports.len() ==> !other_recent_clear_near(#[trigger] reports[i], loc, user_id, now)
}

/// The aggregate a user scores against: their stored one, or a fresh one if
/// they have not scored yet.
pub open spec fn pre_score_spec(s: StoreV, user_id: u64, now: i64) -> UserScore {
    if has_score(s.scores, user_id) {
        s.scores[score_idx(s.scores, user_id)]
    } else {
        UserScore::init_spec(user_id, now)
    }
}

/// The aggregates after writing `ns` for `user_id`: updated in place when a
/// row exists, appended otherwise.
pub open spec fn scores_with(s: Seq<UserScore>, user_id: u64, ns: UserScore) -> Seq<UserScore> {
    if has_score(s, user_id) {
        s.update(score_idx(s, user_id), ns)
    } else {
        s.push(ns)
    }
}

/// Whether every counter a clear award writes still fits its column.
pub open spec fn clear_fits(score: UserScore, cfg: ScoringConfig, today: i64, first: bool) -> bool {
    let pts = clear_points_spec(cfg, streak_after(score, today), first);
    &&& score.reports_cleared + 1 <= i32::MAX
    &&& pts <= i32::MAX
    &&& score.total_points + pts <= i32::MAX
}

/// The aggregate after a clear on day `today`: points added, the clear
/// counted, the streak moved and the longest streak kept up to date.
pub open spec fn score_after_clear(
    score: UserScore,
    cfg: ScoringConfig,
    today: i64,
    first: bool,
    now: i64,
) -> UserScore {
    let ns = streak_after(score, today);
    let pts = clear_points_spec(cfg, ns, first);
    UserScore {
        total_points: (score.total_points + pts) as i32,
        reports_cleared: (score.reports_cleared + 1) as i32,
        current_streak: ns as i32,
        longest_streak: (if ns > score.longest_streak {
            ns
        } else {
            score.longest_streak as int
        }) as i32,
        last_cleared_date: Some(today),
        updated_at: now,
        ..score
    }
}

/// Full effect of `award_clear_points`: on success the aggregate becomes
/// `score_after_clear` and one `Clear` event is appended; when a counter
/// would overflow, the award fails as `Internal` and nothing changes. No
/// other table moves either way.
pub open spec fn award_clear_post(
    pre: StoreV,
    post: StoreV,
    user_id: u64,
    report_id: u64,
    location: Location,
    now: i64,
    r: Result<UserScore, AppError>,
) -> bool {
    let today = day_of_spec(now) as i64;
    let base = pre_score_spec(pre, user_id, now);
    let first = first_in_area_spec(pre.reports, location, user_id, now);
    let ns = score_after_clear(base, pre.config, today, first, now);
    &&& post.config == pre.config
    &&& post.users == pre.users
    &&& post.reports == pre.reports
    &&& post.verifications == pre.verifications
    &&& post.next_report_id == pre.next_report_id
    &&& post.next_verification_id == pre.next_verification_id
    &&& if clear_fits(base, pre.config, today, first) {
        &&& r matches Ok(s) && s == ns
        &&& post.scores == scores_with(pre.scores, user_id, ns)
        &&& post.events == pre.events.push(
            ScoreEvent {
                user_id,
                kind: ScoreEventKind::Clear,
                points: clear_points_spec(pre.config, streak_after(base, today), first) as i32,
                report_id: Some(report_id),
                created_at: now,
            },
        )
    } else {
        &&& r matches Err(AppError::Internal(_))
        &&& post.scores == pre.scores
        &&& post.events == pre.events
    }
}

/// Full effect of a flat award (`award_verification_points` and
/// `award_verified_report_bonus`): `bonus` points are added to the user's
/// aggregate and one event of `kind` is appended, or the award fails as
/// `Internal` and nothing changes.
pub open spec fn flat_award_post(
    pre: StoreV,
    post: StoreV,
    user_id: u64,
    bonus: i32,
    kind: ScoreEventKind,
    now: i64,
    r: Result<UserScore, AppError>,
) -> bool {
    let base = pre_score_spec(pre, user_id, now);
    let ns = UserScore { total_points: (base.total_points + bonus) as i32, updated_at: now, ..base };
    &&& post.config == pre.config
    &&& post.users == pre.users
    &&& post.reports == pre.reports
    &&& post.verifications == pre.verifications
    &&& post.next_report_id == pre.next_report_id
    &&& post.next_verification_id == pre.next_verification_id
    &&& if base.total_points + bonus <= i32::MAX {
        &&& r matches Ok(s) && s == ns
        &&& post.scores == scores_with(pre.scores, user_id, ns)
        &&& post.events == pre.events.push(
            ScoreEvent { user_id, kind, points: bonus, report_id: None, created_at: now },
        )
    } else {
        &&& r matches Err(AppError::Internal(_))
        &&& post.scores == pre.scores
        &&& post.events == pre.events
    }
}

/// Full effect of reading (and lazily creating) a user's aggregate.
pub open spec fn get_or_create_post(pre: StoreV, post: StoreV, user_id: u64, now: i64) -> bool {
    &&& post.config == pre.config
    &&& post.users == pre.users
    &&& post.reports == pre.reports
    &&& post.verifications == pre.verifications
    &&& post.events == pre.events
    &&& post.next_report_id == pre.next_report_id
    &&& post.next_verification_id == pre.next_verification_id
    &&& if has_score(pre.scores, user_id) {
        post.scores == pre.scores
    } else {
        post.scores == pre.scores.push(UserScore::init_spec(user_id, now))
    }
}

/// Writing one user's aggregate neither adds, removes nor changes any other
/// user's aggregate.
pub proof fn lemma_scores_with_other(s: Seq<UserScore>, u1: u64, ns: UserScore, u2: u64)
    requires
        score_users_unique(s),
        ns.user_id == u1,
        u1 != u2,
    ensures
        has_score(scores_with(s, u1, ns), u2) == has_score(s, u2),
        has_score(s, u2) ==> scores_with(s, u1, ns)[score_idx(scores_with(s, u1, ns), u2)] == s[
            score_idx(s, u2)
        ],
{
    let w = scores_with(s, u1, ns);
    if has_score(s, u1) {
        let k1 = score_idx(s, u1);
        assert(0 <= k1 < s.len() && s[k1].user_id == u1);
        if has_score(s, u2) {
            let k2 = score_idx(s, u2);
            assert(0 <= k2 < s.len() && s[k2].user_id == u2);
            assert(k2 != k1);
            assert(w[k2] == s[k2]);
            assert(has_score(w, u2));
            let k3 = choose|k: int| 0 <= k < w.len() && w[k].user_id == u2;
            assert(w[k3].user_id == u2);
            assert(k3 != k1);
            assert(w[k3] == s[k3]);
            assert(k3 == k2);
        } else {
            if has_score(w, u2) {
                let k = choose|k: int| 0 <= k < w.len() && w[k].user_id == u2;
                assert(k != k1);
                assert(w[k] == s[k]);
                assert(has_score(s, u2));
            }
        }
    } else {
        if has_score(s, u2) {
            let k2 = score_idx(s, u2);
            assert(0 <= k2 < s.len() && s[k2].user_id == u2);
            assert(w[k2] == s[k2]);
            assert(has_score(w, u2));
            let k3 = choose|k: int| 0 <= k < w.len() && w[k].user_id == u2;
            assert(w[k3].user_id == u2);
            assert(k3 != s.len() as int);
            assert(w[k3] == s[k3]);
            assert(k3 == k2);
        } else {
            if has_score(w, u2) {
                let k = choose|k: int| 0 <= k < w.len() && w[k].user_id == u2;
                assert(k != s.len() as int);
                assert(w[k] == s[k]);
                assert(has_score(s, u2));
            }
        }
    }
}

/// Writing one user's aggregate keeps the aggregate keys unique.
pub proof fn lemma_scores_with_unique(s: Seq<UserScore>, u: u64, ns: UserScore)
    requires
        score_users_unique(s),
        ns.user_id == u,
    ensures
        score_users_unique(scores_with(s, u, ns)),
{
    let w = scores_with(s, u, ns);
    if has_score(s, u) {
        let k1 = score_idx(s, u);
        assert(0 <= k1 < s.len() && s[k1].user_id == u);
        assert forall|a: int, b: int| 0 <= a < b < w.len() implies w[a].user_id != w[b].user_id by {
            assert(w[a] == s[a] || a == k1);
            assert(w[b] == s[b] || b == k1);
        }
    } else {
        assert forall|a: int, b: int| 0 <= a < b < w.len() implies w[a].user_id != w[b].user_id by {
            if b == s.len() as int {
                assert(w[a] == s[a]);
                assert(!(exists|k: int| 0 <= k < s.len() && s[k].user_id == u));
            }
        }
    }
}

/// After writing one user's aggregate, looking that user up finds exactly
/// what was written.
pub proof fn lemma_scores_with_self(s: Seq<UserScore>, u: u64, ns: UserScore)
    requires
        score_users_unique(s),
        ns.user_id == u,
    ensures
        has_score(scores_with(s, u, ns), u),
        scores_with(s, u, ns)[score_idx(scores_with(s, u, ns), u)] == ns,
{
    let w = scores_with(s, u, ns);
    lemma_scores_with_unique(s, u, ns);
    if has_score(s, u) {
        let k1 = score_idx(s, u);
        assert(0 <= k1 < s.len() && s[k1].user_id == u);
        assert(w[k1] == ns);
        assert(has_score(w, u));
        let k2 = score_idx(w, u);
        assert(0 <= k2 < w.len() && w[k2].user_id == u);
        if k2 != k1 {
            assert(w[k2] == s[k2]);
            assert(s[k2].user_id != s[k1].user_id);
            assert(false);
        }
    } else {
        let last = s.len() as int;
        assert(w[last] == ns);
        assert(has_score(w, u));
        let k2 = score_idx(w, u);
        assert(0 <= k2 < w.len() && w[k2].user_id == u);
        if k2 != last {
            assert(w[k2] == s[k2]);
            assert(has_score(s, u));
            assert(false);
        }
    }
}

/// Products of non-negative bounded values stay within the product of the
/// bounds.
pub(crate) proof fn lemma_mul_le(a: int, b: int, ca: int, cb: int)
    by (nonlinear_arith)
    requires
        0 <= a <= ca,
        0 <= b <= cb,
    ensures
        0 <= a * b <= ca * cb,
{
}

impl Store {
    /// The streak a clear today moves `user_score` to, and whether it
    /// continued a streak, exactly as `streak_after` / `streak_continued`
    /// state.
    pub fn calculate_streak(&self, user_score: &UserScore, today: i64) -> (r: (i32, bool))
        requires
            user_score.wf(),
            day_ok(today),
            user_score.current_streak < i32::MAX,
        ensures
            r.0 as int == streak_after(*user_score, today),
            r.1 == streak_continued(*user_score, today),
    {
        match user_score.last_cleared_date {
            Some(last) => {
                let diff: i64 = today - last;
                if diff == 0 {
                    (user_score.current_streak, false)
                } else if diff == 1 {
                    (user_score.current_streak + 1, true)
                } else {
                    (1, false)
                }
            },
            None => (1, true),
        }
    }

    /// Whether no other user's clear is recorded within `AREA_RADIUS_M`
    /// metres of `location` in the `AREA_WINDOW_SECONDS` before `now`.
    pub fn is_first_clear_in_area(&self, location: &Location, user_id: u64, now: i64) -> (r: bool)
        requires
            self.wf(),
            location.in_bounds(),
            ts_ok(now),
        ensures
            r == first_in_area_spec(self@.reports, *location, user_id, now),
    {
        let n = self.reports.len();
        let mut i: usize = 0;
        while i < n
            invariant
                self.wf(),
                location.in_bounds(),
                ts_ok(now),
                n == self.reports@.len(),
                forall|k: int|
                    0 <= k < i ==> !other_recent_clear_near(
                        #[trigger] self.reports@[k],
                        *location,
                        user_id,
                        now,
                    ),
            decreases n - i,
        {
            let rep = &self.reports[i];
            if let Some(cleared_by) = rep.cleared_by {
                if cleared_by != user_id {
                    if let Some(cleared_at) = rep.cleared_at {
                        if cleared_at > now - AREA_WINDOW_SECONDS {
                            if is_within_radius(&rep.location, location, AREA_RADIUS_M) {
                                return false;
                            }
                        }
                    }
                }
            }
            i += 1;
        }
        true
    }

    /// Reads `user_id`'s aggregate, creating a fresh row if none exists.
    fn get_or_create_user_score(&mut self, user_id: u64, now: i64) -> (s: UserScore)
        requires
            old(self).wf(),
            ts_ok(now),
        ensures
            final(self).wf(),
            get_or_create_post(old(self)@, final(self)@, user_id, now),
            s == pre_score_spec(old(self)@, user_id, now),
    {
        match self.find_score(user_id) {
            Some(i) => {
                let s = self.scores[i];
                proof {
                    lemma_score_idx_is(self@.scores, user_id, i as int);
                }
                s
            },
            None => {
                let s = UserScore {
                    user_id,
                    total_points: 0,
                    reports_cleared: 0,
                    current_streak: 0,
                    longest_streak: 0,
                    last_cleared_date: None,
                    created_at: now,
                    updated_at: now,
                };
                let ghost pre = self@;
                self.scores.push(s);
                proof {
                    assert(s == UserScore::init_spec(user_id, now));
                    lemma_store_tables_wf_after_scores_change(pre, self@);
                    assert forall|i: int, j: int|
                        0 <= i < j < self.scores@.len() implies self.scores@[i].user_id
                        != self.scores@[j].user_id by {
                        if j == self.scores@.len() - 1 {
                            assert(!has_score(pre.scores, user_id));
                            assert(pre.scores[i].user_id != user_id);
                        }
                    }
                }
                s
            },
        }
    }

    /// The result of `get_or_create_user_score`, behind the same `Result`
    /// shape the other operations use. It always succeeds.
    pub fn get_user_score(&mut self, user_id: u64, now: i64) -> (r: Result<UserScore, AppError>)
        requires
            old(self).wf(),
            ts_ok(now),
        ensures
            final(self).wf(),
            get_or_create_post(old(self)@, final(self)@, user_id, now),
            r matches Ok(s) && s == pre_score_spec(old(self)@, user_id, now),
    {
        Ok(self.get_or_create_user_score(user_id, now))
    }

    /// Whether `user_id` has cleared enough reports to verify others'.
    pub fn can_verify_reports(&mut self, user_id: u64, now: i64) -> (r: Result<bool, AppError>)
        requires
            old(self).wf(),
            ts_ok(now),
        ensures
            final(self).wf(),
            get_or_create_post(old(self)@, final(self)@, user_id, now),
            r matches Ok(b) && b == (pre_score_spec(old(self)@, user_id, now).reports_cleared
                >= old(self)@.config.min_clears_to_verify),
    {
        let s = self.get_or_create_user_score(user_id, now);
        Ok(s.reports_cleared >= self.config.min_clears_to_verify)
    }

    /// Awards the points for one clear by `user_id` at `location`: base
    /// points, the streak bonus times the new streak, and the first-in-area
    /// bonus when no other user cleared nearby in the last day.
    pub fn award_clear_points(
        &mut self,
        user_id: u64,
        report_id: u64,
        location: Location,
        now: i64,
    ) -> (r: Result<UserScore, AppError>)
        requires
            old(self).wf(),
            location.in_bounds(),
            ts_ok(now),
        ensures
            final(self).wf(),
            award_clear_post(old(self)@, final(self)@, user_id, report_id, location, now, r),
    {
        let ghost pre = self@;
        let today = day_of(now);
        let first = self.is_first_clear_in_area(&location, user_id, now);
        let found = self.find_score(user_id);
        let base_score: UserScore = match found {
            Some(i) => {
                let s = self.scores[i];
                proof {
                    lemma_score_idx_is(self@.scores, user_id, i as int);
                }
                s
            },
            None => UserScore {
                user_id,
                total_points: 0,
                reports_cleared: 0,
                current_streak: 0,
                longest_streak: 0,
                last_cleared_date: None,
                created_at: now,
                updated_at: now,
            },
        };
        proof {
            assert(base_score == pre_score_spec(pre, user_id, now));
        }
        if base_score.reports_cleared == i32::MAX {
            return Err(AppError::Internal("score counter overflow".to_owned()));
        }
        let (new_streak, _continued) = self.calculate_streak(&base_score, today);
        proof {
            lemma_mul_le(
                new_streak as int,
                self.config.streak_bonus_points as int,
                i32::MAX as int,
                i32::MAX as int,
            );
        }
        let streak_part: i64 = (new_streak as i64) * (self.config.streak_bonus_points as i64);
        let mut points: i64 = (self.config.base_points_per_clear as i64) + streak_part;
        if first {
            points = points + (self.config.first_in_area_bonus as i64);
        }
        proof {
            assert(points == clear_points_spec(pre.config, streak_after(base_score, today), first));
        }
        if points > (i32::MAX as i64) {
            return Err(AppError::Internal("score counter overflow".to_owned()));
        }
        let new_total: i64 = (base_score.total_points as i64) + points;
        if new_total > (i32::MAX as i64) {
            return Err(AppError::Internal("score counter overflow".to_owned()));
        }
        let new_longest: i32 = if new_streak > base_score.longest_streak {
            new_streak
        } else {
            base_score.longest_streak
        };
        let new_score = UserScore {
            user_id,
            total_points: new_total as i32,
            reports_cleared: base_score.reports_cleared + 1,
            current_streak: new_streak,
            longest_streak: new_longest,
            last_cleared_date: Some(today),
            created_at: base_score.created_at,
            updated_at: now,
        };
        proof {
            assert(new_score == score_after_clear(base_score, pre.config, today, first, now));
        }
        self.write_score(found, user_id, new_score);
        self.events.push(
            ScoreEvent {
                user_id,
                kind: ScoreEventKind::Clear,
                points: points as i32,
                report_id: Some(report_id),
                created_at: now,
            },
        );
        proof {
            lemma_store_tables_wf_after_events_push(pre, self@);
        }
        Ok(new_score)
    }

    /// Awards the flat verification bonus to a user who verified a report.
    pub fn award_verification_points(&mut self, user_id: u64, now: i64) -> (r: Result<
        UserScore,
        AppError,
    >)
        requires
            old(self).wf(),
            ts_ok(now),
        ensures
            final(self).wf(),
            flat_award_post(
                old(self)@,
                final(self)@,
                user_id,
                old(self)@.config.verification_bonus,
                ScoreEventKind::Verification,
                now,
                r,
            ),
    {
        let bonus = self.config.verification_bonus;
        self.award_flat(user_id, bonus, ScoreEventKind::Verification, now)
    }

    /// Awards the flat verified-report bonus to the user who cleared a
    /// report that just reached its verification quorum.
    pub fn award_verified_report_bonus(&mut self, clearer_id: u64, now: i64) -> (r: Result<
        UserScore,
        AppError,
    >)
        requires
            old(self).wf(),
            ts_ok(now),
        ensures
            final(self).wf(),
            flat_award_post(
                old(self)@,
                final(self)@,
                clearer_id,
                old(self)@.config.verified_report_bonus,
                ScoreEventKind::VerifiedBonus,
                now,
                r,
            ),
    {
        let bonus = self.config.verified_report_bonus;
        self.award_flat(clearer_id, bonus, ScoreEventKind::VerifiedBonus, now)
    }

    /// Adds a flat bonus to a user's aggregate and records the ledger event.
    fn award_flat(&mut self, user_id: u64, bonus: i32, kind: ScoreEventKind, now: i64) -> (r:
        Result<UserScore, AppError>)
        requires
            old(self).wf(),
            ts_ok(now),
            bonus >= 0,
        ensures
            final(self).wf(),
            flat_award_post(old(self)@, final(self)@, user_id, bonus, kind, now, r),
    {
        let ghost pre = self@;
        let found = self.find_score(user_id);
        let base_score: UserScore = match found {
            Some(i) => {
                let s = self.scores[i];
                proof {
                    lemma_score_idx_is(self@.scores, user_id, i as int);
                }
                s
            },
            None => UserScore {
                user_id,
                total_points: 0,
                reports_cleared: 0,
                current_streak: 0,
                longest_streak: 0,
                last_cleared_date: None,
                created_at: now,
                updated_at: now,
            },
        };
        proof {
            assert(base_score == pre_score_spec(pre, user_id, now));
        }
        let new_total: i64 = (base_score.total_points as i64) + (bonus as i64);
        if new_total > (i32::MAX as i64) {
            return Err(AppError::Internal("score counter overflow".to_owned()));
        }
        let new_score = UserScore {
            total_points: new_total as i32,
            updated_at: now,
            ..base_score
        };
        self.write_score(found, user_id, new_score);
        self.events.push(
            ScoreEvent { user_id, kind, points: bonus, report_id: None, created_at: now },
        );
        proof {
            lemma_store_tables_wf_after_events_push(pre, self@);
        }
        Ok(new_score)
    }

    /// Writes a user's aggregate back: in place when `found` names its row,
    /// appended otherwise.
    fn write_score(&mut self, found: Option<usize>, user_id: u64, new_score: UserScore)
        requires
            old(self).wf(),
            new_score.wf(),
            new_score.user_id == user_id,
            match found {
                Some(i) => i < old(self)@.scores.len() && old(self)@.scores[i as int].user_id
                    == user_id,
                None => !has_score(old(self)@.scores, user_id),
            },
        ensures
            final(self).wf(),
            final(self)@ == (StoreV {
                scores: scores_with(old(self)@.scores, user_id, new_score),
                ..old(self)@
            }),
    {
        let ghost pre = self@;
        match found {
            Some(i) => {
                proof {
                    lemma_score_idx_is(pre.scores, user_id, i as int);
                }
                self.scores.set(i, new_score);
                proof {
                    lemma_store_tables_wf_after_scores_change(pre, self@);
                    assert forall|a: int, b: int|
                        0 <= a < b < self.scores@.len() implies self.scores@[a].user_id
                        != self.scores@[b].user_id by {
                        assert(pre.scores[a].user_id == self.scores@[a].user_id || a == i as int);
                        assert(pre.scores[b].user_id == self.scores@[b].user_id || b == i as int);
                    }
                    assert forall|k: int|
                        0 <= k < self.scores@.len() implies (#[trigger] self.scores@[k]).wf() by {
                        if k != i as int {
                            assert(pre.scores[k].wf());
                        }
                    }
                }
            },
            None => {
                self.scores.push(new_score);
                proof {
                    lemma_store_tables_wf_after_scores_change(pre, self@);
                    assert forall|a: int, b: int|
                        0 <= a < b < self.scores@.len() implies self.scores@[a].user_id
                        != self.scores@[b].user_id by {
                        if b == self.scores@.len() - 1 {
                            assert(!has_score(pre.scores, user_id));
                            assert(pre.scores[a].user_id != user_id);
                        }
                    }
                    assert forall|k: int|
                        0 <= k < self.scores@.len() implies (#[trigger] self.scores@[k]).wf() by {
                        if k != self.scores@.len() - 1 {
                            assert(pre.scores[k].wf());
                        }
                    }
                }
            },
        }
    }
}

/// Carrying the unchanged tables' well-formedness across a change to the
/// score table alone.
proof fn lemma_store_tables_wf_after_scores_change(pre: StoreV, post: StoreV)
    requires
        pre.wf(),
        post.config == pre.config,
        post.users == pre.users,
        post.reports == pre.reports,
        post.verifications == pre.verifications,
        post.events == pre.events,
        post.next_report_id == pre.next_report_id,
        post.next_verification_id == pre.next_verification_id,
    ensures
        post.config.wf(),
        forall|i: int|
            0 <= i < post.reports.len() ==> (#[trigger] post.reports[i]).wf() && post.reports[i].id
                < post.next_report_id,
        crate::store::report_ids_unique(post.reports),
        forall|i: int|
            0 <= i < post.verifications.len() ==> (#[trigger] post.verifications[i]).wf()
                && post.verifications[i].id < post.next_verification_id,
        crate::store::verification_ids_unique(post.verifications),
        crate::store::verification_pairs_unique(post.verifications),
        forall|i: int| 0 <= i < post.events.len() ==> (#[trigger] post.events[i]).wf(),
        crate::store::user_ids_unique(post.users),
{
    assert forall|i: int|
        0 <= i < post.reports.len() implies (#[trigger] post.reports[i]).wf() && post.reports[i].id
        < post.next_report_id by {
        assert(pre.reports[i].wf() && pre.reports[i].id < pre.next_report_id);
    }
    assert forall|i: int|
        0 <= i < post.verifications.len() implies (#[trigger] post.verifications[i]).wf()
        && post.verifications[i].id < post.next_verification_id by {
        assert(pre.verifications[i].wf() && pre.verifications[i].id < pre.next_verification_id);
    }
    assert forall|i: int| 0 <= i < post.events.len() implies (#[trigger] post.events[i]).wf() by {
        assert(pre.events[i].wf());
    }
}

/// Carrying well-formedness of the event table across an append of one
/// well-formed event, with the other tables unchanged since `pre`.
proof fn lemma_store_tables_wf_after_events_push(pre: StoreV, post: StoreV)
    requires
        pre.wf(),
        post.config == pre.config,
        post.users == pre.users,
        post.reports == pre.reports,
        post.verifications == pre.verifications,
        post.next_report_id == pre.next_report_id,
        post.next_verification_id == pre.next_verification_id,
        forall|i: int| 0 <= i < post.scores.len() ==> (#[trigger] post.scores[i]).wf(),
        score_users_unique(post.scores),
        post.events.len() == pre.events.len() + 1,
        forall|i: int| 0 <= i < pre.events.len() ==> post.events[i] == pre.events[i],
        post.events[post.events.len() - 1].wf(),
    ensures
        post.wf(),
{
    assert forall|i: int|
        0 <= i < post.reports.len() implies (#[trigger] post.reports[i]).wf() && post.reports[i].id
        < post.next_report_id by {
        assert(pre.reports[i].wf() && pre.reports[i].id < pre.next_report_id);
    }
    assert forall|i: int|
        0 <= i < post.verifications.len() implies (#[trigger] post.verifications[i]).wf()
        && post.verifications[i].id < post.next_verification_id by {
        assert(pre.verifications[i].wf() && pre.verifications[i].id < pre.next_verification_id);
    }
    assert forall|i: int| 0 <= i < post.events.len() implies (#[trigger] post.events[i]).wf() by {
        if i < pre.events.len() {
            assert(pre.events[i].wf());
        }
    }
}

} // verus!
