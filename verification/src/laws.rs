//! System-wide laws, proved from the operations' contracts alone.
//!
//! Each proof function here states a property of the whole system - how
//! transitions compose, who can win a race, what can happen only once - so
//! a reader need not reconstruct it from the individual contracts.

use vstd::prelude::*;
use crate::error::AppError;
use crate::lifecycle::{claim_report_post, clear_report_post, create_report_post};
use crate::quorum::{reaches_quorum, submit_mid_spec, verify_report_post};
use crate::report::{status_rank, LitterReport, ReportStatus};
use crate::geo::Location;
use crate::score::{ScoreEvent, UserScore};
use crate::scoring::{
    award_clear_post, clear_fits, clear_points_spec, flat_award_post, get_or_create_post,
    lemma_scores_with_other, lemma_scores_with_self, lemma_scores_with_unique, pre_score_spec,
    score_after_clear, scores_with, streak_after,
};
use crate::store::{
    has_report, has_score, lemma_report_idx_is, report_idx, score_idx, score_users_unique, StoreV,
};

verus! {

/// One store transition carries a report at most one step forward in the
/// lifecycle order - never backward, never skipping - and never rewrites
/// its identity.
pub open spec fn report_step_ok(a: LitterReport, b: LitterReport) -> bool {
    &&& a.id == b.id
    &&& a.reporter_id == b.reporter_id
    &&& (status_rank(b.status) == status_rank(a.status) || status_rank(b.status) == status_rank(
        a.status,
    ) + 1)
}

/// A store transition keeps every existing report in place and moves each
/// at most one lifecycle step.
pub open spec fn store_step_ok(pre: StoreV, post: StoreV) -> bool {
    &&& pre.reports.len() <= post.reports.len()
    &&& forall|i: int|
        0 <= i < pre.reports.len() ==> report_step_ok(#[trigger] pre.reports[i], post.reports[i])
}

/// Creating a report only appends: every existing report is untouched.
pub proof fn lemma_create_is_step(
    pre: StoreV,
    post: StoreV,
    reporter_id: u64,
    location: Location,
    description: Option<String>,
    photo_before: String,
    now: i64,
    r: Result<LitterReport, AppError>,
)
    requires
        create_report_post(pre, post, reporter_id, location, description, photo_before, now, r),
    ensures
        store_step_ok(pre, post),
{
}

/// Claiming moves one Pending report one step to Claimed and touches no
/// other report.
pub proof fn lemma_claim_is_step(
    pre: StoreV,
    post: StoreV,
    report_id: u64,
    actor: u64,
    now: i64,
    r: Result<LitterReport, AppError>,
)
    requires
        claim_report_post(pre, post, report_id, actor, now, r),
    ensures
        store_step_ok(pre, post),
{
}

/// Clearing moves one Claimed report one step to Cleared and touches no
/// other report.
pub proof fn lemma_clear_is_step(
    pre: StoreV,
    post: StoreV,
    report_id: u64,
    actor: u64,
    photo_after: String,
    now: i64,
    r: Result<LitterReport, AppError>,
)
    requires
        clear_report_post(pre, post, report_id, actor, photo_after, now, r),
    ensures
        store_step_ok(pre, post),
{
}

/// A verification submission moves at most one Cleared report one step to
/// Verified and touches no other report.
pub proof fn lemma_submit_is_step(
    pre: StoreV,
    post: StoreV,
    report_id: u64,
    verifier_id: u64,
    is_verified: bool,
    comment: Option<String>,
    now: i64,
    r: Result<crate::verification::ReportVerification, AppError>,
)
    requires
        verify_report_post(pre, post, report_id, verifier_id, is_verified, comment, now, r),
    ensures
        store_step_ok(pre, post),
{
}

/// Along any chain of states in which consecutive pairs are lifecycle
/// steps, a report's observed status ranks are non-decreasing and grow at
/// most one per step: the observed status sequence is a prefix walk of
/// Pending -> Claimed -> Cleared -> Verified, never skipping within a step
/// and never reversing.
pub proof fn lemma_status_never_reverses(trace: Seq<LitterReport>, i: int, j: int)
    requires
        forall|k: int|
            0 <= k < trace.len() - 1 ==> report_step_ok(#[trigger] trace[k], trace[k + 1]),
        0 <= i <= j < trace.len(),
    ensures
        status_rank(trace[i].status) <= status_rank(trace[j].status) <= status_rank(trace[i].status)
            + (j - i),
        trace[i].id == trace[j].id,
        trace[i].reporter_id == trace[j].reporter_id,
    decreases j - i,
{
    if i < j {
        lemma_status_never_reverses(trace, i, j - 1);
        assert(report_step_ok(trace[j - 1], trace[j]));
    }
}

/// The aggregate a user scores against is never negative in points or
/// streak: either it is a stored, well-formed row, or the fresh zero row.
proof fn lemma_pre_score_bounds(pre: StoreV, user_id: u64, now: i64)
    requires
        pre.wf(),
    ensures
        pre_score_spec(pre, user_id, now).total_points >= 0,
        pre_score_spec(pre, user_id, now).current_streak >= 0,
{
    if has_score(pre.scores, user_id) {
        let k = score_idx(pre.scores, user_id);
        assert(0 <= k < pre.scores.len() && pre.scores[k].user_id == user_id);
        assert(pre.scores[k].wf());
    }
}

/// Total points the ledger records for `uid`, over all time.
pub open spec fn ledger_points(events: Seq<ScoreEvent>, uid: u64) -> int
    decreases events.len(),
{
    if events.len() == 0 {
        0
    } else {
        ledger_points(events.drop_last(), uid) + if events.last().user_id == uid {
            events.last().points as int
        } else {
            0int
        }
    }
}

/// Every user's aggregate equals the sum of their ledger events: no points
/// appear from nowhere and none are awarded twice without a matching event.
pub open spec fn scores_ledger_ok(scores: Seq<UserScore>, events: Seq<ScoreEvent>) -> bool {
    forall|uid: u64|
        #![trigger ledger_points(events, uid)]
        if has_score(scores, uid) {
            scores[score_idx(scores, uid)].total_points == ledger_points(events, uid)
        } else {
            ledger_points(events, uid) == 0
        }
}

/// Appending one event moves exactly its user's ledger sum by its points.
proof fn lemma_ledger_push(events: Seq<ScoreEvent>, ev: ScoreEvent, uid: u64)
    ensures
        ledger_points(events.push(ev), uid) == ledger_points(events, uid) + (if ev.user_id == uid {
            ev.points as int
        } else {
            0int
        }),
{
    assert(events.push(ev).drop_last() =~= events);
}

/// One award - writing a user's aggregate with its prior points plus the
/// event's points, and appending that event - keeps aggregates and ledger
/// in step.
proof fn lemma_ledger_award_step(
    scores: Seq<UserScore>,
    events: Seq<ScoreEvent>,
    u: u64,
    ns: UserScore,
    ev: ScoreEvent,
)
    requires
        score_users_unique(scores),
        scores_ledger_ok(scores, events),
        ns.user_id == u,
        ev.user_id == u,
        ns.total_points as int == (if has_score(scores, u) {
            scores[score_idx(scores, u)].total_points as int
        } else {
            0int
        }) + ev.points,
    ensures
        scores_ledger_ok(scores_with(scores, u, ns), events.push(ev)),
{
    let w = scores_with(scores, u, ns);
    let evs = events.push(ev);
    lemma_scores_with_self(scores, u, ns);
    assert forall|uid: u64|
        #![trigger ledger_points(evs, uid)]
        if has_score(w, uid) {
            w[score_idx(w, uid)].total_points == ledger_points(evs, uid)
        } else {
            ledger_points(evs, uid) == 0
        } by {
        lemma_ledger_push(events, ev, uid);
        if uid == u {
        } else {
            lemma_scores_with_other(scores, u, ns, uid);
        }
    }
}

/// A clear award keeps aggregates and ledger in step.
pub proof fn lemma_award_clear_keeps_ledger(
    pre: StoreV,
    post: StoreV,
    user_id: u64,
    report_id: u64,
    location: Location,
    now: i64,
    r: Result<UserScore, AppError>,
)
    requires
        pre.wf(),
        scores_ledger_ok(pre.scores, pre.events),
        award_clear_post(pre, post, user_id, report_id, location, now, r),
    ensures
        scores_ledger_ok(post.scores, post.events),
{
    let today = crate::clock::day_of_spec(now) as i64;
    let base = pre_score_spec(pre, user_id, now);
    let first = crate::scoring::first_in_area_spec(pre.reports, location, user_id, now);
    if clear_fits(base, pre.config, today, first) {
        let ns = score_after_clear(base, pre.config, today, first, now);
        let pts = clear_points_spec(pre.config, streak_after(base, today), first);
        lemma_pre_score_bounds(pre, user_id, now);
        crate::scoring::lemma_mul_le(
            streak_after(base, today),
            pre.config.streak_bonus_points as int,
            i32::MAX as int + 1,
            i32::MAX as int,
        );
        assert(0 <= pts <= i32::MAX);
        let ev = ScoreEvent {
            user_id,
            kind: crate::score::ScoreEventKind::Clear,
            points: pts as i32,
            report_id: Some(report_id),
            created_at: now,
        };
        lemma_ledger_award_step(pre.scores, pre.events, user_id, ns, ev);
    }
}

/// A flat award keeps aggregates and ledger in step.
pub proof fn lemma_flat_award_keeps_ledger(
    pre: StoreV,
    post: StoreV,
    user_id: u64,
    bonus: i32,
    kind: crate::score::ScoreEventKind,
    now: i64,
    r: Result<UserScore, AppError>,
)
    requires
        pre.wf(),
        bonus >= 0,
        scores_ledger_ok(pre.scores, pre.events),
        flat_award_post(pre, post, user_id, bonus, kind, now, r),
    ensures
        scores_ledger_ok(post.scores, post.events),
{
    let base = pre_score_spec(pre, user_id, now);
    if base.total_points + bonus <= i32::MAX {
        let ns = UserScore {
            total_points: (base.total_points + bonus) as i32,
            updated_at: now,
            ..base
        };
        lemma_pre_score_bounds(pre, user_id, now);
        let ev = ScoreEvent { user_id, kind, points: bonus, report_id: None, created_at: now };
        lemma_ledger_award_step(pre.scores, pre.events, user_id, ns, ev);
    }
}

/// Lazily creating an aggregate (with zero points) keeps aggregates and
/// ledger in step.
pub proof fn lemma_get_or_create_keeps_ledger(pre: StoreV, post: StoreV, user_id: u64, now: i64)
    requires
        pre.wf(),
        scores_ledger_ok(pre.scores, pre.events),
        get_or_create_post(pre, post, user_id, now),
    ensures
        scores_ledger_ok(post.scores, post.events),
{
    if !has_score(pre.scores, user_id) {
        let ns = UserScore::init_spec(user_id, now);
        assert(post.scores == scores_with(pre.scores, user_id, ns));
        lemma_scores_with_self(pre.scores, user_id, ns);
        assert forall|uid: u64|
            #![trigger ledger_points(post.events, uid)]
            if has_score(post.scores, uid) {
                post.scores[score_idx(post.scores, uid)].total_points == ledger_points(
                    post.events,
                    uid,
                )
            } else {
                ledger_points(post.events, uid) == 0
            } by {
            if uid != user_id {
                lemma_scores_with_other(pre.scores, user_id, ns, uid);
            }
        }
    }
}

/// Report creation, claiming and clearing, and the whole verification
/// submission keep aggregates and ledger in step; creation and claiming
/// touch neither, clearing is one clear award, and a submission is one or
/// two flat awards.
pub proof fn lemma_clear_report_keeps_ledger(
    pre: StoreV,
    post: StoreV,
    report_id: u64,
    actor: u64,
    photo_after: String,
    now: i64,
    r: Result<LitterReport, AppError>,
)
    requires
        pre.wf(),
        scores_ledger_ok(pre.scores, pre.events),
        clear_report_post(pre, post, report_id, actor, photo_after, now, r),
    ensures
        scores_ledger_ok(post.scores, post.events),
{
    if has_report(pre.reports, report_id) {
        let i = report_idx(pre.reports, report_id);
        let rep = pre.reports[i];
        if rep.status == ReportStatus::Claimed && rep.claimed_by == Some(actor) {
            let today = crate::clock::day_of_spec(now) as i64;
            let base = pre_score_spec(pre, actor, now);
            let first = crate::scoring::first_in_area_spec(pre.reports, rep.location, actor, now);
            if clear_fits(base, pre.config, today, first) {
                let ns = score_after_clear(base, pre.config, today, first, now);
                let pts = clear_points_spec(pre.config, streak_after(base, today), first);
                lemma_pre_score_bounds(pre, actor, now);
                crate::scoring::lemma_mul_le(
                    streak_after(base, today),
                    pre.config.streak_bonus_points as int,
                    i32::MAX as int + 1,
                    i32::MAX as int,
                );
                assert(0 <= pts <= i32::MAX);
                let ev = ScoreEvent {
                    user_id: actor,
                    kind: crate::score::ScoreEventKind::Clear,
                    points: pts as i32,
                    report_id: Some(report_id),
                    created_at: now,
                };
                lemma_ledger_award_step(pre.scores, pre.events, actor, ns, ev);
            }
        }
    }
}

/// A verification submission keeps aggregates and ledger in step: the
/// verifier's bonus is one award, and a quorum-reaching submission adds the
/// clearer's bonus as a second.
pub proof fn lemma_submit_keeps_ledger(
    pre: StoreV,
    post: StoreV,
    report_id: u64,
    verifier_id: u64,
    is_verified: bool,
    comment: Option<String>,
    now: i64,
    r: Result<crate::verification::ReportVerification, AppError>,
)
    requires
        pre.wf(),
        scores_ledger_ok(pre.scores, pre.events),
        verify_report_post(pre, post, report_id, verifier_id, is_verified, comment, now, r),
    ensures
        scores_ledger_ok(post.scores, post.events),
{
    if r is Ok {
        let mid = submit_mid_spec(pre, report_id, verifier_id, is_verified, comment, now);
        let vbase = pre_score_spec(pre, verifier_id, now);
        let vbonus = pre.config.verification_bonus;
        let vscore = UserScore {
            total_points: (vbase.total_points + vbonus) as i32,
            updated_at: now,
            ..vbase
        };
        lemma_pre_score_bounds(pre, verifier_id, now);
        assert(crate::quorum::submit_fits(pre, report_id, verifier_id, is_verified, now));
        let vev = ScoreEvent {
            user_id: verifier_id,
            kind: crate::score::ScoreEventKind::Verification,
            points: vbonus,
            report_id: None,
            created_at: now,
        };
        lemma_ledger_award_step(pre.scores, pre.events, verifier_id, vscore, vev);
        if reaches_quorum(pre, report_id, is_verified) {
            let i = report_idx(pre.reports, report_id);
            let clearer = pre.reports[i].cleared_by->0;
            assert(pre.reports[i].cleared_by != Some(verifier_id));
            assert(clearer != verifier_id);
            lemma_scores_with_unique(pre.scores, verifier_id, vscore);
            lemma_scores_with_other(pre.scores, verifier_id, vscore, clearer);
            let cbase = pre_score_spec(mid, clearer, now);
            let cbonus = pre.config.verified_report_bonus;
            let cscore = UserScore {
                total_points: (cbase.total_points + cbonus) as i32,
                updated_at: now,
                ..cbase
            };
            assert(cbase == pre_score_spec(pre, clearer, now));
            lemma_pre_score_bounds(pre, clearer, now);
            let cev = ScoreEvent {
                user_id: clearer,
                kind: crate::score::ScoreEventKind::VerifiedBonus,
                points: cbonus,
                report_id: None,
                created_at: now,
            };
            lemma_ledger_award_step(mid.scores, mid.events, clearer, cscore, cev);
        }
    }
}

/// A windowed ledger sum of non-negative events sits between zero and the
/// all-time ledger sum.
proof fn lemma_window_le_ledger(events: Seq<ScoreEvent>, uid: u64, cutoff: i64)
    requires
        forall|i: int| 0 <= i < events.len() ==> (#[trigger] events[i]).points >= 0,
    ensures
        0 <= crate::leaderboard::sum_points(events, uid, cutoff) <= ledger_points(events, uid),
    decreases events.len(),
{
    if events.len() > 0 {
        assert(forall|i: int|
            0 <= i < events.drop_last().len() ==> (#[trigger] events.drop_last()[i]).points >= 0);
        lemma_window_le_ledger(events.drop_last(), uid, cutoff);
        assert(events[events.len() - 1].points >= 0);
    }
}

/// In a well-formed store whose aggregates match the ledger, every window
/// sum fits an aggregate's column: the windowed leaderboards' overflow
/// failure cannot arise on a store that only ever moved through the core's
/// operations.
pub proof fn lemma_consistent_store_window_sums_fit(
    s: StoreV,
    city: Option<String>,
    country: Option<String>,
    cutoff: i64,
)
    requires
        s.wf(),
        scores_ledger_ok(s.scores, s.events),
    ensures
        crate::leaderboard::window_sums_fit(s, city, country, cutoff),
{
    assert forall|i: int|
        0 <= i < s.users.len() && crate::leaderboard::scope_ok(
            #[trigger] s.users[i],
            city,
            country,
        ) implies crate::leaderboard::sum_points(s.events, s.users[i].id, cutoff)
        <= i64::MAX by {
        let uid = s.users[i].id;
        assert(forall|k: int| 0 <= k < s.events.len() ==> (#[trigger] s.events[k]).points >= 0) by {
            assert(forall|k: int| 0 <= k < s.events.len() ==> (#[trigger] s.events[k]).wf());
        }
        lemma_window_le_ledger(s.events, uid, cutoff);
        assert(ledger_points(s.events, uid) <= i32::MAX);
    }
}

/// How many clears a user's aggregate records; zero before the aggregate
/// exists.
pub open spec fn cleared_count_of(scores: Seq<UserScore>, uid: u64) -> int {
    if has_score(scores, uid) {
        scores[score_idx(scores, uid)].reports_cleared as int
    } else {
        0
    }
}

/// Writing one user's aggregate leaves every clear count untouched except
/// possibly the written user's, which becomes the written value.
proof fn lemma_cleared_counts_after_write(scores: Seq<UserScore>, u: u64, ns: UserScore)
    requires
        score_users_unique(scores),
        ns.user_id == u,
    ensures
        cleared_count_of(scores_with(scores, u, ns), u) == ns.reports_cleared as int,
        forall|uid: u64|
            uid != u ==> #[trigger] cleared_count_of(scores_with(scores, u, ns), uid)
                == cleared_count_of(scores, uid),
{
    lemma_scores_with_self(scores, u, ns);
    assert forall|uid: u64|
        uid != u implies #[trigger] cleared_count_of(scores_with(scores, u, ns), uid)
        == cleared_count_of(scores, uid) by {
        lemma_scores_with_other(scores, u, ns, uid);
    }
}

/// A user's clear count only ever moves through the clear award: a
/// successful clear raises the claimant's count by exactly one and touches
/// nobody else's, and a verification submission - which awards points but
/// no clears - leaves every count as it was.
pub proof fn lemma_only_clears_move_clear_counts(
    pre: StoreV,
    post: StoreV,
    report_id: u64,
    actor: u64,
    photo_after: String,
    now: i64,
    r: Result<LitterReport, AppError>,
)
    requires
        pre.wf(),
        clear_report_post(pre, post, report_id, actor, photo_after, now, r),
    ensures
        r is Ok ==> cleared_count_of(post.scores, actor) == cleared_count_of(pre.scores, actor) + 1,
        r is Err ==> post.scores == pre.scores,
        forall|uid: u64|
            uid != actor ==> #[trigger] cleared_count_of(post.scores, uid) == cleared_count_of(
                pre.scores,
                uid,
            ),
{
    if r is Ok {
        let i = report_idx(pre.reports, report_id);
        let rep = pre.reports[i];
        let today = crate::clock::day_of_spec(now) as i64;
        let base = pre_score_spec(pre, actor, now);
        let first = crate::scoring::first_in_area_spec(pre.reports, rep.location, actor, now);
        let ns = score_after_clear(base, pre.config, today, first, now);
        lemma_cleared_counts_after_write(pre.scores, actor, ns);
    }
}

/// A verification submission never changes a clear count: its awards are
/// flat point bonuses.
pub proof fn lemma_submit_keeps_clear_counts(
    pre: StoreV,
    post: StoreV,
    report_id: u64,
    verifier_id: u64,
    is_verified: bool,
    comment: Option<String>,
    now: i64,
    r: Result<crate::verification::ReportVerification, AppError>,
)
    requires
        pre.wf(),
        verify_report_post(pre, post, report_id, verifier_id, is_verified, comment, now, r),
    ensures
        forall|uid: u64|
            #[trigger] cleared_count_of(post.scores, uid) == cleared_count_of(pre.scores, uid),
{
    if r is Ok {
        let mid = submit_mid_spec(pre, report_id, verifier_id, is_verified, comment, now);
        let vbase = pre_score_spec(pre, verifier_id, now);
        let vscore = UserScore {
            total_points: (vbase.total_points + pre.config.verification_bonus) as i32,
            updated_at: now,
            ..vbase
        };
        lemma_cleared_counts_after_write(pre.scores, verifier_id, vscore);
        assert(cleared_count_of(mid.scores, verifier_id) == cleared_count_of(
            pre.scores,
            verifier_id,
        ));
        if reaches_quorum(pre, report_id, is_verified) {
            let i = report_idx(pre.reports, report_id);
            let clearer = pre.reports[i].cleared_by->0;
            lemma_scores_with_unique(pre.scores, verifier_id, vscore);
            let cbase = pre_score_spec(mid, clearer, now);
            let cscore = UserScore {
                total_points: (cbase.total_points + pre.config.verified_report_bonus) as i32,
                updated_at: now,
                ..cbase
            };
            lemma_cleared_counts_after_write(mid.scores, clearer, cscore);
            assert(clearer != verifier_id);
            lemma_scores_with_other(pre.scores, verifier_id, vscore, clearer);
            assert(cleared_count_of(mid.scores, clearer) == cleared_count_of(pre.scores, clearer));
        }
    }
}

/// Of two claims racing for the same Pending report by two different
/// non-reporters, exactly one wins: in whichever order the store
/// serializes them, the first succeeds and the second learns the report is
/// no longer available.
pub proof fn lemma_claim_race_one_winner(
    s0: StoreV,
    s1: StoreV,
    s2: StoreV,
    report_id: u64,
    first_actor: u64,
    second_actor: u64,
    now1: i64,
    now2: i64,
    r1: Result<LitterReport, AppError>,
    r2: Result<LitterReport, AppError>,
)
    requires
        s0.wf(),
        has_report(s0.reports, report_id),
        s0.reports[report_idx(s0.reports, report_id)].status == ReportStatus::Pending,
        s0.reports[report_idx(s0.reports, report_id)].reporter_id != first_actor,
        s0.reports[report_idx(s0.reports, report_id)].reporter_id != second_actor,
        claim_report_post(s0, s1, report_id, first_actor, now1, r1),
        claim_report_post(s1, s2, report_id, second_actor, now2, r2),
    ensures
        r1 matches Ok(rep) && rep.claimed_by == Some(first_actor),
        r2 matches Err(AppError::BadRequest(m)) && m@ == "Report is not available for claiming"@,
        s2 == s1,
{
    let i = report_idx(s0.reports, report_id);
    assert(0 <= i < s0.reports.len() && s0.reports[i].id == report_id);
    assert(s1.reports.len() == s0.reports.len());
    assert forall|a: int, b: int|
        0 <= a < b < s1.reports.len() implies s1.reports[a].id != s1.reports[b].id by {
        assert(s0.reports[a].id != s0.reports[b].id);
    }
    lemma_report_idx_is(s1.reports, report_id, i);
    assert(s1.reports[i].status == ReportStatus::Claimed);
}

/// The submission whose positive verdict completes the quorum promotes the
/// report to Verified and pays the clearer's verified-report bonus; any
/// submission on that report afterwards fails and changes nothing, so the
/// promotion and the bonus happen exactly once.
pub proof fn lemma_quorum_promotes_once(
    s0: StoreV,
    s1: StoreV,
    s2: StoreV,
    report_id: u64,
    first_verifier: u64,
    comment1: Option<String>,
    second_verifier: u64,
    second_verdict: bool,
    comment2: Option<String>,
    now1: i64,
    now2: i64,
    r1: Result<crate::verification::ReportVerification, AppError>,
    r2: Result<crate::verification::ReportVerification, AppError>,
)
    requires
        s0.wf(),
        verify_report_post(s0, s1, report_id, first_verifier, true, comment1, now1, r1),
        r1 is Ok,
        reaches_quorum(s0, report_id, true),
        verify_report_post(
            s1,
            s2,
            report_id,
            second_verifier,
            second_verdict,
            comment2,
            now2,
            r2,
        ),
    ensures
        has_report(s1.reports, report_id),
        s1.reports[report_idx(s1.reports, report_id)].status == ReportStatus::Verified,
        ({
            let clearer = s0.reports[report_idx(s0.reports, report_id)].cleared_by->0;
            &&& has_score(s1.scores, clearer)
            &&& s1.scores[score_idx(s1.scores, clearer)].total_points == pre_score_spec(
                s0,
                clearer,
                now1,
            ).total_points + s0.config.verified_report_bonus
        }),
        r2 is Err,
        s2 == s1,
{
    let i = report_idx(s0.reports, report_id);
    assert(has_report(s0.reports, report_id) && s0.reports[i].status == ReportStatus::Cleared);
    assert(0 <= i < s0.reports.len() && s0.reports[i].id == report_id);
    let clearer = s0.reports[i].cleared_by->0;
    let mid = submit_mid_spec(s0, report_id, first_verifier, true, comment1, now1);
    assert(s1 == crate::quorum::submit_promoted_spec(mid, i, clearer, now1));
    assert(s1.reports.len() == s0.reports.len());
    assert forall|a: int, b: int|
        0 <= a < b < s1.reports.len() implies s1.reports[a].id != s1.reports[b].id by {
        assert(s0.reports[a].id != s0.reports[b].id);
    }
    lemma_report_idx_is(s1.reports, report_id, i);
    assert(s1.reports[i].status == ReportStatus::Verified);

    let vbase = pre_score_spec(s0, first_verifier, now1);
    let vscore = crate::score::UserScore {
        total_points: (vbase.total_points + s0.config.verification_bonus) as i32,
        updated_at: now1,
        ..vbase
    };
    assert(s0.reports[i].cleared_by != Some(first_verifier));
    assert(clearer != first_verifier);
    lemma_scores_with_other(s0.scores, first_verifier, vscore, clearer);
    let cbase = pre_score_spec(mid, clearer, now1);
    assert(cbase == pre_score_spec(s0, clearer, now1));
    let cscore = crate::score::UserScore {
        total_points: (cbase.total_points + s0.config.verified_report_bonus) as i32,
        updated_at: now1,
        ..cbase
    };
    lemma_scores_with_unique(s0.scores, first_verifier, vscore);
    lemma_scores_with_self(mid.scores, clearer, cscore);
    assert(crate::quorum::submit_fits(s0, report_id, first_verifier, true, now1));
    assert(cbase.total_points + s0.config.verified_report_bonus <= i32::MAX);
}

} // verus!
