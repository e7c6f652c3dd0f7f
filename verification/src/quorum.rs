//! The verification quorum: peers verify cleared reports, and enough
//! positive verdicts promote a report to Verified exactly once.

use vstd::prelude::*;
use vstd::string::StringExecFns;
use crate::clock::ts_ok;
use crate::digits::{dec_str, u32_to_decimal};
use crate::error::AppError;
use crate::report::{LitterReport, ReportStatus};
use crate::score::{ScoreEvent, ScoreEventKind, UserScore};
use crate::scoring::{pre_score_spec, scores_with};
use crate::store::{
    has_report, has_verification_by, lemma_report_idx_is, report_idx, Store, StoreV, ID_LIMIT,
};
use crate::verification::ReportVerification;

verus! {

/// The message of the eligibility failure, naming the configured
/// threshold.
pub open spec fn eligibility_message(min_clears: i32) -> Seq<char> {
    "You need to clear at least "@ + dec_str(min_clears as int)
        + " reports before you can verify others"@
}

/// How many positive verdicts the table holds for `report_id`.
pub open spec fn count_positive(s: Seq<ReportVerification>, report_id: u64) -> int
    decreases s.len(),
{
    if s.len() == 0 {
        0
    } else {
        count_positive(s.drop_last(), report_id) + if s.last().report_id == report_id
            && s.last().is_verified {
            1int
        } else {
            0int
        }
    }
}

/// The verdict a submission writes when it is accepted.
pub open spec fn new_record_spec(
    pre: StoreV,
    report_id: u64,
    verifier_id: u64,
    is_verified: bool,
    comment: Option<String>,
    now: i64,
) -> ReportVerification {
    ReportVerification {
        id: pre.next_verification_id,
        report_id,
        verifier_id,
        is_verified,
        comment,
        created_at: now,
    }
}

/// Whether this submission is the one that brings the positive count up to
/// the quorum (counting itself, as the recount after the insert does).
pub open spec fn reaches_quorum(pre: StoreV, report_id: u64, is_verified: bool) -> bool {
    is_verified && count_positive(pre.verifications, report_id) + 1
        >= pre.config.min_verifications_needed
}

/// The store after the always-performed part of an accepted submission: the
/// record inserted, the verifier's flat bonus awarded, both ledgered.
pub open spec fn submit_mid_spec(
    pre: StoreV,
    report_id: u64,
    verifier_id: u64,
    is_verified: bool,
    comment: Option<String>,
    now: i64,
) -> StoreV {
    let vbase = pre_score_spec(pre, verifier_id, now);
    let vbonus = pre.config.verification_bonus;
    let vscore = UserScore {
        total_points: (vbase.total_points + vbonus) as i32,
        updated_at: now,
        ..vbase
    };
    StoreV {
        verifications: pre.verifications.push(
            new_record_spec(pre, report_id, verifier_id, is_verified, comment, now),
        ),
        next_verification_id: (pre.next_verification_id + 1) as u64,
        scores: scores_with(pre.scores, verifier_id, vscore),
        events: pre.events.push(
            ScoreEvent {
                user_id: verifier_id,
                kind: ScoreEventKind::Verification,
                points: vbonus,
                report_id: None,
                created_at: now,
            },
        ),
        ..pre
    }
}

/// The store after a quorum-reaching submission also promoted the report and
/// awarded the clearer's bonus on top of `mid`.
pub open spec fn submit_promoted_spec(mid: StoreV, i: int, clearer: u64, now: i64) -> StoreV {
    let rep = mid.reports[i];
    let r2 = LitterReport { status: ReportStatus::Verified, updated_at: now, ..rep };
    let cbase = pre_score_spec(mid, clearer, now);
    let cbonus = mid.config.verified_report_bonus;
    let cscore = UserScore {
        total_points: (cbase.total_points + cbonus) as i32,
        updated_at: now,
        ..cbase
    };
    StoreV {
        reports: mid.reports.update(i, r2),
        scores: scores_with(mid.scores, clearer, cscore),
        events: mid.events.push(
            ScoreEvent {
                user_id: clearer,
                kind: ScoreEventKind::VerifiedBonus,
                points: cbonus,
                report_id: None,
                created_at: now,
            },
        ),
        ..mid
    }
}

/// Whether every counter the submission writes still fits its column: the
/// verifier's new total always, and the clearer's only when the quorum is
/// reached by this submission.
pub open spec fn submit_fits(
    pre: StoreV,
    report_id: u64,
    verifier_id: u64,
    is_verified: bool,
    now: i64,
) -> bool {
    let vbase = pre_score_spec(pre, verifier_id, now);
    let mid = submit_mid_spec(pre, report_id, verifier_id, is_verified, None, now);
    let i = report_idx(pre.reports, report_id);
    let clearer = pre.reports[i].cleared_by->0;
    &&& vbase.total_points + pre.config.verification_bonus <= i32::MAX
    &&& (reaches_quorum(pre, report_id, is_verified) ==> pre_score_spec(mid, clearer, now).total_points
        + pre.config.verified_report_bonus <= i32::MAX)
}

/// Full effect of `verify_report`, the quorum's submission operation. The
/// checks come in their fixed order: eligibility (enough own clears), report
/// existence, Cleared status, not the reporter, not the clearer, no second
/// verdict. An accepted submission inserts the record and awards the
/// verifier's bonus; the submission whose positive verdict brings the count
/// to the quorum additionally promotes the report Cleared -> Verified and
/// awards the clearer's bonus - and because later submissions find the
/// report no longer Cleared, that promotion and bonus can happen only once.
/// On any failure the store is unchanged.
pub open spec fn verify_report_post(
    pre: StoreV,
    post: StoreV,
    report_id: u64,
    verifier_id: u64,
    is_verified: bool,
    comment: Option<String>,
    now: i64,
    r: Result<ReportVerification, AppError>,
) -> bool {
    if pre_score_spec(pre, verifier_id, now).reports_cleared < pre.config.min_clears_to_verify {
        &&& post == pre
        &&& r matches Err(AppError::Forbidden(m)) && m@ == eligibility_message(
            pre.config.min_clears_to_verify,
        )
    } else if !has_report(pre.reports, report_id) {
        &&& post == pre
        &&& r matches Err(AppError::NotFound(m)) && m@ == "Report not found"@
    } else {
        let i = report_idx(pre.reports, report_id);
        let rep = pre.reports[i];
        if rep.status != ReportStatus::Cleared {
            &&& post == pre
            &&& r matches Err(AppError::BadRequest(m)) && m@
                == "Report must be cleared before it can be verified"@
        } else if rep.reporter_id == verifier_id {
            &&& post == pre
            &&& r matches Err(AppError::BadRequest(m)) && m@ == "You cannot verify your own report"@
        } else if rep.cleared_by == Some(verifier_id) {
            &&& post == pre
            &&& r matches Err(AppError::BadRequest(m)) && m@
                == "You cannot verify a report you cleared"@
        } else if has_verification_by(pre.verifications, report_id, verifier_id) {
            &&& post == pre
            &&& r matches Err(AppError::BadRequest(m)) && m@
                == "You have already verified this report"@
        } else if pre.next_verification_id >= ID_LIMIT {
            &&& post == pre
            &&& r matches Err(AppError::Internal(_))
        } else if !submit_fits(pre, report_id, verifier_id, is_verified, now) {
            &&& post == pre
            &&& r matches Err(AppError::Internal(_))
        } else {
            let nv = new_record_spec(pre, report_id, verifier_id, is_verified, comment, now);
            let mid = submit_mid_spec(pre, report_id, verifier_id, is_verified, comment, now);
            &&& r matches Ok(ret) && ret@ == nv@
            &&& if reaches_quorum(pre, report_id, is_verified) {
                post == submit_promoted_spec(mid, i, rep.cleared_by->0, now)
            } else {
                post == mid
            }
        }
    }
}

impl Store {
    /// Submits one peer verdict on a cleared report and, when its positive
    /// verdict completes the quorum, promotes the report to Verified and
    /// awards the clearer's bonus - all as one atomic operation.
    pub fn verify_report(
        &mut self,
        report_id: u64,
        verifier_id: u64,
        request: crate::verification::CreateVerificationRequest,
        now: i64,
    ) -> (r: Result<ReportVerification, AppError>)
        requires
            old(self).wf(),
            ts_ok(now),
        ensures
            final(self).wf(),
            verify_report_post(
                old(self)@,
                final(self)@,
                report_id,
                verifier_id,
                request.is_verified,
                request.comment,
                now,
                r,
            ),
    {
        let ghost pre = self@;
        let vbase: UserScore = match self.find_score(verifier_id) {
            Some(k) => {
                let s = self.scores[k];
                proof {
                    crate::store::lemma_score_idx_is(pre.scores, verifier_id, k as int);
                }
                s
            },
            None => UserScore {
                user_id: verifier_id,
                total_points: 0,
                reports_cleared: 0,
                current_streak: 0,
                longest_streak: 0,
                last_cleared_date: None,
                created_at: now,
                updated_at: now,
            },
        };
        proof {
            assert(vbase == pre_score_spec(pre, verifier_id, now));
        }
        if vbase.reports_cleared < self.config.min_clears_to_verify {
            let threshold = u32_to_decimal(self.config.min_clears_to_verify as u32);
            let mut msg = "You need to clear at least ".to_owned();
            msg.append(threshold.as_str());
            msg.append(" reports before you can verify others");
            return Err(AppError::Forbidden(msg));
        }
        let i = match self.find_report(report_id) {
            None => {
                return Err(AppError::NotFound("Report not found".to_owned()));
            },
            Some(i) => i,
        };
        proof {
            lemma_report_idx_is(pre.reports, report_id, i as int);
        }
        match self.reports[i].status {
            ReportStatus::Cleared => {},
            _ => {
                return Err(
                    AppError::BadRequest(
                        "Report must be cleared before it can be verified".to_owned(),
                    ),
                );
            },
        }
        if self.reports[i].reporter_id == verifier_id {
            return Err(AppError::BadRequest("You cannot verify your own report".to_owned()));
        }
        proof {
            assert(pre.reports[i as int].wf());
        }
        let clearer = match self.reports[i].cleared_by {
            Some(c) => c,
            None => vstd::pervasive::unreached(),
        };
        if clearer == verifier_id {
            return Err(AppError::BadRequest("You cannot verify a report you cleared".to_owned()));
        }
        if self.find_verification_by(report_id, verifier_id) {
            return Err(AppError::BadRequest("You have already verified this report".to_owned()));
        }
        if self.next_verification_id >= ID_LIMIT {
            return Err(AppError::Internal("verification id sequence exhausted".to_owned()));
        }
        let vbonus = self.config.verification_bonus;
        let new_vtotal: i64 = (vbase.total_points as i64) + (vbonus as i64);
        if new_vtotal > (i32::MAX as i64) {
            return Err(AppError::Internal("score counter overflow".to_owned()));
        }
        let positives = self.count_positive_for(report_id);
        let minv = self.config.min_verifications_needed;
        let promoted: bool = if !request.is_verified {
            false
        } else if minv <= 1 {
            true
        } else {
            (positives as u64) >= ((minv - 1) as u64)
        };
        proof {
            assert(promoted == reaches_quorum(pre, report_id, request.is_verified));
        }
        let ghost vscore_g = UserScore {
            total_points: (vbase.total_points + vbonus) as i32,
            updated_at: now,
            ..vbase
        };
        if promoted {
            let cbase: UserScore = match self.find_score(clearer) {
                Some(k) => {
                    let s = self.scores[k];
                    proof {
                        crate::store::lemma_score_idx_is(pre.scores, clearer, k as int);
                    }
                    s
                },
                None => UserScore {
                    user_id: clearer,
                    total_points: 0,
                    reports_cleared: 0,
                    current_streak: 0,
                    longest_streak: 0,
                    last_cleared_date: None,
                    created_at: now,
                    updated_at: now,
                },
            };
            proof {
                assert(cbase == pre_score_spec(pre, clearer, now));
                crate::scoring::lemma_scores_with_other(pre.scores, verifier_id, vscore_g, clearer);
                assert(cbase == pre_score_spec(
                    submit_mid_spec(pre, report_id, verifier_id, request.is_verified, None, now),
                    clearer,
                    now,
                ));
            }
            let new_ctotal: i64 = (cbase.total_points as i64) + (
            self.config.verified_report_bonus as i64);
            if new_ctotal > (i32::MAX as i64) {
                return Err(AppError::Internal("score counter overflow".to_owned()));
            }
        }
        proof {
            if !promoted {
                assert(submit_fits(pre, report_id, verifier_id, request.is_verified, now));
            }
        }
        let vid = self.next_verification_id;
        self.next_verification_id = vid + 1;
        let record = ReportVerification {
            id: vid,
            report_id,
            verifier_id,
            is_verified: request.is_verified,
            comment: request.comment,
            created_at: now,
        };
        let ret = record.duplicate();
        self.verifications.push(record);
        proof {
            lemma_wf_after_verification_push(pre, self@);
        }
        match self.award_verification_points(verifier_id, now) {
            Ok(_) => {},
            Err(_) => {
                return vstd::pervasive::unreached();
            },
        }
        if promoted {
            let ghost mid = self@;
            proof {
                assert(mid == submit_mid_spec(
                    pre,
                    report_id,
                    verifier_id,
                    request.is_verified,
                    request.comment,
                    now,
                ));
            }
            let rep = &mut self.reports[i];
            rep.status = ReportStatus::Verified;
            rep.updated_at = now;
            proof {
                crate::lifecycle::lemma_wf_after_report_update(mid, self@, i as int);
            }
            match self.award_verified_report_bonus(clearer, now) {
                Ok(_) => {},
                Err(_) => {
                    return vstd::pervasive::unreached();
                },
            }
        }
        Ok(ret)
    }

    /// Counts the positive verdicts recorded for `report_id`.
    pub(crate) fn count_positive_for(&self, report_id: u64) -> (c: usize)
        ensures
            c == count_positive(self@.verifications, report_id),
            c <= self@.verifications.len(),
    {
        let n = self.verifications.len();
        let mut c: usize = 0;
        let mut i: usize = 0;
        while i < n
            invariant
                n == self@.verifications.len(),
                i <= n,
                c <= i,
                c == count_positive(self@.verifications.subrange(0, i as int), report_id),
            decreases n - i,
        {
            let v = &self.verifications[i];
            proof {
                let s = self@.verifications;
                assert(s.subrange(0, i + 1 as int).drop_last() =~= s.subrange(0, i as int));
                assert(s.subrange(0, i + 1 as int).last() == s[i as int]);
            }
            if v.report_id == report_id && v.is_verified {
                c = c + 1;
            }
            i += 1;
        }
        proof {
            assert(self@.verifications.subrange(0, n as int) =~= self@.verifications);
        }
        c
    }
}

/// A store stays well formed when a fresh, well-formed verification record
/// for a not-yet-verified (report, verifier) pair is appended and the id
/// sequence advances.
proof fn lemma_wf_after_verification_push(pre: StoreV, post: StoreV)
    requires
        pre.wf(),
        pre.next_verification_id < ID_LIMIT,
        post.verifications.len() == pre.verifications.len() + 1,
        forall|k: int|
            0 <= k < pre.verifications.len() ==> post.verifications[k] == pre.verifications[k],
        post.verifications.last().wf(),
        post.verifications.last().id == pre.next_verification_id,
        !has_verification_by(
            pre.verifications,
            post.verifications.last().report_id,
            post.verifications.last().verifier_id,
        ),
        post.next_verification_id == pre.next_verification_id + 1,
        post.config == pre.config,
        post.users == pre.users,
        post.reports == pre.reports,
        post.scores == pre.scores,
        post.events == pre.events,
        post.next_report_id == pre.next_report_id,
    ensures
        post.wf(),
{
    let n = pre.verifications.len() as int;
    assert forall|k: int|
        0 <= k < post.verifications.len() implies (#[trigger] post.verifications[k]).wf()
        && post.verifications[k].id < post.next_verification_id by {
        if k < n {
            assert(pre.verifications[k].wf() && pre.verifications[k].id
                < pre.next_verification_id);
        }
    }
    assert forall|a: int, b: int|
        0 <= a < b < post.verifications.len() implies post.verifications[a].id
        != post.verifications[b].id by {
        if b == n {
            assert(pre.verifications[a].id < pre.next_verification_id);
        } else {
            assert(pre.verifications[a].id != pre.verifications[b].id);
        }
    }
    assert forall|a: int, b: int|
        0 <= a < b < post.verifications.len() implies !(post.verifications[a].report_id
        == post.verifications[b].report_id && post.verifications[a].verifier_id
        == post.verifications[b].verifier_id) by {
        if b == n {
            assert(pre.verifications[a] == post.verifications[a]);
        } else {
            assert(!(pre.verifications[a].report_id == pre.verifications[b].report_id
                && pre.verifications[a].verifier_id == pre.verifications[b].verifier_id));
        }
    }
    assert forall|k: int|
        0 <= k < post.reports.len() implies (#[trigger] post.reports[k]).wf() && post.reports[k].id
        < post.next_report_id by {
        assert(pre.reports[k].wf() && pre.reports[k].id < pre.next_report_id);
    }
    assert forall|k: int| 0 <= k < post.scores.len() implies (#[trigger] post.scores[k]).wf() by {
        assert(pre.scores[k].wf());
    }
    assert forall|k: int| 0 <= k < post.events.len() implies (#[trigger] post.events[k]).wf() by {
        assert(pre.events[k].wf());
    }
}

} // verus!
