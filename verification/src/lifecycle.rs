//! The report lifecycle: creation and the Pending -> Claimed -> Cleared
//! transitions.
//!
//! Each transition validates the report's current state as part of the same
//! atomic update, so of two racing claims exactly one can win; the loser
//! fails even if a read a moment earlier still showed the report available.

use vstd::prelude::*;
use crate::clock::{day_of_spec, ts_ok};
use crate::error::AppError;
use crate::geo::Location;
use crate::report::{LitterReport, ReportStatus};
use crate::scoring::{
    clear_fits, first_in_area_spec, pre_score_spec, score_after_clear, scores_with,
    streak_after, clear_points_spec,
};
use crate::score::{ScoreEvent, ScoreEventKind, UserScore};
use crate::store::{
    has_report, has_user, lemma_report_idx_is, lemma_user_idx_is, report_idx, user_idx,
    Store, StoreV, ID_LIMIT,
};

verus! {

/// Full effect of `create_report`: a fresh Pending report is appended for a
/// known, email-verified reporter; an unknown reporter is `NotFound`, an
/// unverified one `Forbidden`, and an exhausted id sequence `Internal`. On
/// any failure the store is unchanged.
pub open spec fn create_report_post(
    pre: StoreV,
    post: StoreV,
    reporter_id: u64,
    location: Location,
    description: Option<String>,
    photo_before: String,
    now: i64,
    r: Result<LitterReport, AppError>,
) -> bool {
    if !has_user(pre.users, reporter_id) {
        &&& post == pre
        &&& r matches Err(AppError::NotFound(m)) && m@ == "User not found"@
    } else if !pre.users[user_idx(pre.users, reporter_id)].email_verified {
        &&& post == pre
        &&& r matches Err(AppError::Forbidden(m)) && m@
            == "Email must be verified to create reports"@
    } else if pre.next_report_id >= ID_LIMIT {
        &&& post == pre
        &&& r matches Err(AppError::Internal(_))
    } else {
        let nr = LitterReport {
            id: pre.next_report_id,
            reporter_id,
            location,
            description,
            photo_before,
            status: ReportStatus::Pending,
            claimed_by: None,
            claimed_at: None,
            cleared_by: None,
            cleared_at: None,
            photo_after: None,
            created_at: now,
            updated_at: now,
        };
        &&& post == (StoreV {
            reports: pre.reports.push(nr),
            next_report_id: (pre.next_report_id + 1) as u64,
            ..pre
        })
        &&& r matches Ok(ret) && ret@ == nr@
    }
}

/// Full effect of `claim_report`: a Pending report claimed by someone other
/// than its reporter becomes Claimed; a report in any other state is "not
/// available for claiming", and a self-claim is rejected. On any failure the
/// store is unchanged.
pub open spec fn claim_report_post(
    pre: StoreV,
    post: StoreV,
    report_id: u64,
    actor: u64,
    now: i64,
    r: Result<LitterReport, AppError>,
) -> bool {
    if !has_report(pre.reports, report_id) {
        &&& post == pre
        &&& r matches Err(AppError::NotFound(m)) && m@ == "Report not found"@
    } else {
        let i = report_idx(pre.reports, report_id);
        let rep = pre.reports[i];
        if rep.status != ReportStatus::Pending {
            &&& post == pre
            &&& r matches Err(AppError::BadRequest(m)) && m@
                == "Report is not available for claiming"@
        } else if rep.reporter_id == actor {
            &&& post == pre
            &&& r matches Err(AppError::BadRequest(m)) && m@ == "Cannot claim your own report"@
        } else {
            let r2 = LitterReport {
                status: ReportStatus::Claimed,
                claimed_by: Some(actor),
                claimed_at: Some(now),
                updated_at: now,
                ..rep
            };
            &&& post == (StoreV { reports: pre.reports.update(i, r2), ..pre })
            &&& r matches Ok(ret) && ret@ == r2@
        }
    }
}

/// Full effect of `clear_report`: a Claimed report cleared by its claimant
/// becomes Cleared with the proof photo recorded, and in the same operation
/// the claimant is awarded the clear's points (`score_after_clear`) with one
/// `Clear` ledger event. A report not in Claimed state is rejected as
/// `BadRequest`, any actor but the claimant as `Forbidden`, and a counter
/// overflow aborts the whole operation as `Internal`. On any failure the
/// store is unchanged - the transition and the award happen together or not
/// at all.
pub open spec fn clear_report_post(
    pre: StoreV,
    post: StoreV,
    report_id: u64,
    actor: u64,
    photo_after: String,
    now: i64,
    r: Result<LitterReport, AppError>,
) -> bool {
    if !has_report(pre.reports, report_id) {
        &&& post == pre
        &&& r matches Err(AppError::NotFound(m)) && m@ == "Report not found"@
    } else {
        let i = report_idx(pre.reports, report_id);
        let rep = pre.reports[i];
        if rep.status != ReportStatus::Claimed {
            &&& post == pre
            &&& r matches Err(AppError::BadRequest(m)) && m@
                == "Report must be claimed before clearing"@
        } else if rep.claimed_by != Some(actor) {
            &&& post == pre
            &&& r matches Err(AppError::Forbidden(m)) && m@
                == "Only the user who claimed this report can clear it"@
        } else {
            let today = day_of_spec(now) as i64;
            let base = pre_score_spec(pre, actor, now);
            let first = first_in_area_spec(pre.reports, rep.location, actor, now);
            if clear_fits(base, pre.config, today, first) {
                let r2 = LitterReport {
                    status: ReportStatus::Cleared,
                    cleared_by: Some(actor),
                    cleared_at: Some(now),
                    photo_after: Some(photo_after),
                    updated_at: now,
                    ..rep
                };
                &&& post == (StoreV {
                    reports: pre.reports.update(i, r2),
                    scores: scores_with(
                        pre.scores,
                        actor,
                        score_after_clear(base, pre.config, today, first, now),
                    ),
                    events: pre.events.push(
                        ScoreEvent {
                            user_id: actor,
                            kind: ScoreEventKind::Clear,
                            points: clear_points_spec(
                                pre.config,
                                streak_after(base, today),
                                first,
                            ) as i32,
                            report_id: Some(report_id),
                            created_at: now,
                        },
                    ),
                    ..pre
                })
                &&& r matches Ok(ret) && ret@ == r2@
            } else {
                &&& post == pre
                &&& r matches Err(AppError::Internal(_))
            }
        }
    }
}

impl Store {
    /// Creates a new litter report in Pending state. The reporter must be a
    /// known user with a verified email; the photo reference comes from the
    /// image store that already holds the uploaded photo.
    pub fn create_report(
        &mut self,
        reporter_id: u64,
        location: Location,
        description: Option<String>,
        photo_before: String,
        now: i64,
    ) -> (r: Result<LitterReport, AppError>)
        requires
            old(self).wf(),
            location.in_bounds(),
            ts_ok(now),
        ensures
            final(self).wf(),
            create_report_post(
                old(self)@,
                final(self)@,
                reporter_id,
                location,
                description,
                photo_before,
                now,
                r,
            ),
    {
        let ghost pre = self@;
        let user_i = match self.find_user(reporter_id) {
            None => {
                return Err(AppError::NotFound("User not found".to_owned()));
            },
            Some(i) => i,
        };
        proof {
            lemma_user_idx_is(pre.users, reporter_id, user_i as int);
        }
        if !self.users[user_i].email_verified {
            return Err(AppError::Forbidden("Email must be verified to create reports".to_owned()));
        }
        if self.next_report_id >= ID_LIMIT {
            return Err(AppError::Internal("report id sequence exhausted".to_owned()));
        }
        let nr = LitterReport {
            id: self.next_report_id,
            reporter_id,
            location,
            description,
            photo_before,
            status: ReportStatus::Pending,
            claimed_by: None,
            claimed_at: None,
            cleared_by: None,
            cleared_at: None,
            photo_after: None,
            created_at: now,
            updated_at: now,
        };
        let ret = nr.duplicate();
        self.next_report_id = self.next_report_id + 1;
        self.reports.push(nr);
        proof {
            assert forall|a: int, b: int|
                0 <= a < b < self.reports@.len() implies self.reports@[a].id
                != self.reports@[b].id by {
                if b == self.reports@.len() - 1 {
                    assert(pre.reports[a].id < pre.next_report_id);
                } else {
                    assert(pre.reports[a].id != pre.reports[b].id);
                }
            }
            assert forall|k: int|
                0 <= k < self.reports@.len() implies (#[trigger] self.reports@[k]).wf()
                && self.reports@[k].id < self.next_report_id by {
                if k < self.reports@.len() - 1 {
                    assert(pre.reports[k].wf() && pre.reports[k].id < pre.next_report_id);
                }
            }
            lemma_wf_untouched_tables(pre, self@);
        }
        Ok(ret)
    }

    /// Claims a Pending report for cleanup. The availability check is part
    /// of the same atomic update, so of two racing claimants exactly one
    /// wins and the other learns the report is no longer available.
    pub fn claim_report(&mut self, report_id: u64, user_id: u64, now: i64) -> (r: Result<
        LitterReport,
        AppError,
    >)
        requires
            old(self).wf(),
            ts_ok(now),
        ensures
            final(self).wf(),
            claim_report_post(old(self)@, final(self)@, report_id, user_id, now, r),
    {
        let ghost pre = self@;
        let i = match self.find_report(report_id) {
            None => {
                return Err(AppError::NotFound("Report not found".to_owned()));
            },
            Some(i) => i,
        };
        proof {
            lemma_report_idx_is(pre.reports, report_id, i as int);
        }
        match self.reports[i].status {
            ReportStatus::Pending => {},
            _ => {
                return Err(AppError::BadRequest("Report is not available for claiming".to_owned()));
            },
        }
        if self.reports[i].reporter_id == user_id {
            return Err(AppError::BadRequest("Cannot claim your own report".to_owned()));
        }
        let rep = &mut self.reports[i];
        rep.status = ReportStatus::Claimed;
        rep.claimed_by = Some(user_id);
        rep.claimed_at = Some(now);
        rep.updated_at = now;
        proof {
            lemma_wf_after_report_update(pre, self@, i as int);
        }
        let ret = self.reports[i].duplicate();
        Ok(ret)
    }

    /// Clears a Claimed report: only its claimant may, with a proof photo.
    /// The status change and the claimant's point award form one operation -
    /// either both take effect or neither does.
    pub fn clear_report(&mut self, report_id: u64, user_id: u64, photo_after: String, now: i64) -> (r:
        Result<LitterReport, AppError>)
        requires
            old(self).wf(),
            ts_ok(now),
        ensures
            final(self).wf(),
            clear_report_post(old(self)@, final(self)@, report_id, user_id, photo_after, now, r),
    {
        let ghost pre = self@;
        let i = match self.find_report(report_id) {
            None => {
                return Err(AppError::NotFound("Report not found".to_owned()));
            },
            Some(i) => i,
        };
        proof {
            lemma_report_idx_is(pre.reports, report_id, i as int);
        }
        match self.reports[i].status {
            ReportStatus::Claimed => {},
            _ => {
                return Err(AppError::BadRequest("Report must be claimed before clearing".to_owned()));
            },
        }
        let claimed_by_actor = match self.reports[i].claimed_by {
            Some(u) => u == user_id,
            None => false,
        };
        if !claimed_by_actor {
            return Err(
                AppError::Forbidden("Only the user who claimed this report can clear it".to_owned()),
            );
        }
        let location = self.reports[i].location;
        match self.award_clear_points(user_id, report_id, location, now) {
            Err(e) => {
                proof {
                    assert(self@ == pre);
                }
                return Err(e);
            },
            Ok(_) => {},
        }
        let ghost mid = self@;
        let rep = &mut self.reports[i];
        rep.status = ReportStatus::Cleared;
        rep.cleared_by = Some(user_id);
        rep.cleared_at = Some(now);
        rep.photo_after = Some(photo_after);
        rep.updated_at = now;
        proof {
            lemma_wf_after_report_update(mid, self@, i as int);
        }
        let ret = self.reports[i].duplicate();
        Ok(ret)
    }
}

/// Carrying the untouched tables' well-formedness across a change of the
/// report table alone.
pub(crate) proof fn lemma_wf_untouched_tables(pre: StoreV, post: StoreV)
    requires
        pre.wf(),
        post.config == pre.config,
        post.users == pre.users,
        post.verifications == pre.verifications,
        post.scores == pre.scores,
        post.events == pre.events,
        post.next_verification_id == pre.next_verification_id,
    ensures
        post.config.wf(),
        forall|i: int|
            0 <= i < post.verifications.len() ==> (#[trigger] post.verifications[i]).wf()
                && post.verifications[i].id < post.next_verification_id,
        crate::store::verification_ids_unique(post.verifications),
        crate::store::verification_pairs_unique(post.verifications),
        forall|i: int| 0 <= i < post.scores.len() ==> (#[trigger] post.scores[i]).wf(),
        crate::store::score_users_unique(post.scores),
        forall|i: int| 0 <= i < post.events.len() ==> (#[trigger] post.events[i]).wf(),
        crate::store::user_ids_unique(post.users),
{
    assert forall|i: int|
        0 <= i < post.verifications.len() implies (#[trigger] post.verifications[i]).wf()
        && post.verifications[i].id < post.next_verification_id by {
        assert(pre.verifications[i].wf() && pre.verifications[i].id < pre.next_verification_id);
    }
    assert forall|i: int| 0 <= i < post.scores.len() implies (#[trigger] post.scores[i]).wf() by {
        assert(pre.scores[i].wf());
    }
    assert forall|i: int| 0 <= i < post.events.len() implies (#[trigger] post.events[i]).wf() by {
        assert(pre.events[i].wf());
    }
}

/// A store stays well formed when one report is replaced by a well-formed
/// report with the same id.
pub(crate) proof fn lemma_wf_after_report_update(pre: StoreV, post: StoreV, i: int)
    requires
        pre.wf(),
        0 <= i < pre.reports.len(),
        post.reports.len() == pre.reports.len(),
        forall|k: int| 0 <= k < pre.reports.len() && k != i ==> post.reports[k] == pre.reports[k],
        post.reports[i].wf(),
        post.reports[i].id == pre.reports[i].id,
        post.config == pre.config,
        post.users == pre.users,
        post.verifications == pre.verifications,
        post.scores == pre.scores,
        post.events == pre.events,
        post.next_report_id == pre.next_report_id,
        post.next_verification_id == pre.next_verification_id,
    ensures
        post.wf(),
{
    assert forall|a: int, b: int|
        0 <= a < b < post.reports.len() implies post.reports[a].id != post.reports[b].id by {
        assert(pre.reports[a].id != pre.reports[b].id);
    }
    assert forall|k: int|
        0 <= k < post.reports.len() implies (#[trigger] post.reports[k]).wf() && post.reports[k].id
        < post.next_report_id by {
        if k != i {
            assert(pre.reports[k].wf() && pre.reports[k].id < pre.next_report_id);
        } else {
            assert(pre.reports[i].id < pre.next_report_id);
        }
    }
    lemma_wf_untouched_tables(pre, post);
}

} // verus!
