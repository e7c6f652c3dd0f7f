//! The ordered reads: a user's reports, a user's clears, the nearby search,
//! the verification queue, and a report's verification list.
//!
//! Each returns copies of the matching rows in a fixed order (ties broken by
//! id, so the order is unique), capped where the service caps it. Reads
//! leave the store untouched and are safely retryable.

use vstd::prelude::*;
use crate::error::AppError;
use crate::geo::{within_radius, Location};
use crate::report::{LitterReport, ReportStatus};
use crate::select::{cand_lt, top_desc, Cand};
use crate::store::{has_verification_by, Store};
use crate::verification::ReportVerification;

verus! {

/// At most this many reports come back from the nearby search.
pub const NEARBY_LIMIT: usize = 100;

/// At most this many reports come back from the verification queue.
pub const QUEUE_LIMIT: usize = 50;

/// Whether `a` was created strictly before `b` in the (created_at, id)
/// order.
pub open spec fn created_before(a: LitterReport, b: LitterReport) -> bool {
    a.created_at < b.created_at || (a.created_at == b.created_at && a.id < b.id)
}

/// Whether `a` was cleared strictly before `b` in the (cleared_at, id)
/// order; meaningful for reports that record a clear.
pub open spec fn cleared_before(a: LitterReport, b: LitterReport) -> bool {
    a.cleared_at->0 < b.cleared_at->0 || (a.cleared_at->0 == b.cleared_at->0 && a.id < b.id)
}

/// Newest creation first.
pub open spec fn newest_first(s: Seq<LitterReport>) -> bool {
    forall|a: int, b: int| 0 <= a < b < s.len() ==> created_before(#[trigger] s[b], #[trigger] s[a])
}

/// Latest clear first.
pub open spec fn latest_cleared_first(s: Seq<LitterReport>) -> bool {
    forall|a: int, b: int| 0 <= a < b < s.len() ==> cleared_before(#[trigger] s[b], #[trigger] s[a])
}

/// What the nearby search matches: a report still in need of attention
/// (Pending or Claimed) within `radius_m` metres of the point.
pub open spec fn nearby_match(r: LitterReport, loc: Location, radius_m: int) -> bool {
    &&& (r.status == ReportStatus::Pending || r.status == ReportStatus::Claimed)
    &&& within_radius(r.location, loc, radius_m)
}

/// What the verification queue for `user_id` matches: a Cleared report
/// within `radius_m` metres, cleared by someone else, that `user_id` has not
/// verified yet.
pub open spec fn queue_match(
    r: LitterReport,
    verifs: Seq<ReportVerification>,
    loc: Location,
    radius_m: int,
    user_id: u64,
) -> bool {
    &&& r.status == ReportStatus::Cleared
    &&& within_radius(r.location, loc, radius_m)
    &&& r.cleared_by != Some(user_id)
    &&& !has_verification_by(verifs, r.id, user_id)
}

/// Whether `rep` is a copy (same mathematical image) of some row of
/// `reports`.
pub open spec fn copies_some_row(rep: LitterReport, reports: Seq<LitterReport>) -> bool {
    exists|i: int| 0 <= i < reports.len() && rep@ == reports[i]@
}

/// Whether a copy of `rep` appears in `out`.
pub open spec fn appears(rep: LitterReport, out: Seq<LitterReport>) -> bool {
    exists|k: int| 0 <= k < out.len() && out[k]@ == rep@
}

/// Distinct report rows in ascending index order give distinct candidate
/// ids.
proof fn lemma_report_cands_distinct(cands: Seq<Cand>, reports: Seq<LitterReport>)
    requires
        crate::store::report_ids_unique(reports),
        forall|j: int| 0 <= j < cands.len() ==> (#[trigger] cands[j]).idx < reports.len(),
        forall|j: int|
            0 <= j < cands.len() ==> (#[trigger] cands[j]).id == reports[cands[j].idx as int].id,
        forall|a: int, b: int| 0 <= a < b < cands.len() ==> cands[a].idx < cands[b].idx,
    ensures
        crate::select::cand_ids_distinct(cands),
{
    assert forall|a: int, b: int| 0 <= a < b < cands.len() implies cands[a].id != cands[b].id by {
        assert(cands[a].idx < cands[b].idx);
        assert(reports[cands[a].idx as int].id != reports[cands[b].idx as int].id);
    }
}

impl Store {
    /// All reports a user filed, newest first.
    pub fn get_user_reports(&self, user_id: u64) -> (r: Result<Vec<LitterReport>, AppError>)
        requires
            self.wf(),
        ensures
            r matches Ok(list) && {
                let out = list@;
                let reports = self@.reports;
                &&& newest_first(out)
                &&& forall|k: int| 0 <= k < out.len() ==> (#[trigger] out[k]).reporter_id == user_id
                &&& forall|k: int|
                    0 <= k < out.len() ==> copies_some_row(#[trigger] out[k], reports)
                &&& forall|i: int|
                    0 <= i < reports.len() && (#[trigger] reports[i]).reporter_id == user_id
                        ==> appears(reports[i], out)
            },
    {
        let ghost reports = self@.reports;
        let n = self.reports.len();
        let mut cands: Vec<Cand> = Vec::new();
        let mut i: usize = 0;
        while i < n
            invariant
                n == reports.len(),
                reports == self@.reports,
                i <= n,
                forall|j: int|
                    0 <= j < cands@.len() ==> {
                        let c = #[trigger] cands@[j];
                        &&& c.idx < i
                        &&& c.key == reports[c.idx as int].created_at
                        &&& c.id == reports[c.idx as int].id
                        &&& reports[c.idx as int].reporter_id == user_id
                    },
                forall|a: int, b: int| 0 <= a < b < cands@.len() ==> cands@[a].idx < cands@[b].idx,
                forall|t: int|
                    0 <= t < i && (#[trigger] reports[t]).reporter_id == user_id ==> exists|j: int|
                        0 <= j < cands@.len() && cands@[j].idx == t,
            decreases n - i,
        {
            let rep = &self.reports[i];
            let ghost cands0 = cands@;
            if rep.reporter_id == user_id {
                cands.push(Cand { key: rep.created_at, id: rep.id, idx: i });
            }
            proof {
                assert forall|t: int|
                    0 <= t < i + 1 && (#[trigger] reports[t]).reporter_id
                        == user_id implies exists|j: int|
                    0 <= j < cands@.len() && cands@[j].idx == t by {
                    if t < i {
                        let j = choose|j: int| 0 <= j < cands0.len() && cands0[j].idx == t;
                        assert(cands@[j].idx == t);
                    } else {
                        assert(cands@[cands@.len() - 1].idx == t);
                    }
                }
            }
            i += 1;
        }
        if cands.len() == 0 {
            proof {
                assert forall|t: int|
                    0 <= t < reports.len() && (#[trigger] reports[t]).reporter_id
                        == user_id implies false by {
                    let j = choose|j: int| 0 <= j < cands@.len() && cands@[j].idx == t;
                }
            }
            return Ok(Vec::new());
        }
        proof {
            lemma_report_cands_distinct(cands@, reports);
        }
        let picked = top_desc(&cands, cands.len());
        let m = picked.len();
        let mut out: Vec<LitterReport> = Vec::new();
        let mut k: usize = 0;
        while k < m
            invariant
                reports == self@.reports,
                m == picked@.len(),
                k <= m,
                out@.len() == k,
                forall|q: int| 0 <= q < m ==> cands@.contains(#[trigger] picked@[q]),
                forall|j: int|
                    0 <= j < cands@.len() ==> {
                        let c = #[trigger] cands@[j];
                        &&& c.idx < reports.len()
                        &&& c.key == reports[c.idx as int].created_at
                        &&& c.id == reports[c.idx as int].id
                    },
                forall|q: int|
                    0 <= q < k ==> (#[trigger] out@[q])@ == reports[picked@[q].idx as int]@,
            decreases m - k,
        {
            let c = picked[k];
            proof {
                assert(cands@.contains(picked@[k as int]));
                let j = choose|j: int| 0 <= j < cands@.len() && cands@[j] == picked@[k as int];
                assert(cands@[j].idx < reports.len());
            }
            out.push(self.reports[c.idx].duplicate());
            k += 1;
        }
        proof {
            lemma_out_facts(cands@, picked@, out@, reports, false);
            assert forall|t: int|
                0 <= t < reports.len() && (#[trigger] reports[t]).reporter_id
                    == user_id implies appears(reports[t], out@) by {
                let j = choose|j: int| 0 <= j < cands@.len() && cands@[j].idx == t;
                assert(cands@.contains(cands@[j]));
                assert(picked@.contains(cands@[j]));
                let q = choose|q: int| 0 <= q < picked@.len() && picked@[q] == cands@[j];
                assert(out@[q]@ == reports[picked@[q].idx as int]@);
            }
            assert forall|kk: int|
                0 <= kk < out@.len() implies (#[trigger] out@[kk]).reporter_id == user_id by {
                let q = choose|j: int| 0 <= j < cands@.len() && cands@[j] == picked@[kk];
                assert(out@[kk]@ == reports[cands@[q].idx as int]@);
            }
        }
        Ok(out)
    }
}

/// Whether `a` was recorded strictly before `b` in the (created_at, id)
/// order on verification records.
pub open spec fn verification_before(a: ReportVerification, b: ReportVerification) -> bool {
    a.created_at < b.created_at || (a.created_at == b.created_at && a.id < b.id)
}

/// Oldest verification first.
pub open spec fn oldest_verification_first(s: Seq<ReportVerification>) -> bool {
    forall|a: int, b: int|
        0 <= a < b < s.len() ==> verification_before(#[trigger] s[a], #[trigger] s[b])
}

/// Whether `v` is a copy of some row of `verifs`.
pub open spec fn copies_some_verification(v: ReportVerification, verifs: Seq<ReportVerification>) -> bool {
    exists|i: int| 0 <= i < verifs.len() && v@ == verifs[i]@
}

/// Whether a copy of `v` appears in `out`.
pub open spec fn verification_appears(v: ReportVerification, out: Seq<ReportVerification>) -> bool {
    exists|k: int| 0 <= k < out.len() && out[k]@ == v@
}

impl Store {
    /// All reports still in need of attention (Pending or Claimed) within
    /// `radius_km` kilometres of the point, newest first, capped at
    /// `NEARBY_LIMIT`. A report outside the cap is older than everything
    /// returned.
    pub fn get_nearby_reports(&self, location: &Location, radius_km: i64) -> (r: Result<
        Vec<LitterReport>,
        AppError,
    >)
        requires
            self.wf(),
            location.in_bounds(),
            0 <= radius_km <= 100_000,
        ensures
            r matches Ok(list) && {
                let out = list@;
                let reports = self@.reports;
                let radius_m = radius_km * 1000;
                &&& out.len() <= NEARBY_LIMIT
                &&& newest_first(out)
                &&& forall|k: int|
                    0 <= k < out.len() ==> nearby_match(#[trigger] out[k], *location, radius_m)
                &&& forall|k: int|
                    0 <= k < out.len() ==> copies_some_row(#[trigger] out[k], reports)
                &&& forall|i: int|
                    0 <= i < reports.len() && nearby_match(#[trigger] reports[i], *location, radius_m)
                        ==> appears(reports[i], out) || (out.len() == NEARBY_LIMIT
                        && created_before(reports[i], out[out.len() - 1]))
            },
    {
        let ghost reports = self@.reports;
        let radius_m: i64 = radius_km * 1000;
        let n = self.reports.len();
        let mut cands: Vec<Cand> = Vec::new();
        let mut i: usize = 0;
        while i < n
            invariant
                self.wf(),
                location.in_bounds(),
                0 <= radius_m <= crate::geo::RADIUS_LIMIT_M,
                n == reports.len(),
                reports == self@.reports,
                i <= n,
                forall|j: int|
                    0 <= j < cands@.len() ==> {
                        let c = #[trigger] cands@[j];
                        &&& c.idx < i
                        &&& c.key == reports[c.idx as int].created_at
                        &&& c.id == reports[c.idx as int].id
                        &&& nearby_match(reports[c.idx as int], *location, radius_m as int)
                    },
                forall|a: int, b: int| 0 <= a < b < cands@.len() ==> cands@[a].idx < cands@[b].idx,
                forall|t: int|
                    0 <= t < i && nearby_match(#[trigger] reports[t], *location, radius_m as int)
                        ==> exists|j: int| 0 <= j < cands@.len() && cands@[j].idx == t,
            decreases n - i,
        {
            let rep = &self.reports[i];
            let ghost cands0 = cands@;
            let wanted = match rep.status {
                ReportStatus::Pending => true,
                ReportStatus::Claimed => true,
                _ => false,
            };
            if wanted && crate::geo::is_within_radius(&rep.location, location, radius_m) {
                cands.push(Cand { key: rep.created_at, id: rep.id, idx: i });
            }
            proof {
                assert forall|t: int|
                    0 <= t < i + 1 && nearby_match(
                        #[trigger] reports[t],
                        *location,
                        radius_m as int,
                    ) implies exists|j: int| 0 <= j < cands@.len() && cands@[j].idx == t by {
                    if t < i {
                        let j = choose|j: int| 0 <= j < cands0.len() && cands0[j].idx == t;
                        assert(cands@[j].idx == t);
                    } else {
                        assert(cands@[cands@.len() - 1].idx == t);
                    }
                }
            }
            i += 1;
        }
        if cands.len() == 0 {
            proof {
                assert forall|t: int|
                    0 <= t < reports.len() && nearby_match(
                        #[trigger] reports[t],
                        *location,
                        radius_m as int,
                    ) implies false by {
                    let j = choose|j: int| 0 <= j < cands@.len() && cands@[j].idx == t;
                }
            }
            return Ok(Vec::new());
        }
        proof {
            lemma_report_cands_distinct(cands@, reports);
        }
        let picked = top_desc(&cands, NEARBY_LIMIT);
        let m = picked.len();
        let mut out: Vec<LitterReport> = Vec::new();
        let mut k: usize = 0;
        while k < m
            invariant
                reports == self@.reports,
                m == picked@.len(),
                k <= m,
                out@.len() == k,
                forall|q: int| 0 <= q < m ==> cands@.contains(#[trigger] picked@[q]),
                forall|j: int|
                    0 <= j < cands@.len() ==> {
                        let c = #[trigger] cands@[j];
                        &&& c.idx < reports.len()
                        &&& c.key == reports[c.idx as int].created_at
                        &&& c.id == reports[c.idx as int].id
                    },
                forall|q: int|
                    0 <= q < k ==> (#[trigger] out@[q])@ == reports[picked@[q].idx as int]@,
            decreases m - k,
        {
            let c = picked[k];
            proof {
                assert(cands@.contains(picked@[k as int]));
                let j = choose|j: int| 0 <= j < cands@.len() && cands@[j] == picked@[k as int];
                assert(cands@[j].idx < reports.len());
            }
            out.push(self.reports[c.idx].duplicate());
            k += 1;
        }
        proof {
            lemma_out_facts(cands@, picked@, out@, reports, false);
            assert forall|kk: int|
                0 <= kk < out@.len() implies nearby_match(
                #[trigger] out@[kk],
                *location,
                (radius_m as int),
            ) by {
                assert(cands@.contains(picked@[kk]));
                let q = choose|j: int| 0 <= j < cands@.len() && cands@[j] == picked@[kk];
                assert(out@[kk]@ == reports[cands@[q].idx as int]@);
            }
            assert forall|t: int|
                0 <= t < reports.len() && nearby_match(
                    #[trigger] reports[t],
                    *location,
                    (radius_m as int),
                ) implies appears(reports[t], out@) || (out@.len() == NEARBY_LIMIT
                && created_before(reports[t], out@[out@.len() - 1])) by {
                let j = choose|j: int| 0 <= j < cands@.len() && cands@[j].idx == t;
                assert(cands@.contains(cands@[j]));
                if picked@.contains(cands@[j]) {
                    let q = choose|q: int| 0 <= q < picked@.len() && picked@[q] == cands@[j];
                    assert(out@[q]@ == reports[picked@[q].idx as int]@);
                    assert(appears(reports[t], out@));
                } else {
                    assert(picked@.len() == NEARBY_LIMIT && cand_lt(cands@[j], picked@.last()));
                    let ql = picked@.len() - 1;
                    assert(cands@.contains(picked@[ql]));
                    let jl = choose|jj: int| 0 <= jj < cands@.len() && cands@[jj] == picked@[ql];
                    assert(out@[ql]@ == reports[picked@[ql].idx as int]@);
                    assert(created_before(reports[t], out@[ql]));
                }
            }
        }
        Ok(out)
    }

    /// All reports a user could verify near a point: Cleared, within the
    /// radius, cleared by someone else and not yet verified by the user,
    /// latest clear first, capped at `QUEUE_LIMIT`. A report outside the cap
    /// was cleared before everything returned.
    pub fn get_verification_queue(&self, location: &Location, radius_km: i64, user_id: u64) -> (r:
        Result<Vec<LitterReport>, AppError>)
        requires
            self.wf(),
            location.in_bounds(),
            0 <= radius_km <= 100_000,
        ensures
            r matches Ok(list) && {
                let out = list@;
                let reports = self@.reports;
                let verifs = self@.verifications;
                let radius_m = radius_km * 1000;
                &&& out.len() <= QUEUE_LIMIT
                &&& latest_cleared_first(out)
                &&& forall|k: int|
                    0 <= k < out.len() ==> queue_match(
                        #[trigger] out[k],
                        verifs,
                        *location,
                        radius_m,
                        user_id,
                    )
                &&& forall|k: int|
                    0 <= k < out.len() ==> copies_some_row(#[trigger] out[k], reports)
                &&& forall|i: int|
                    0 <= i < reports.len() && queue_match(
                        #[trigger] reports[i],
                        verifs,
                        *location,
                        radius_m,
                        user_id,
                    ) ==> appears(reports[i], out) || (out.len() == QUEUE_LIMIT && cleared_before(
                        reports[i],
                        out[out.len() - 1],
                    ))
            },
    {
        let ghost reports = self@.reports;
        let ghost verifs = self@.verifications;
        let radius_m: i64 = radius_km * 1000;
        let n = self.reports.len();
        let mut cands: Vec<Cand> = Vec::new();
        let mut i: usize = 0;
        while i < n
            invariant
                self.wf(),
                location.in_bounds(),
                0 <= radius_m <= crate::geo::RADIUS_LIMIT_M,
                n == reports.len(),
                reports == self@.reports,
                verifs == self@.verifications,
                i <= n,
                forall|j: int|
                    0 <= j < cands@.len() ==> {
                        let c = #[trigger] cands@[j];
                        &&& c.idx < i
                        &&& c.key == reports[c.idx as int].cleared_at->0
                        &&& c.id == reports[c.idx as int].id
                        &&& queue_match(
                            reports[c.idx as int],
                            verifs,
                            *location,
                            radius_m as int,
                            user_id,
                        )
                    },
                forall|a: int, b: int| 0 <= a < b < cands@.len() ==> cands@[a].idx < cands@[b].idx,
                forall|t: int|
                    0 <= t < i && queue_match(
                        #[trigger] reports[t],
                        verifs,
                        *location,
                        radius_m as int,
                        user_id,
                    ) ==> exists|j: int| 0 <= j < cands@.len() && cands@[j].idx == t,
            decreases n - i,
        {
            let rep = &self.reports[i];
            let ghost cands0 = cands@;
            let cleared = match rep.status {
                ReportStatus::Cleared => true,
                _ => false,
            };
            let not_mine = match rep.cleared_by {
                Some(u) => u != user_id,
                None => true,
            };
            if cleared && not_mine && crate::geo::is_within_radius(&rep.location, location, radius_m)
                && !self.find_verification_by(rep.id, user_id) {
                proof {
                    assert(self@.reports[i as int].wf());
                }
                let key = match rep.cleared_at {
                    Some(t) => t,
                    None => vstd::pervasive::unreached(),
                };
                cands.push(Cand { key, id: rep.id, idx: i });
            }
            proof {
                assert forall|t: int|
                    0 <= t < i + 1 && queue_match(
                        #[trigger] reports[t],
                        verifs,
                        *location,
                        radius_m as int,
                        user_id,
                    ) implies exists|j: int| 0 <= j < cands@.len() && cands@[j].idx == t by {
                    if t < i {
                        let j = choose|j: int| 0 <= j < cands0.len() && cands0[j].idx == t;
                        assert(cands@[j].idx == t);
                    } else {
                        assert(cands@[cands@.len() - 1].idx == t);
                    }
                }
            }
            i += 1;
        }
        if cands.len() == 0 {
            proof {
                assert forall|t: int|
                    0 <= t < reports.len() && queue_match(
                        #[trigger] reports[t],
                        verifs,
                        *location,
                        radius_m as int,
                        user_id,
                    ) implies false by {
                    let j = choose|j: int| 0 <= j < cands@.len() && cands@[j].idx == t;
                }
            }
            return Ok(Vec::new());
        }
        proof {
            lemma_report_cands_distinct(cands@, reports);
        }
        let picked = top_desc(&cands, QUEUE_LIMIT);
        let m = picked.len();
        let mut out: Vec<LitterReport> = Vec::new();
        let mut k: usize = 0;
        while k < m
            invariant
                reports == self@.reports,
                m == picked@.len(),
                k <= m,
                out@.len() == k,
                forall|q: int| 0 <= q < m ==> cands@.contains(#[trigger] picked@[q]),
                forall|j: int|
                    0 <= j < cands@.len() ==> {
                        let c = #[trigger] cands@[j];
                        &&& c.idx < reports.len()
                        &&& c.key == reports[c.idx as int].cleared_at->0
                        &&& c.id == reports[c.idx as int].id
                    },
                forall|q: int|
                    0 <= q < k ==> (#[trigger] out@[q])@ == reports[picked@[q].idx as int]@,
            decreases m - k,
        {
            let c = picked[k];
            proof {
                assert(cands@.contains(picked@[k as int]));
                let j = choose|j: int| 0 <= j < cands@.len() && cands@[j] == picked@[k as int];
                assert(cands@[j].idx < reports.len());
            }
            out.push(self.reports[c.idx].duplicate());
            k += 1;
        }
        proof {
            lemma_out_facts(cands@, picked@, out@, reports, true);
            assert forall|kk: int|
                0 <= kk < out@.len() implies queue_match(
                #[trigger] out@[kk],
                verifs,
                *location,
                (radius_m as int),
                user_id,
            ) by {
                assert(cands@.contains(picked@[kk]));
                let q = choose|j: int| 0 <= j < cands@.len() && cands@[j] == picked@[kk];
                assert(out@[kk]@ == reports[cands@[q].idx as int]@);
            }
            assert forall|t: int|
                0 <= t < reports.len() && queue_match(
                    #[trigger] reports[t],
                    verifs,
                    *location,
                    (radius_m as int),
                    user_id,
                ) implies appears(reports[t], out@) || (out@.len() == QUEUE_LIMIT && cleared_before(
                reports[t],
                out@[out@.len() - 1],
            )) by {
                let j = choose|j: int| 0 <= j < cands@.len() && cands@[j].idx == t;
                assert(cands@.contains(cands@[j]));
                if picked@.contains(cands@[j]) {
                    let q = choose|q: int| 0 <= q < picked@.len() && picked@[q] == cands@[j];
                    assert(out@[q]@ == reports[picked@[q].idx as int]@);
                    assert(appears(reports[t], out@));
                } else {
                    assert(picked@.len() == QUEUE_LIMIT && cand_lt(cands@[j], picked@.last()));
                    let ql = picked@.len() - 1;
                    assert(cands@.contains(picked@[ql]));
                    let jl = choose|jj: int| 0 <= jj < cands@.len() && cands@[jj] == picked@[ql];
                    assert(out@[ql]@ == reports[picked@[ql].idx as int]@);
                    assert(cleared_before(reports[t], out@[ql]));
                }
            }
        }
        Ok(out)
    }

    /// All reports a user cleared, latest clear first.
    pub fn get_user_cleared_reports(&self, user_id: u64) -> (r: Result<Vec<LitterReport>, AppError>)
        requires
            self.wf(),
        ensures
            r matches Ok(list) && {
                let out = list@;
                let reports = self@.reports;
                &&& latest_cleared_first(out)
                &&& forall|k: int|
                    0 <= k < out.len() ==> (#[trigger] out[k]).cleared_by == Some(user_id)
                &&& forall|k: int|
                    0 <= k < out.len() ==> copies_some_row(#[trigger] out[k], reports)
                &&& forall|i: int|
                    0 <= i < reports.len() && (#[trigger] reports[i]).cleared_by == Some(user_id)
                        ==> appears(reports[i], out)
            },
    {
        let ghost reports = self@.reports;
        let n = self.reports.len();
        let mut cands: Vec<Cand> = Vec::new();
        let mut i: usize = 0;
        while i < n
            invariant
                self.wf(),
                n == reports.len(),
                reports == self@.reports,
                i <= n,
                forall|j: int|
                    0 <= j < cands@.len() ==> {
                        let c = #[trigger] cands@[j];
                        &&& c.idx < i
                        &&& c.key == reports[c.idx as int].cleared_at->0
                        &&& c.id == reports[c.idx as int].id
                        &&& reports[c.idx as int].cleared_by == Some(user_id)
                    },
                forall|a: int, b: int| 0 <= a < b < cands@.len() ==> cands@[a].idx < cands@[b].idx,
                forall|t: int|
                    0 <= t < i && (#[trigger] reports[t]).cleared_by == Some(user_id) ==> exists|
                        j: int,
                    | 0 <= j < cands@.len() && cands@[j].idx == t,
            decreases n - i,
        {
            let rep = &self.reports[i];
            let ghost cands0 = cands@;
            let is_mine = match rep.cleared_by {
                Some(u) => u == user_id,
                None => false,
            };
            if is_mine {
                proof {
                    assert(self@.reports[i as int].wf());
                }
                let key = match rep.cleared_at {
                    Some(t) => t,
                    None => vstd::pervasive::unreached(),
                };
                cands.push(Cand { key, id: rep.id, idx: i });
            }
            proof {
                assert forall|t: int|
                    0 <= t < i + 1 && (#[trigger] reports[t]).cleared_by == Some(
                        user_id,
                    ) implies exists|j: int| 0 <= j < cands@.len() && cands@[j].idx == t by {
                    if t < i {
                        let j = choose|j: int| 0 <= j < cands0.len() && cands0[j].idx == t;
                        assert(cands@[j].idx == t);
                    } else {
                        assert(cands@[cands@.len() - 1].idx == t);
                    }
                }
            }
            i += 1;
        }
        if cands.len() == 0 {
            proof {
                assert forall|t: int|
                    0 <= t < reports.len() && (#[trigger] reports[t]).cleared_by == Some(
                        user_id,
                    ) implies false by {
                    let j = choose|j: int| 0 <= j < cands@.len() && cands@[j].idx == t;
                }
            }
            return Ok(Vec::new());
        }
        proof {
            lemma_report_cands_distinct(cands@, reports);
        }
        let picked = top_desc(&cands, cands.len());
        let m = picked.len();
        let mut out: Vec<LitterReport> = Vec::new();
        let mut k: usize = 0;
        while k < m
            invariant
                reports == self@.reports,
                m == picked@.len(),
                k <= m,
                out@.len() == k,
                forall|q: int| 0 <= q < m ==> cands@.contains(#[trigger] picked@[q]),
                forall|j: int|
                    0 <= j < cands@.len() ==> {
                        let c = #[trigger] cands@[j];
                        &&& c.idx < reports.len()
                        &&& c.key == reports[c.idx as int].cleared_at->0
                        &&& c.id == reports[c.idx as int].id
                    },
                forall|q: int|
                    0 <= q < k ==> (#[trigger] out@[q])@ == reports[picked@[q].idx as int]@,
            decreases m - k,
        {
            let c = picked[k];
            proof {
                assert(cands@.contains(picked@[k as int]));
                let j = choose|j: int| 0 <= j < cands@.len() && cands@[j] == picked@[k as int];
                assert(cands@[j].idx < reports.len());
            }
            out.push(self.reports[c.idx].duplicate());
            k += 1;
        }
        proof {
            lemma_out_facts(cands@, picked@, out@, reports, true);
            assert forall|t: int|
                0 <= t < reports.len() && (#[trigger] reports[t]).cleared_by == Some(
                    user_id,
                ) implies appears(reports[t], out@) by {
                let j = choose|j: int| 0 <= j < cands@.len() && cands@[j].idx == t;
                assert(cands@.contains(cands@[j]));
                assert(picked@.contains(cands@[j]));
                let q = choose|q: int| 0 <= q < picked@.len() && picked@[q] == cands@[j];
                assert(out@[q]@ == reports[picked@[q].idx as int]@);
            }
            assert forall|kk: int|
                0 <= kk < out@.len() implies (#[trigger] out@[kk]).cleared_by == Some(user_id) by {
                let q = choose|j: int| 0 <= j < cands@.len() && cands@[j] == picked@[kk];
                assert(out@[kk]@ == reports[cands@[q].idx as int]@);
            }
        }
        Ok(out)
    }

    /// All verification records of one report, oldest first. Fails
    /// `NotFound` when the report does not exist.
    pub fn get_report_verifications(&self, report_id: u64) -> (r: Result<
        Vec<ReportVerification>,
        AppError,
    >)
        requires
            self.wf(),
        ensures
            !crate::store::has_report(self@.reports, report_id) ==> (r matches Err(
                AppError::NotFound(m),
            ) && m@ == "Report not found"@),
            crate::store::has_report(self@.reports, report_id) ==> (r matches Ok(list) && {
                let out = list@;
                let verifs = self@.verifications;
                &&& oldest_verification_first(out)
                &&& forall|k: int| 0 <= k < out.len() ==> (#[trigger] out[k]).report_id == report_id
                &&& forall|k: int|
                    0 <= k < out.len() ==> copies_some_verification(#[trigger] out[k], verifs)
                &&& forall|i: int|
                    0 <= i < verifs.len() && (#[trigger] verifs[i]).report_id == report_id
                        ==> verification_appears(verifs[i], out)
            }),
    {
        if self.find_report(report_id).is_none() {
            return Err(AppError::NotFound("Report not found".to_owned()));
        }
        let ghost verifs = self@.verifications;
        let n = self.verifications.len();
        let mut cands: Vec<Cand> = Vec::new();
        let mut i: usize = 0;
        while i < n
            invariant
                n == verifs.len(),
                verifs == self@.verifications,
                i <= n,
                forall|j: int|
                    0 <= j < cands@.len() ==> {
                        let c = #[trigger] cands@[j];
                        &&& c.idx < i
                        &&& c.key == verifs[c.idx as int].created_at
                        &&& c.id == verifs[c.idx as int].id
                        &&& verifs[c.idx as int].report_id == report_id
                    },
                forall|a: int, b: int| 0 <= a < b < cands@.len() ==> cands@[a].idx < cands@[b].idx,
                forall|t: int|
                    0 <= t < i && (#[trigger] verifs[t]).report_id == report_id ==> exists|j: int|
                        0 <= j < cands@.len() && cands@[j].idx == t,
            decreases n - i,
        {
            let v = &self.verifications[i];
            let ghost cands0 = cands@;
            if v.report_id == report_id {
                cands.push(Cand { key: v.created_at, id: v.id, idx: i });
            }
            proof {
                assert forall|t: int|
                    0 <= t < i + 1 && (#[trigger] verifs[t]).report_id == report_id implies exists|
                    j: int,
                | 0 <= j < cands@.len() && cands@[j].idx == t by {
                    if t < i {
                        let j = choose|j: int| 0 <= j < cands0.len() && cands0[j].idx == t;
                        assert(cands@[j].idx == t);
                    } else {
                        assert(cands@[cands@.len() - 1].idx == t);
                    }
                }
            }
            i += 1;
        }
        if cands.len() == 0 {
            proof {
                assert forall|t: int|
                    0 <= t < verifs.len() && (#[trigger] verifs[t]).report_id
                        == report_id implies false by {
                    let j = choose|j: int| 0 <= j < cands@.len() && cands@[j].idx == t;
                }
            }
            return Ok(Vec::new());
        }
        proof {
            assert forall|a: int, b: int|
                0 <= a < b < cands@.len() implies cands@[a].id != cands@[b].id by {
                assert(cands@[a].idx < cands@[b].idx);
                assert(verifs[cands@[a].idx as int].id != verifs[cands@[b].idx as int].id);
            }
        }
        let picked = top_desc(&cands, cands.len());
        let m = picked.len();
        let mut out: Vec<ReportVerification> = Vec::new();
        let mut k: usize = 0;
        while k < m
            invariant
                verifs == self@.verifications,
                m == picked@.len(),
                k <= m,
                out@.len() == k,
                forall|q: int| 0 <= q < m ==> cands@.contains(#[trigger] picked@[q]),
                forall|j: int|
                    0 <= j < cands@.len() ==> {
                        let c = #[trigger] cands@[j];
                        &&& c.idx < verifs.len()
                        &&& c.key == verifs[c.idx as int].created_at
                        &&& c.id == verifs[c.idx as int].id
                    },
                forall|q: int|
                    0 <= q < k ==> (#[trigger] out@[q])@ == verifs[picked@[m - 1 - q].idx as int]@,
            decreases m - k,
        {
            let c = picked[m - 1 - k];
            proof {
                assert(cands@.contains(picked@[m - 1 - k as int]));
                let j = choose|j: int|
                    0 <= j < cands@.len() && cands@[j] == picked@[m - 1 - k as int];
                assert(cands@[j].idx < verifs.len());
            }
            out.push(self.verifications[c.idx].duplicate());
            k += 1;
        }
        proof {
            assert forall|a: int, b: int|
                0 <= a < b < out@.len() implies verification_before(
                #[trigger] out@[a],
                #[trigger] out@[b],
            ) by {
                let pa = m - 1 - a;
                let pb = m - 1 - b;
                assert(cand_lt(picked@[pa], picked@[pb]));
                assert(cands@.contains(picked@[pa]));
                assert(cands@.contains(picked@[pb]));
                let ja = choose|j: int| 0 <= j < cands@.len() && cands@[j] == picked@[pa];
                let jb = choose|j: int| 0 <= j < cands@.len() && cands@[j] == picked@[pb];
                assert(out@[a]@ == verifs[picked@[pa].idx as int]@);
                assert(out@[b]@ == verifs[picked@[pb].idx as int]@);
            }
            assert forall|kk: int|
                0 <= kk < out@.len() implies copies_some_verification(#[trigger] out@[kk], verifs)
                && out@[kk].report_id == report_id by {
                assert(cands@.contains(picked@[m - 1 - kk]));
                let j = choose|j: int| 0 <= j < cands@.len() && cands@[j] == picked@[m - 1 - kk];
                assert((picked@[m - 1 - kk].idx as int) < verifs.len());
                assert(out@[kk]@ == verifs[picked@[m - 1 - kk].idx as int]@);
            }
            assert forall|t: int|
                0 <= t < verifs.len() && (#[trigger] verifs[t]).report_id
                    == report_id implies verification_appears(verifs[t], out@) by {
                let j = choose|j: int| 0 <= j < cands@.len() && cands@[j].idx == t;
                assert(cands@.contains(cands@[j]));
                assert(picked@.contains(cands@[j]));
                let q = choose|q: int| 0 <= q < picked@.len() && picked@[q] == cands@[j];
                assert(out@[m - 1 - q]@ == verifs[picked@[q].idx as int]@);
            }
        }
        Ok(out)
    }
}

/// From a selection over tagged candidates, the copied-out rows are strictly
/// ordered by the tagged key and each copies some tagged row.
proof fn lemma_out_facts(
    cands: Seq<Cand>,
    picked: Seq<Cand>,
    out: Seq<LitterReport>,
    reports: Seq<LitterReport>,
    by_cleared: bool,
)
    requires
        forall|j: int|
            0 <= j < cands.len() ==> {
                let c = #[trigger] cands[j];
                &&& c.idx < reports.len()
                &&& c.key == (if by_cleared {
                    reports[c.idx as int].cleared_at->0
                } else {
                    reports[c.idx as int].created_at
                })
                &&& c.id == reports[c.idx as int].id
            },
        forall|q: int| 0 <= q < picked.len() ==> cands.contains(#[trigger] picked[q]),
        forall|a: int, b: int| 0 <= a < b < picked.len() ==> cand_lt(picked[b], picked[a]),
        out.len() == picked.len(),
        forall|q: int| 0 <= q < out.len() ==> (#[trigger] out[q])@ == reports[picked[q].idx as int]@,
    ensures
        by_cleared ==> latest_cleared_first(out),
        !by_cleared ==> newest_first(out),
        forall|k: int| 0 <= k < out.len() ==> copies_some_row(#[trigger] out[k], reports),
{
    assert forall|a: int, b: int|
        0 <= a < b < out.len() implies (if by_cleared {
        cleared_before(out[b], out[a])
    } else {
        created_before(out[b], out[a])
    }) by {
        assert(cand_lt(picked[b], picked[a]));
        let ja = choose|j: int| 0 <= j < cands.len() && cands[j] == picked[a];
        let jb = choose|j: int| 0 <= j < cands.len() && cands[j] == picked[b];
        assert(out[a]@ == reports[picked[a].idx as int]@);
        assert(out[b]@ == reports[picked[b].idx as int]@);
    }
    assert forall|k: int| 0 <= k < out.len() implies copies_some_row(out[k], reports) by {
        assert(cands.contains(picked[k]));
        let j = choose|j: int| 0 <= j < cands.len() && cands[j] == picked[k];
        assert((picked[k].idx as int) < reports.len());
        assert(out[k]@ == reports[picked[k].idx as int]@);
    }
}

} // verus!
