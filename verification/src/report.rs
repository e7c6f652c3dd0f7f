//! Litter reports and their lifecycle states.

use vstd::prelude::*;
use crate::clock::{MAX_TIMESTAMP};
use crate::geo::Location;

verus! {

/// Lifecycle states of a report, in their fixed order: a report only ever
/// moves forward through `Pending -> Claimed -> Cleared -> Verified`.
#[derive(Debug, Clone, Copy, PartialEq, Eq, Structural)]
pub enum ReportStatus {
    Pending,
    Claimed,
    Cleared,
    Verified,
}

/// Position of a status in the lifecycle order.
pub open spec fn status_rank(s: ReportStatus) -> int {
    match s {
        ReportStatus::Pending => 0,
        ReportStatus::Claimed => 1,
        ReportStatus::Cleared => 2,
        ReportStatus::Verified => 3,
    }
}

/// A litter report as the store holds it.
#[derive(Debug)]
pub struct LitterReport {
    pub id: u64,
    pub reporter_id: u64,
    pub location: Location,
    pub description: Option<String>,
    pub photo_before: String,
    pub status: ReportStatus,
    pub claimed_by: Option<u64>,
    pub claimed_at: Option<i64>,
    pub cleared_by: Option<u64>,
    pub cleared_at: Option<i64>,
    pub photo_after: Option<String>,
    pub created_at: i64,
    pub updated_at: i64,
}

/// Mathematical image of a report: strings become character sequences.
pub ghost struct ReportV {
    pub id: u64,
    pub reporter_id: u64,
    pub location: Location,
    pub description: Option<Seq<char>>,
    pub photo_before: Seq<char>,
    pub status: ReportStatus,
    pub claimed_by: Option<u64>,
    pub claimed_at: Option<i64>,
    pub cleared_by: Option<u64>,
    pub cleared_at: Option<i64>,
    pub photo_after: Option<Seq<char>>,
    pub created_at: i64,
    pub updated_at: i64,
}

pub open spec fn opt_str_view(o: Option<String>) -> Option<Seq<char>> {
    match o {
        Some(s) => Some(s@),
        None => None,
    }
}

impl View for LitterReport {
    type V = ReportV;

    open spec fn view(&self) -> ReportV {
        ReportV {
            id: self.id,
            reporter_id: self.reporter_id,
            location: self.location,
            description: opt_str_view(self.description),
            photo_before: self.photo_before@,
            status: self.status,
            claimed_by: self.claimed_by,
            claimed_at: self.claimed_at,
            cleared_by: self.cleared_by,
            cleared_at: self.cleared_at,
            photo_after: opt_str_view(self.photo_after),
            created_at: self.created_at,
            updated_at: self.updated_at,
        }
    }
}

impl LitterReport {
    /// The structural invariant of a stored report: ownership fields are set
    /// exactly from the state their transition establishes, the claimant is
    /// never the reporter, and the clearer is the claimant.
    pub open spec fn wf(self) -> bool {
        &&& self.location.in_bounds()
        &&& 0 <= self.created_at <= MAX_TIMESTAMP
        &&& 0 <= self.updated_at <= MAX_TIMESTAMP
        &&& (self.claimed_by is Some <==> status_rank(self.status) >= 1)
        &&& (self.claimed_at is Some <==> status_rank(self.status) >= 1)
        &&& (self.cleared_by is Some <==> status_rank(self.status) >= 2)
        &&& (self.cleared_at is Some <==> status_rank(self.status) >= 2)
        &&& (self.photo_after is Some <==> status_rank(self.status) >= 2)
        &&& (self.claimed_by matches Some(u) ==> u != self.reporter_id)
        &&& (status_rank(self.status) >= 2 ==> self.cleared_by == self.claimed_by)
        &&& (self.claimed_at matches Some(t) ==> 0 <= t <= MAX_TIMESTAMP)
        &&& (self.cleared_at matches Some(t) ==> 0 <= t <= MAX_TIMESTAMP)
    }

    /// An owned copy whose mathematical image equals this report's.
    pub fn duplicate(&self) -> (r: LitterReport)
        ensures
            r@ == self@,
    {
        LitterReport {
            id: self.id,
            reporter_id: self.reporter_id,
            location: self.location,
            description: clone_opt_string(&self.description),
            photo_before: self.photo_before.clone(),
            status: self.status,
            claimed_by: self.claimed_by,
            claimed_at: self.claimed_at,
            cleared_by: self.cleared_by,
            cleared_at: self.cleared_at,
            photo_after: clone_opt_string(&self.photo_after),
            created_at: self.created_at,
            updated_at: self.updated_at,
        }
    }
}

/// Clones an optional string, keeping its mathematical image.
pub fn clone_opt_string(o: &Option<String>) -> (r: Option<String>)
    ensures
        opt_str_view(r) == opt_str_view(*o),
{
    match o {
        Some(s) => Some(s.clone()),
        None => None,
    }
}

/// Body of a request to clear a claimed report; carries the proof photo.
#[derive(Debug)]
pub struct ClearReportRequest {
    pub photo_base64: String,
}

} // verus!
