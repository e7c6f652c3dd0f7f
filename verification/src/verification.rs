//! Peer verification records of cleared reports.

use vstd::prelude::*;
use crate::clock::MAX_TIMESTAMP;
use crate::report::opt_str_view;

verus! {

/// A peer's verdict on one cleared report. At most one record exists per
/// (report, verifier) pair.
#[derive(Debug)]
pub struct ReportVerification {
    pub id: u64,
    pub report_id: u64,
    pub verifier_id: u64,
    pub is_verified: bool,
    pub comment: Option<String>,
    pub created_at: i64,
}

/// Mathematical image of a verification record.
pub ghost struct VerificationV {
    pub id: u64,
    pub report_id: u64,
    pub verifier_id: u64,
    pub is_verified: bool,
    pub comment: Option<Seq<char>>,
    pub created_at: i64,
}

impl View for ReportVerification {
    type V = VerificationV;

    open spec fn view(&self) -> VerificationV {
        VerificationV {
            id: self.id,
            report_id: self.report_id,
            verifier_id: self.verifier_id,
            is_verified: self.is_verified,
            comment: opt_str_view(self.comment),
            created_at: self.created_at,
        }
    }
}

impl ReportVerification {
    pub open spec fn wf(self) -> bool {
        0 <= self.created_at <= MAX_TIMESTAMP
    }

    /// An owned copy whose mathematical image equals this record's.
    pub fn duplicate(&self) -> (r: ReportVerification)
        ensures
            r@ == self@,
    {
        ReportVerification {
            id: self.id,
            report_id: self.report_id,
            verifier_id: self.verifier_id,
            is_verified: self.is_verified,
            comment: crate::report::clone_opt_string(&self.comment),
            created_at: self.created_at,
        }
    }
}

/// Body of a request to verify a cleared report.
#[derive(Debug)]
pub struct CreateVerificationRequest {
    pub is_verified: bool,
    pub comment: Option<String>,
}

} // verus!
