//! The shared relational store, modelled in memory.
//!
//! One `Store` value stands for the state all operations act on: the reports
//! table, the verifications table, the per-user score aggregates, the
//! append-only score-event ledger, and the user directory. Every operation
//! is one atomic transaction on this value: it validates the state it
//! depends on as part of the same update, and on any failure leaves the
//! store exactly as it was - no partial effect is ever observable.

use vstd::prelude::*;
use crate::config::ScoringConfig;
use crate::error::AppError;
use crate::report::LitterReport;
use crate::score::{ScoreEvent, UserScore};
use crate::user::UserRecord;
use crate::verification::ReportVerification;

verus! {

/// Ids come from a finite sequence, as a store's serial column does; an
/// operation that would pass this limit fails rather than wrap.
pub const ID_LIMIT: u64 = 4_611_686_018_427_387_904;

/// The state of the service: every table of the store, plus the scoring
/// rules it was configured with.
#[derive(Debug)]
pub struct Store {
    pub config: ScoringConfig,
    pub users: Vec<UserRecord>,
    pub reports: Vec<LitterReport>,
    pub verifications: Vec<ReportVerification>,
    pub scores: Vec<UserScore>,
    pub events: Vec<ScoreEvent>,
    pub next_report_id: u64,
    pub next_verification_id: u64,
}

pub open spec fn report_ids_unique(s: Seq<LitterReport>) -> bool {
    forall|i: int, j: int| 0 <= i < j < s.len() ==> s[i].id != s[j].id
}

pub open spec fn user_ids_unique(s: Seq<UserRecord>) -> bool {
    forall|i: int, j: int| 0 <= i < j < s.len() ==> s[i].id != s[j].id
}

pub open spec fn score_users_unique(s: Seq<UserScore>) -> bool {
    forall|i: int, j: int| 0 <= i < j < s.len() ==> s[i].user_id != s[j].user_id
}

/// No two records verify the same report by the same user.
pub open spec fn verification_pairs_unique(s: Seq<ReportVerification>) -> bool {
    forall|i: int, j: int|
        0 <= i < j < s.len() ==> !(s[i].report_id == s[j].report_id && s[i].verifier_id
            == s[j].verifier_id)
}

pub open spec fn verification_ids_unique(s: Seq<ReportVerification>) -> bool {
    forall|i: int, j: int| 0 <= i < j < s.len() ==> s[i].id != s[j].id
}

/// Whether some report in `s` has id `id`.
pub open spec fn has_report(s: Seq<LitterReport>, id: u64) -> bool {
    exists|i: int| 0 <= i < s.len() && s[i].id == id
}

/// Index of the report with id `id`; meaningful only when `has_report`.
pub open spec fn report_idx(s: Seq<LitterReport>, id: u64) -> int {
    choose|i: int| 0 <= i < s.len() && s[i].id == id
}

pub open spec fn has_user(s: Seq<UserRecord>, id: u64) -> bool {
    exists|i: int| 0 <= i < s.len() && s[i].id == id
}

pub open spec fn user_idx(s: Seq<UserRecord>, id: u64) -> int {
    choose|i: int| 0 <= i < s.len() && s[i].id == id
}

pub open spec fn has_score(s: Seq<UserScore>, user_id: u64) -> bool {
    exists|i: int| 0 <= i < s.len() && s[i].user_id == user_id
}

pub open spec fn score_idx(s: Seq<UserScore>, user_id: u64) -> int {
    choose|i: int| 0 <= i < s.len() && s[i].user_id == user_id
}

/// Whether `verifier` already has a record for report `report_id`.
pub open spec fn has_verification_by(
    s: Seq<ReportVerification>,
    report_id: u64,
    verifier: u64,
) -> bool {
    exists|i: int| 0 <= i < s.len() && s[i].report_id == report_id && s[i].verifier_id == verifier
}

/// Mathematical image of the whole store: each table as a sequence.
pub ghost struct StoreV {
    pub config: ScoringConfig,
    pub users: Seq<UserRecord>,
    pub reports: Seq<LitterReport>,
    pub verifications: Seq<ReportVerification>,
    pub scores: Seq<UserScore>,
    pub events: Seq<ScoreEvent>,
    pub next_report_id: u64,
    pub next_verification_id: u64,
}

impl View for Store {
    type V = StoreV;

    open spec fn view(&self) -> StoreV {
        StoreV {
            config: self.config,
            users: self.users@,
            reports: self.reports@,
            verifications: self.verifications@,
            scores: self.scores@,
            events: self.events@,
            next_report_id: self.next_report_id,
            next_verification_id: self.next_verification_id,
        }
    }
}

impl StoreV {
    /// The store's invariant: every row is well formed, keys are unique,
    /// and issued ids stay below the id sequence's next value.
    pub open spec fn wf(self) -> bool {
        &&& self.config.wf()
        &&& forall|i: int|
            0 <= i < self.reports.len() ==> (#[trigger] self.reports[i]).wf()
                && self.reports[i].id < self.next_report_id
        &&& report_ids_unique(self.reports)
        &&& 1 <= self.next_report_id <= ID_LIMIT
        &&& forall|i: int|
            0 <= i < self.verifications.len() ==> (#[trigger] self.verifications[i]).wf()
                && self.verifications[i].id < self.next_verification_id
        &&& verification_ids_unique(self.verifications)
        &&& verification_pairs_unique(self.verifications)
        &&& 1 <= self.next_verification_id <= ID_LIMIT
        &&& forall|i: int| 0 <= i < self.scores.len() ==> (#[trigger] self.scores[i]).wf()
        &&& score_users_unique(self.scores)
        &&& forall|i: int| 0 <= i < self.events.len() ==> (#[trigger] self.events[i]).wf()
        &&& user_ids_unique(self.users)
    }
}

/// With unique report ids, an index holding a given id is the chosen one.
pub proof fn lemma_report_idx_is(s: Seq<LitterReport>, id: u64, i: int)
    requires
        report_ids_unique(s),
        0 <= i < s.len(),
        s[i].id == id,
    ensures
        has_report(s, id),
        report_idx(s, id) == i,
{
    assert(has_report(s, id));
    let j = report_idx(s, id);
    assert(0 <= j < s.len() && s[j].id == id);
}

/// With unique aggregate keys, an index holding a given user is the chosen one.
pub proof fn lemma_score_idx_is(s: Seq<UserScore>, user_id: u64, i: int)
    requires
        score_users_unique(s),
        0 <= i < s.len(),
        s[i].user_id == user_id,
    ensures
        has_score(s, user_id),
        score_idx(s, user_id) == i,
{
    assert(has_score(s, user_id));
    let j = score_idx(s, user_id);
    assert(0 <= j < s.len() && s[j].user_id == user_id);
}

/// With unique directory ids, an index holding a given id is the chosen one.
pub proof fn lemma_user_idx_is(s: Seq<UserRecord>, id: u64, i: int)
    requires
        user_ids_unique(s),
        0 <= i < s.len(),
        s[i].id == id,
    ensures
        has_user(s, id),
        user_idx(s, id) == i,
{
    assert(has_user(s, id));
    let j = user_idx(s, id);
    assert(0 <= j < s.len() && s[j].id == id);
}

impl Store {
    /// The store's invariant, on its mathematical image.
    pub open spec fn wf(self) -> bool {
        self@.wf()
    }

    /// An empty store under the given scoring rules.
    pub fn new(config: ScoringConfig) -> (s: Store)
        requires
            config.wf(),
        ensures
            s.wf(),
            s.config == config,
            s.users@ =~= Seq::<UserRecord>::empty(),
            s.reports@ =~= Seq::<LitterReport>::empty(),
            s.verifications@ =~= Seq::<ReportVerification>::empty(),
            s.scores@ =~= Seq::<UserScore>::empty(),
            s.events@ =~= Seq::<ScoreEvent>::empty(),
    {
        Store {
            config,
            users: Vec::new(),
            reports: Vec::new(),
            verifications: Vec::new(),
            scores: Vec::new(),
            events: Vec::new(),
            next_report_id: 1,
            next_verification_id: 1,
        }
    }

    /// Registers a user in the directory. The directory itself is managed by
    /// the surrounding authentication service; the core only requires the id
    /// to be fresh.
    pub fn add_user(&mut self, user: UserRecord) -> (r: Result<(), AppError>)
        requires
            old(self).wf(),
        ensures
            final(self).wf(),
            final(self).config == old(self).config,
            final(self).reports@ == old(self).reports@,
            final(self).verifications@ == old(self).verifications@,
            final(self).scores@ == old(self).scores@,
            final(self).events@ == old(self).events@,
            has_user(old(self).users@, user.id) ==> (r matches Err(AppError::Conflict(_))
                && final(self).users@ == old(self).users@),
            !has_user(old(self).users@, user.id) ==> r is Ok && final(self).users@ == old(
                self,
            ).users@.push(user),
    {
        match self.find_user(user.id) {
            Some(_) => Err(AppError::Conflict("User already exists".to_owned())),
            None => {
                let ghost pre = self.users@;
                self.users.push(user);
                proof {
                    assert forall|i: int, j: int|
                        0 <= i < j < self.users@.len() implies self.users@[i].id
                        != self.users@[j].id by {
                        if j == self.users@.len() - 1 {
                            assert(!(exists|k: int|
                                0 <= k < pre.len() && pre[k].id == user.id));
                            assert(pre[i].id != user.id);
                        }
                    }
                    assert forall|i: int|
                        0 <= i < self.events@.len() implies (#[trigger] self.events@[i]).wf() by {
                        assert(0 <= i < old(self)@.events.len());
                        assert((old(self)@.events[i]).wf());
                        assert(old(self)@.events[i] == self.events@[i]);
                    }
                }
                Ok(())
            },
        }
    }

    /// Index of the report with the given id, if any.
    pub(crate) fn find_report(&self, report_id: u64) -> (r: Option<usize>)
        ensures
            match r {
                Some(i) => i < self.reports@.len() && self.reports@[i as int].id == report_id,
                None => !has_report(self.reports@, report_id),
            },
            r is Some <==> has_report(self.reports@, report_id),
    {
        let n = self.reports.len();
        let mut i: usize = 0;
        while i < n
            invariant
                n == self.reports@.len(),
                forall|k: int| 0 <= k < i ==> self.reports@[k].id != report_id,
            decreases n - i,
        {
            if self.reports[i].id == report_id {
                return Some(i);
            }
            i += 1;
        }
        None
    }

    /// Index of a user's score aggregate, if one exists yet.
    pub(crate) fn find_score(&self, user_id: u64) -> (r: Option<usize>)
        ensures
            match r {
                Some(i) => i < self.scores@.len() && self.scores@[i as int].user_id == user_id,
                None => !has_score(self.scores@, user_id),
            },
            r is Some <==> has_score(self.scores@, user_id),
    {
        let n = self.scores.len();
        let mut i: usize = 0;
        while i < n
            invariant
                n == self.scores@.len(),
                forall|k: int| 0 <= k < i ==> self.scores@[k].user_id != user_id,
            decreases n - i,
        {
            if self.scores[i].user_id == user_id {
                return Some(i);
            }
            i += 1;
        }
        None
    }

    /// Index of a user in the directory, if present.
    pub(crate) fn find_user(&self, user_id: u64) -> (r: Option<usize>)
        ensures
            match r {
                Some(i) => i < self.users@.len() && self.users@[i as int].id == user_id,
                None => !has_user(self.users@, user_id),
            },
            r is Some <==> has_user(self.users@, user_id),
    {
        let n = self.users.len();
        let mut i: usize = 0;
        while i < n
            invariant
                n == self.users@.len(),
                forall|k: int| 0 <= k < i ==> self.users@[k].id != user_id,
            decreases n - i,
        {
            if self.users[i].id == user_id {
                return Some(i);
            }
            i += 1;
        }
        None
    }

    /// Whether `verifier` already verified report `report_id`.
    pub(crate) fn find_verification_by(&self, report_id: u64, verifier: u64) -> (r: bool)
        ensures
            r == has_verification_by(self.verifications@, report_id, verifier),
    {
        let n = self.verifications.len();
        let mut i: usize = 0;
        while i < n
            invariant
                n == self.verifications@.len(),
                forall|k: int|
                    0 <= k < i ==> !((#[trigger] self.verifications@[k]).report_id == report_id
                        && self.verifications@[k].verifier_id == verifier),
            decreases n - i,
        {
            let v = &self.verifications[i];
            if v.report_id == report_id && v.verifier_id == verifier {
                return true;
            }
            i += 1;
        }
        false
    }

    /// Fetches a single report by id.
    pub fn get_report_by_id(&self, report_id: u64) -> (r: Result<LitterReport, AppError>)
        requires
            self.wf(),
        ensures
            has_report(self.reports@, report_id) ==> (r matches Ok(rep) && rep@ == self.reports@[
                report_idx(self.reports@, report_id)
            ]@),
            !has_report(self.reports@, report_id) ==> r matches Err(AppError::NotFound(_)),
    {
        match self.find_report(report_id) {
            Some(i) => {
                let rep = self.reports[i].duplicate();
                proof {
                    let j = report_idx(self.reports@, report_id);
                    assert(self.reports@[j].id == report_id);
                    assert(j == i as int);
                }
                Ok(rep)
            },
            None => Err(AppError::NotFound("Report not found".to_owned())),
        }
    }
}

} // verus!
