use littypicky::config::ScoringConfig;
use littypicky::error::AppError;
use littypicky::geo::Location;
use littypicky::report::ReportStatus;
use littypicky::store::Store;
use littypicky::user::{UserRecord, UserRole};
use littypicky::verification::CreateVerificationRequest;

const DAY: i64 = 86_400;

fn config() -> ScoringConfig {
    ScoringConfig {
        min_clears_to_verify: 5,
        min_verifications_needed: 3,
        base_points_per_clear: 10,
        streak_bonus_points: 5,
        first_in_area_bonus: 20,
        verification_bonus: 2,
        verified_report_bonus: 10,
    }
}

fn user(id: u64) -> UserRecord {
    UserRecord {
        id,
        email_verified: true,
        full_name: format!("User {}", id),
        city: "London".to_string(),
        country: "UK".to_string(),
        role: UserRole::User,
    }
}

fn origin() -> Location {
    Location { x_m: 0, y_m: 0 }
}

fn add_users(store: &mut Store, ids: &[u64]) {
    for &id in ids {
        store.add_user(user(id)).unwrap();
    }
}

fn new_report(store: &mut Store, reporter: u64, now: i64) -> u64 {
    store
        .create_report(reporter, origin(), None, "before".to_string(), now)
        .unwrap()
        .id
}

/// Gives `verifier` five clears so they may verify others' reports. Fresh
/// reporter ids start at `reporter_base`.
fn enable_verification_for_user(store: &mut Store, verifier: u64, reporter_base: u64, now: i64) {
    for i in 0..5u64 {
        let reporter = reporter_base + i;
        store.add_user(user(reporter)).unwrap();
        let rid = new_report(store, reporter, now);
        store.claim_report(rid, verifier, now).unwrap();
        store.clear_report(rid, verifier, "after".to_string(), now).unwrap();
    }
}

fn verdict(is_verified: bool) -> CreateVerificationRequest {
    CreateVerificationRequest { is_verified, comment: None }
}

/// One report created by user 1, claimed and cleared by user 2.
fn cleared_report(store: &mut Store, now: i64) -> u64 {
    add_users(store, &[1, 2]);
    let rid = new_report(store, 1, now);
    store.claim_report(rid, 2, now).unwrap();
    store.clear_report(rid, 2, "after".to_string(), now).unwrap();
    rid
}

#[test]
fn test_cannot_verify_without_clearing_enough_reports() {
    let mut store = Store::new(config());
    let rid = cleared_report(&mut store, DAY);
    store.add_user(user(3)).unwrap();
    // Verifier 3 has cleared 4 reports, one short of the threshold of 5.
    for i in 0..4u64 {
        let reporter = 100 + i;
        store.add_user(user(reporter)).unwrap();
        let r = new_report(&mut store, reporter, DAY);
        store.claim_report(r, 3, DAY).unwrap();
        store.clear_report(r, 3, "after".to_string(), DAY).unwrap();
    }
    let err = store.verify_report(rid, 3, verdict(true), DAY + 1).unwrap_err();
    match err {
        AppError::Forbidden(m) => {
            assert!(m.contains("need to clear at least 5 reports"));
        },
        other => panic!("expected Forbidden, got {:?}", other),
    }
}

#[test]
fn test_cannot_verify_own_report() {
    let mut store = Store::new(config());
    let rid = cleared_report(&mut store, DAY);
    enable_verification_for_user(&mut store, 1, 100, DAY);
    let err = store.verify_report(rid, 1, verdict(true), DAY + 1).unwrap_err();
    match err {
        AppError::BadRequest(m) => assert!(m.contains("cannot verify your own report")),
        other => panic!("expected BadRequest, got {:?}", other),
    }
}

#[test]
fn test_cannot_verify_report_you_cleared() {
    let mut store = Store::new(config());
    let rid = cleared_report(&mut store, DAY);
    enable_verification_for_user(&mut store, 2, 100, DAY);
    let err = store.verify_report(rid, 2, verdict(true), DAY + 1).unwrap_err();
    match err {
        AppError::BadRequest(m) => assert!(m.contains("cannot verify a report you cleared")),
        other => panic!("expected BadRequest, got {:?}", other),
    }
}

#[test]
fn test_verify_report_success() {
    let mut store = Store::new(config());
    let rid = cleared_report(&mut store, DAY);
    store.add_user(user(3)).unwrap();
    enable_verification_for_user(&mut store, 3, 100, DAY);
    let record = store
        .verify_report(
            rid,
            3,
            CreateVerificationRequest { is_verified: true, comment: Some("Looks good".to_string()) },
            DAY + 1,
        )
        .unwrap();
    assert_eq!(record.is_verified, true);
    assert_eq!(record.comment.as_deref(), Some("Looks good"));
    assert_eq!(record.report_id, rid);
    assert_eq!(record.verifier_id, 3);
    // One positive verdict is below the quorum of three.
    let report = store.get_report_by_id(rid).unwrap();
    assert!(matches!(report.status, ReportStatus::Cleared));
    // The verifier earned the flat verification bonus.
    let score = store.get_user_score(3, DAY + 1).unwrap();
    assert_eq!(score.reports_cleared, 5);
    assert!(score.total_points > 0);
}

#[test]
fn test_cannot_verify_same_report_twice() {
    let mut store = Store::new(config());
    let rid = cleared_report(&mut store, DAY);
    store.add_user(user(3)).unwrap();
    enable_verification_for_user(&mut store, 3, 100, DAY);
    store.verify_report(rid, 3, verdict(true), DAY + 1).unwrap();
    let err = store.verify_report(rid, 3, verdict(false), DAY + 2).unwrap_err();
    match err {
        AppError::BadRequest(m) => assert!(m.contains("already verified")),
        other => panic!("expected BadRequest, got {:?}", other),
    }
}

#[test]
fn test_report_becomes_verified_after_enough_verifications() {
    let mut store = Store::new(config());
    let rid = cleared_report(&mut store, DAY);
    for (n, verifier) in [3u64, 4, 5].iter().enumerate() {
        store.add_user(user(*verifier)).unwrap();
        enable_verification_for_user(&mut store, *verifier, 100 + (n as u64) * 10, DAY);
    }
    let clearer_before = store.get_user_score(2, DAY).unwrap().total_points;

    store.verify_report(rid, 3, verdict(true), DAY + 1).unwrap();
    store.verify_report(rid, 4, verdict(true), DAY + 2).unwrap();
    assert!(matches!(
        store.get_report_by_id(rid).unwrap().status,
        ReportStatus::Cleared
    ));

    // The third positive verdict completes the quorum.
    store.verify_report(rid, 5, verdict(true), DAY + 3).unwrap();
    assert!(matches!(
        store.get_report_by_id(rid).unwrap().status,
        ReportStatus::Verified
    ));
    let clearer_after = store.get_user_score(2, DAY + 3).unwrap().total_points;
    assert_eq!(clearer_after, clearer_before + 10, "verified-report bonus paid once");

    // A fourth verification arrives after promotion: it fails, and the
    // clearer's bonus is not paid again.
    store.add_user(user(6)).unwrap();
    enable_verification_for_user(&mut store, 6, 200, DAY);
    let err = store.verify_report(rid, 6, verdict(true), DAY + 4).unwrap_err();
    match err {
        AppError::BadRequest(m) => assert!(m.contains("must be cleared")),
        other => panic!("expected BadRequest, got {:?}", other),
    }
    let clearer_final = store.get_user_score(2, DAY + 4).unwrap().total_points;
    assert_eq!(clearer_final, clearer_after);
}

#[test]
fn test_get_report_verifications() {
    let mut store = Store::new(config());
    let rid = cleared_report(&mut store, DAY);
    for (n, verifier) in [3u64, 4].iter().enumerate() {
        store.add_user(user(*verifier)).unwrap();
        enable_verification_for_user(&mut store, *verifier, 100 + (n as u64) * 10, DAY);
    }
    store.verify_report(rid, 3, verdict(true), DAY + 5).unwrap();
    store.verify_report(rid, 4, verdict(false), DAY + 2).unwrap();
    let records = store.get_report_verifications(rid).unwrap();
    assert_eq!(records.len(), 2);
    // Oldest first: the verdict of user 4 was recorded earlier.
    assert_eq!(records[0].verifier_id, 4);
    assert_eq!(records[1].verifier_id, 3);
}

#[test]
fn test_negative_verdicts_do_not_promote() {
    let mut store = Store::new(config());
    let rid = cleared_report(&mut store, DAY);
    for (n, verifier) in [3u64, 4, 5].iter().enumerate() {
        store.add_user(user(*verifier)).unwrap();
        enable_verification_for_user(&mut store, *verifier, 100 + (n as u64) * 10, DAY);
    }
    store.verify_report(rid, 3, verdict(false), DAY + 1).unwrap();
    store.verify_report(rid, 4, verdict(false), DAY + 2).unwrap();
    store.verify_report(rid, 5, verdict(false), DAY + 3).unwrap();
    assert!(matches!(
        store.get_report_by_id(rid).unwrap().status,
        ReportStatus::Cleared
    ));
}

#[test]
fn test_verification_queue_excludes_own_and_already_verified() {
    let mut store = Store::new(config());
    let rid = cleared_report(&mut store, DAY);
    store.add_user(user(3)).unwrap();
    enable_verification_for_user(&mut store, 3, 100, DAY);

    // User 3 sees the report they neither cleared nor verified...
    let queue = store.get_verification_queue(&origin(), 5, 3).unwrap();
    assert!(queue.iter().any(|r| r.id == rid));
    // ...user 2 cleared it, so their queue omits it...
    let queue2 = store.get_verification_queue(&origin(), 5, 2).unwrap();
    assert!(!queue2.iter().any(|r| r.id == rid));
    // ...and once user 3 verified it, it leaves their queue too.
    store.verify_report(rid, 3, verdict(true), DAY + 1).unwrap();
    let queue3 = store.get_verification_queue(&origin(), 5, 3).unwrap();
    assert!(!queue3.iter().any(|r| r.id == rid));
}
