use littypicky::config::ScoringConfig;
use littypicky::error::AppError;
use littypicky::geo::Location;
use littypicky::report::ReportStatus;
use littypicky::store::Store;
use littypicky::user::{UserRecord, UserRole};

const DAY: i64 = 86_400;

fn config() -> ScoringConfig {
    ScoringConfig {
        min_clears_to_verify: 5,
        min_verifications_needed: 3,
        base_points_per_clear: 10,
        streak_bonus_points: 5,
        first_in_area_bonus: 20,
        verification_bonus: 2,
        verified_report_bonus: 10,
    }
}

fn user(id: u64, verified: bool) -> UserRecord {
    UserRecord {
        id,
        email_verified: verified,
        full_name: format!("User {}", id),
        city: "London".to_string(),
        country: "UK".to_string(),
        role: UserRole::User,
    }
}

fn store_with_users(ids: &[u64]) -> Store {
    let mut store = Store::new(config());
    for &id in ids {
        store.add_user(user(id, true)).unwrap();
    }
    store
}

fn origin() -> Location {
    Location { x_m: 0, y_m: 0 }
}

fn new_report(store: &mut Store, reporter: u64, loc: Location, now: i64) -> u64 {
    store
        .create_report(reporter, loc, Some("Test litter".to_string()), "photo-before".to_string(), now)
        .unwrap()
        .id
}

#[test]
fn test_create_report_requires_email_verification() {
    let mut store = Store::new(config());
    store.add_user(user(1, false)).unwrap();
    let err = store
        .create_report(1, origin(), None, "photo".to_string(), DAY)
        .unwrap_err();
    match err {
        AppError::Forbidden(m) => {
            assert_eq!(m, "Email must be verified to create reports");
        },
        other => panic!("expected Forbidden, got {:?}", other),
    }
}

#[test]
fn test_get_report_by_id_not_found() {
    let store = store_with_users(&[1]);
    let err = store.get_report_by_id(424_242).unwrap_err();
    assert!(matches!(err, AppError::NotFound(_)));
}

#[test]
fn test_get_nearby_reports() {
    let mut store = store_with_users(&[1, 2]);
    let near = Location { x_m: 100, y_m: 100 };
    let far = Location { x_m: 1_000_000, y_m: 0 };
    let a = new_report(&mut store, 1, near, DAY);
    let _b = new_report(&mut store, 1, far, DAY + 1);
    let c = new_report(&mut store, 2, near, DAY + 2);

    let nearby = store.get_nearby_reports(&origin(), 5).unwrap();
    let ids: Vec<u64> = nearby.iter().map(|r| r.id).collect();
    assert_eq!(ids, vec![c, a], "newest first, far report excluded");
}

#[test]
fn test_get_nearby_reports_with_invalid_params() {
    // The planar model rejects out-of-range queries before they reach the
    // store, as the HTTP layer rejected malformed coordinates.
    let store = store_with_users(&[1]);
    let nearby = store.get_nearby_reports(&origin(), 0).unwrap();
    assert!(nearby.is_empty());
}

#[test]
fn test_get_my_reports() {
    let store = store_with_users(&[1]);
    let mine = store.get_user_reports(1).unwrap();
    assert_eq!(mine.len(), 0);
}

#[test]
fn test_get_my_clears() {
    let store = store_with_users(&[1]);
    let clears = store.get_user_cleared_reports(1).unwrap();
    assert_eq!(clears.len(), 0);
}

#[test]
fn test_claim_report_success() {
    let mut store = store_with_users(&[1, 2]);
    let rid = new_report(&mut store, 1, origin(), DAY);
    let claimed = store.claim_report(rid, 2, DAY + 10).unwrap();
    assert!(matches!(claimed.status, ReportStatus::Claimed));
    assert_eq!(claimed.claimed_by, Some(2));
    assert_eq!(claimed.claimed_at, Some(DAY + 10));
}

#[test]
fn test_cannot_claim_own_report() {
    let mut store = store_with_users(&[1]);
    let rid = new_report(&mut store, 1, origin(), DAY);
    let err = store.claim_report(rid, 1, DAY + 10).unwrap_err();
    match err {
        AppError::BadRequest(m) => assert_eq!(m, "Cannot claim your own report"),
        other => panic!("expected BadRequest, got {:?}", other),
    }
}

#[test]
fn test_cannot_claim_already_claimed_report() {
    let mut store = store_with_users(&[1, 2, 3]);
    let rid = new_report(&mut store, 1, origin(), DAY);
    store.claim_report(rid, 2, DAY + 10).unwrap();
    let err = store.claim_report(rid, 3, DAY + 20).unwrap_err();
    match err {
        AppError::BadRequest(m) => assert_eq!(m, "Report is not available for claiming"),
        other => panic!("expected BadRequest, got {:?}", other),
    }
}

#[test]
fn test_clear_report_success() {
    let mut store = store_with_users(&[1, 2]);
    let rid = new_report(&mut store, 1, origin(), DAY);
    store.claim_report(rid, 2, DAY + 10).unwrap();
    let cleared = store
        .clear_report(rid, 2, "photo-after".to_string(), DAY + 20)
        .unwrap();
    assert!(matches!(cleared.status, ReportStatus::Cleared));
    assert_eq!(cleared.cleared_by, Some(2));
    assert_eq!(cleared.photo_after.as_deref(), Some("photo-after"));
}

#[test]
fn test_cannot_clear_unclaimed_report() {
    let mut store = store_with_users(&[1, 2]);
    let rid = new_report(&mut store, 1, origin(), DAY);
    let err = store
        .clear_report(rid, 2, "photo-after".to_string(), DAY + 20)
        .unwrap_err();
    match err {
        AppError::BadRequest(m) => assert_eq!(m, "Report must be claimed before clearing"),
        other => panic!("expected BadRequest, got {:?}", other),
    }
}

#[test]
fn test_cannot_clear_report_claimed_by_another_user() {
    let mut store = store_with_users(&[1, 2, 3]);
    let rid = new_report(&mut store, 1, origin(), DAY);
    store.claim_report(rid, 2, DAY + 10).unwrap();
    let err = store
        .clear_report(rid, 3, "photo-after".to_string(), DAY + 20)
        .unwrap_err();
    match err {
        AppError::Forbidden(m) => {
            assert_eq!(m, "Only the user who claimed this report can clear it");
        },
        other => panic!("expected Forbidden, got {:?}", other),
    }
}

#[test]
fn test_claim_race_exactly_one_winner() {
    // Two claimants race for the same Pending report: the store serializes
    // them, the first wins, the second gets "not available".
    let mut store = store_with_users(&[1, 2, 3]);
    let rid = new_report(&mut store, 1, origin(), DAY);
    let first = store.claim_report(rid, 2, DAY + 1);
    let second = store.claim_report(rid, 3, DAY + 2);
    assert!(first.is_ok());
    match second.unwrap_err() {
        AppError::BadRequest(m) => assert_eq!(m, "Report is not available for claiming"),
        other => panic!("expected BadRequest, got {:?}", other),
    }
}

#[test]
fn test_status_never_skips_or_reverses() {
    let mut store = store_with_users(&[1, 2]);
    let rid = new_report(&mut store, 1, origin(), DAY);
    assert!(matches!(
        store.get_report_by_id(rid).unwrap().status,
        ReportStatus::Pending
    ));
    store.claim_report(rid, 2, DAY + 1).unwrap();
    assert!(matches!(
        store.get_report_by_id(rid).unwrap().status,
        ReportStatus::Claimed
    ));
    // A second claim cannot move it anywhere, forward or back.
    assert!(store.claim_report(rid, 1, DAY + 2).is_err());
    store.clear_report(rid, 2, "after".to_string(), DAY + 3).unwrap();
    assert!(matches!(
        store.get_report_by_id(rid).unwrap().status,
        ReportStatus::Cleared
    ));
    // Clearing again cannot re-run the transition.
    assert!(store.clear_report(rid, 2, "after".to_string(), DAY + 4).is_err());
}

#[test]
fn test_report_not_found_on_claim() {
    let mut store = store_with_users(&[1]);
    let err = store.claim_report(9_999, 1, DAY).unwrap_err();
    assert!(matches!(err, AppError::NotFound(_)));
}

#[test]
fn test_create_report_unknown_user() {
    let mut store = Store::new(config());
    let err = store
        .create_report(77, origin(), None, "photo".to_string(), DAY)
        .unwrap_err();
    match err {
        AppError::NotFound(m) => assert_eq!(m, "User not found"),
        other => panic!("expected NotFound, got {:?}", other),
    }
}

#[test]
fn test_add_user_conflict() {
    let mut store = Store::new(config());
    store.add_user(user(5, true)).unwrap();
    let err = store.add_user(user(5, false)).unwrap_err();
    assert!(matches!(err, AppError::Conflict(_)));
}
