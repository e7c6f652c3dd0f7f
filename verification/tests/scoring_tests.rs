use littypicky::config::ScoringConfig;
use littypicky::error::AppError;
use littypicky::feed::FeedQueryParams;
use littypicky::geo::{is_within_radius, Location};
use littypicky::store::Store;
use littypicky::templates;
use littypicky::user::{UserRecord, UserRole};

const DAY: i64 = 86_400;

fn config() -> ScoringConfig {
    ScoringConfig {
        min_clears_to_verify: 5,
        min_verifications_needed: 3,
        base_points_per_clear: 10,
        streak_bonus_points: 5,
        first_in_area_bonus: 20,
        verification_bonus: 2,
        verified_report_bonus: 10,
    }
}

fn user_in(id: u64, city: &str, country: &str) -> UserRecord {
    UserRecord {
        id,
        email_verified: true,
        full_name: format!("User {}", id),
        city: city.to_string(),
        country: country.to_string(),
        role: UserRole::User,
    }
}

fn user(id: u64) -> UserRecord {
    user_in(id, "London", "UK")
}

/// Creates a report by `reporter` at `loc` and has `clearer` claim and
/// clear it at instant `now`.
fn clear_at(store: &mut Store, reporter: u64, clearer: u64, loc: Location, now: i64) {
    let rid = store
        .create_report(reporter, loc, None, "before".to_string(), now)
        .unwrap()
        .id;
    store.claim_report(rid, clearer, now).unwrap();
    store.clear_report(rid, clearer, "after".to_string(), now).unwrap();
}

fn far(n: i64) -> Location {
    Location { x_m: n * 1_000_000, y_m: 0 }
}

#[test]
fn test_first_clear_scores_exact_formula() {
    // base 10 + streak bonus 5 * streak 1 + first-in-area 20 = 35.
    let mut store = Store::new(config());
    store.add_user(user(1)).unwrap();
    store.add_user(user(2)).unwrap();
    clear_at(&mut store, 1, 2, far(1), DAY * 10);
    let score = store.get_user_score(2, DAY * 10).unwrap();
    assert_eq!(score.total_points, 35);
    assert_eq!(score.reports_cleared, 1);
    assert_eq!(score.current_streak, 1);
    assert_eq!(score.longest_streak, 1);
}

#[test]
fn test_not_first_in_area_when_other_user_cleared_nearby() {
    let mut store = Store::new(config());
    for id in [1, 2, 3, 4] {
        store.add_user(user(id)).unwrap();
    }
    let spot = Location { x_m: 500, y_m: 0 };
    let nearby = Location { x_m: 900, y_m: 0 };
    // User 2 clears first at the spot: first in area, 35 points.
    clear_at(&mut store, 1, 2, spot, DAY * 10);
    // User 4 clears 400 m away two hours later: someone else already
    // cleared within 1 km in the last day, so no area bonus: 10 + 5 = 15.
    clear_at(&mut store, 3, 4, nearby, DAY * 10 + 7200);
    assert_eq!(store.get_user_score(4, DAY * 10).unwrap().total_points, 15);
}

#[test]
fn test_area_bonus_returns_after_a_day() {
    let mut store = Store::new(config());
    for id in [1, 2, 3, 4] {
        store.add_user(user(id)).unwrap();
    }
    let spot = Location { x_m: 500, y_m: 0 };
    clear_at(&mut store, 1, 2, spot, DAY * 10);
    // More than 24 hours later the window has passed: full 35 again.
    clear_at(&mut store, 3, 4, spot, DAY * 12);
    assert_eq!(store.get_user_score(4, DAY * 12).unwrap().total_points, 35);
}

#[test]
fn test_streak_consecutive_days() {
    // Clears on day D and day D+1 leave current_streak = 2.
    let mut store = Store::new(config());
    for id in [1, 2, 3] {
        store.add_user(user(id)).unwrap();
    }
    clear_at(&mut store, 1, 3, far(1), DAY * 100);
    clear_at(&mut store, 2, 3, far(2), DAY * 101);
    let score = store.get_user_score(3, DAY * 101).unwrap();
    assert_eq!(score.current_streak, 2);
    assert_eq!(score.longest_streak, 2);
}

#[test]
fn test_streak_resets_after_gap() {
    // Clears on day D and day D+2 reset current_streak to 1.
    let mut store = Store::new(config());
    for id in [1, 2, 3] {
        store.add_user(user(id)).unwrap();
    }
    clear_at(&mut store, 1, 3, far(1), DAY * 100);
    clear_at(&mut store, 2, 3, far(2), DAY * 102);
    let score = store.get_user_score(3, DAY * 102).unwrap();
    assert_eq!(score.current_streak, 1);
    assert_eq!(score.longest_streak, 1);
}

#[test]
fn test_streak_same_day_unchanged() {
    // Two clears on the same day leave current_streak unchanged.
    let mut store = Store::new(config());
    for id in [1, 2, 3] {
        store.add_user(user(id)).unwrap();
    }
    clear_at(&mut store, 1, 3, far(1), DAY * 100);
    clear_at(&mut store, 2, 3, far(2), DAY * 100 + 3600);
    let score = store.get_user_score(3, DAY * 100).unwrap();
    assert_eq!(score.current_streak, 1);
    assert_eq!(score.reports_cleared, 2);
}

#[test]
fn test_calculate_streak_cases() {
    let store = Store::new(config());
    let mut score = littypicky::score::UserScore {
        user_id: 7,
        total_points: 0,
        reports_cleared: 7,
        current_streak: 3,
        longest_streak: 4,
        last_cleared_date: Some(1000),
        created_at: 0,
        updated_at: 0,
    };
    assert_eq!(store.calculate_streak(&score, 1000), (3, false));
    assert_eq!(store.calculate_streak(&score, 1001), (4, true));
    assert_eq!(store.calculate_streak(&score, 1003), (1, false));
    assert_eq!(store.calculate_streak(&score, 999), (1, false));
    score.last_cleared_date = None;
    score.current_streak = 0;
    score.longest_streak = 0;
    score.reports_cleared = 0;
    assert_eq!(store.calculate_streak(&score, 1000), (1, true));
}

#[test]
fn test_can_verify_threshold() {
    let mut store = Store::new(config());
    store.add_user(user(9)).unwrap();
    assert_eq!(store.can_verify_reports(9, DAY).unwrap(), false);
    for i in 0..5u64 {
        store.add_user(user(100 + i)).unwrap();
        clear_at(&mut store, 100 + i, 9, far(i as i64 + 1), DAY * 50);
    }
    assert_eq!(store.can_verify_reports(9, DAY * 50).unwrap(), true);
}

#[test]
fn test_leaderboard_weekly_window_and_dense_ranks() {
    let mut store = Store::new(config());
    for id in [1, 2, 3, 4, 5] {
        store.add_user(user(id)).unwrap();
    }
    let now = DAY * 100;
    // User 3 cleared long ago: outside the trailing week.
    clear_at(&mut store, 1, 3, far(1), now - DAY * 30);
    // Users 4 and 5 clear within the window, one report each, no area
    // overlap: 35 points each.
    clear_at(&mut store, 1, 4, far(2), now - DAY * 2);
    clear_at(&mut store, 2, 5, far(3), now - DAY);
    let board = store
        .get_leaderboard(&None, &None, &Some("weekly".to_string()), now)
        .unwrap();
    assert_eq!(board.len(), 2, "only events in the trailing 7 days count");
    // Equal points: dense rank 1 for both, ordered by user id.
    assert_eq!(board[0].user_id, 4);
    assert_eq!(board[0].total_points, 35);
    assert_eq!(board[0].rank, 1);
    assert_eq!(board[1].user_id, 5);
    assert_eq!(board[1].total_points, 35);
    assert_eq!(board[1].rank, 1);
    assert_eq!(board[0].reports_cleared, 1);
}

#[test]
fn test_leaderboard_all_time_ranks() {
    let mut store = Store::new(config());
    for id in [1, 2, 3, 4] {
        store.add_user(user(id)).unwrap();
    }
    // User 3: two clears on consecutive days, far apart areas:
    // 35 + (10 + 2*5 + 20) = 75. User 4: one clear, 35.
    clear_at(&mut store, 1, 3, far(1), DAY * 10);
    clear_at(&mut store, 2, 3, far(2), DAY * 11);
    clear_at(&mut store, 1, 4, far(3), DAY * 11);
    let board = store.get_leaderboard(&None, &None, &None, DAY * 12).unwrap();
    assert_eq!(board.len(), 2);
    assert_eq!(board[0].user_id, 3);
    assert_eq!(board[0].total_points, 75);
    assert_eq!(board[0].rank, 1);
    assert_eq!(board[1].user_id, 4);
    assert_eq!(board[1].total_points, 35);
    assert_eq!(board[1].rank, 2);
}

#[test]
fn test_leaderboard_city_scope() {
    let mut store = Store::new(config());
    store.add_user(user_in(1, "London", "UK")).unwrap();
    store.add_user(user_in(2, "London", "UK")).unwrap();
    store.add_user(user_in(3, "Paris", "FR")).unwrap();
    store.add_user(user_in(4, "Paris", "FR")).unwrap();
    clear_at(&mut store, 1, 2, far(1), DAY * 10);
    clear_at(&mut store, 3, 4, far(2), DAY * 10);
    let london = store
        .get_leaderboard(&Some("London".to_string()), &None, &None, DAY * 11)
        .unwrap();
    assert_eq!(london.len(), 1);
    assert_eq!(london[0].user_id, 2);
    let fr = store
        .get_leaderboard(&None, &Some("FR".to_string()), &None, DAY * 11)
        .unwrap();
    assert_eq!(fr.len(), 1);
    assert_eq!(fr[0].user_id, 4);
}

#[test]
fn test_leaderboard_invalid_period() {
    let store = Store::new(config());
    let err = store
        .get_leaderboard(&None, &None, &Some("yearly".to_string()), DAY)
        .unwrap_err();
    match err {
        AppError::BadRequest(m) => {
            assert_eq!(m, "Invalid period. Use 'weekly', 'monthly', or 'all_time'");
        },
        other => panic!("expected BadRequest, got {:?}", other),
    }
}

#[test]
fn test_within_radius() {
    let a = Location { x_m: 0, y_m: 0 };
    let b = Location { x_m: 600, y_m: 800 };
    assert!(is_within_radius(&a, &b, 1000));
    assert!(!is_within_radius(&a, &b, 999));
}

#[test]
fn test_render_template_replaces_all_occurrences() {
    let out = templates::render_template(
        "Hi {user_name}, open {link} or {link}.",
        &[("{user_name}", "Ada"), ("{link}", "https://example.test")],
    );
    assert_eq!(out, "Hi Ada, open https://example.test or https://example.test.");
}

#[test]
fn test_render_template_applies_pairs_in_order() {
    let out = templates::render_template("{a}", &[("{a}", "{b}"), ("{b}", "done")]);
    assert_eq!(out, "done");
    let untouched = templates::render_template("plain", &[("{a}", "x")]);
    assert_eq!(untouched, "plain");
}

#[test]
fn test_email_templates_carry_placeholders() {
    assert!(templates::get_email_verification_html().contains("{verification_link}"));
    assert!(templates::get_email_verification_text().contains("{user_name}"));
    assert!(templates::get_password_reset_html().contains("{reset_link}"));
    assert!(templates::get_password_reset_text().contains("{reset_link}"));
    assert!(templates::get_password_reset_confirmation_html().contains("{user_name}"));
    assert!(templates::get_password_reset_confirmation_text().contains("{user_name}"));
}

#[test]
fn test_feed_query_params_clamp() {
    let p = FeedQueryParams { offset: None, limit: None };
    assert_eq!(p.offset(), 0);
    assert_eq!(p.limit(), 20);
    let p = FeedQueryParams { offset: Some(-5), limit: Some(0) };
    assert_eq!(p.offset(), 0);
    assert_eq!(p.limit(), 1);
    let p = FeedQueryParams { offset: Some(7), limit: Some(1000) };
    assert_eq!(p.offset(), 7);
    assert_eq!(p.limit(), 100);
}

#[test]
fn test_leaderboard_monthly_window() {
    let mut store = Store::new(config());
    for id in [1, 2, 3] {
        store.add_user(user(id)).unwrap();
    }
    let now = DAY * 100;
    // Within 30 days but outside 7: monthly sees it, weekly does not.
    clear_at(&mut store, 1, 3, far(1), now - DAY * 20);
    let monthly = store
        .get_leaderboard(&None, &None, &Some("monthly".to_string()), now)
        .unwrap();
    assert_eq!(monthly.len(), 1);
    assert_eq!(monthly[0].user_id, 3);
    let weekly = store
        .get_leaderboard(&None, &None, &Some("weekly".to_string()), now)
        .unwrap();
    assert!(weekly.is_empty());
}

#[test]
fn test_leaderboard_caps_at_twenty_rows() {
    let mut store = Store::new(config());
    // Twenty-five clearers, each with one clear; reporters get fresh ids.
    for i in 0..25u64 {
        let clearer = 1 + i;
        let reporter = 1000 + i;
        store.add_user(user(clearer)).unwrap();
        store.add_user(user(reporter)).unwrap();
        clear_at(&mut store, reporter, clearer, far(i as i64 + 1), DAY * 10);
    }
    let board = store.get_leaderboard(&None, &None, &None, DAY * 11).unwrap();
    assert_eq!(board.len(), 20);
    // Equal totals throughout: dense rank 1, ordered by user id.
    assert!(board.iter().all(|e| e.rank == 1));
    let ids: Vec<u64> = board.iter().map(|e| e.user_id).collect();
    assert_eq!(ids, (1..=20).collect::<Vec<u64>>());
}

#[test]
fn test_nearby_caps_at_one_hundred() {
    let mut store = Store::new(config());
    store.add_user(user(1)).unwrap();
    for i in 0..110i64 {
        store
            .create_report(1, Location { x_m: i, y_m: 0 }, None, "b".to_string(), DAY + i)
            .unwrap();
    }
    let nearby = store.get_nearby_reports(&Location { x_m: 0, y_m: 0 }, 5).unwrap();
    assert_eq!(nearby.len(), 100);
    // Newest first: the oldest ten fell off the end.
    assert_eq!(nearby[0].created_at, DAY + 109);
    assert_eq!(nearby[99].created_at, DAY + 10);
}

#[test]
fn test_day_of_splits_instants_into_days() {
    assert_eq!(littypicky::clock::day_of(0), 0);
    assert_eq!(littypicky::clock::day_of(86_399), 0);
    assert_eq!(littypicky::clock::day_of(86_400), 1);
}
