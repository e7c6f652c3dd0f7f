//! Leaderboards: all-time standings from the materialized aggregates, and
//! weekly / monthly standings from the score-event ledger.
//!
//! A board ranks the qualifying users of its scope by points, descending,
//! with ties broken by user id; ranks are dense and start at one. At most
//! twenty rows come back, and a user outside the cap scores no higher than
//! anything returned.

use vstd::prelude::*;
use crate::clock::ts_ok;
use crate::error::AppError;
use crate::score::{LeaderboardEntry, ScoreEvent, ScoreEventKind};
use crate::select::{cand_lt, top_desc, Cand};
use crate::store::{has_score, score_idx, Store, StoreV};
use crate::user::UserRecord;

verus! {

/// At most this many rows on any leaderboard.
pub const LEADERBOARD_LIMIT: usize = 20;

/// Seconds in the trailing week of a weekly board.
pub const WEEK_SECONDS: i64 = 604_800;

/// Seconds in the trailing thirty days of a monthly board.
pub const MONTH_SECONDS: i64 = 2_592_000;

/// Ledger points of `uid` from events after `cutoff`.
pub open spec fn sum_points(events: Seq<ScoreEvent>, uid: u64, cutoff: i64) -> int
    decreases events.len(),
{
    if events.len() == 0 {
        0
    } else {
        sum_points(events.drop_last(), uid, cutoff) + if events.last().user_id == uid
            && events.last().created_at > cutoff {
            events.last().points as int
        } else {
            0int
        }
    }
}

/// Clear events of `uid` after `cutoff`.
pub open spec fn count_window_clears(events: Seq<ScoreEvent>, uid: u64, cutoff: i64) -> int
    decreases events.len(),
{
    if events.len() == 0 {
        0
    } else {
        count_window_clears(events.drop_last(), uid, cutoff) + if events.last().user_id == uid
            && events.last().created_at > cutoff && events.last().kind == ScoreEventKind::Clear {
            1int
        } else {
            0int
        }
    }
}

/// Whether a user falls in the requested scope: a named city, a named
/// country, or everyone.
pub open spec fn scope_ok(u: UserRecord, city: Option<String>, country: Option<String>) -> bool {
    &&& (city matches Some(c) ==> u.city@ == c@)
    &&& (country matches Some(c) ==> u.country@ == c@)
}

/// The recognised period selectors.
pub open spec fn period_valid(period: Option<String>) -> bool {
    match period {
        None => true,
        Some(s) => s@ == "weekly"@ || s@ == "monthly"@ || s@ == "all_time"@,
    }
}

/// Whether the selector asks for the all-time board.
pub open spec fn period_all_time(period: Option<String>) -> bool {
    match period {
        None => true,
        Some(s) => s@ == "all_time"@,
    }
}

/// The window start of a weekly or monthly board read at `now`.
pub open spec fn period_cutoff(period: Option<String>, now: i64) -> int {
    match period {
        None => 0,
        Some(s) => if s@ == "weekly"@ {
            now - WEEK_SECONDS
        } else {
            now - MONTH_SECONDS
        },
    }
}

/// Rows in board order: points descending, ties by ascending user id.
pub open spec fn lb_sorted(out: Seq<LeaderboardEntry>) -> bool {
    forall|a: int, b: int|
        0 <= a < b < out.len() ==> ((#[trigger] out[a]).total_points > (#[trigger] out[b]).total_points
            || (out[a].total_points == out[b].total_points && out[a].user_id < out[b].user_id))
}

/// Dense one-based ranks: the first row ranks one, equal points share a
/// rank, and a drop in points advances the rank by one.
pub open spec fn ranks_dense(out: Seq<LeaderboardEntry>) -> bool {
    &&& (out.len() > 0 ==> out[0].rank == 1)
    &&& forall|k: int|
        1 <= k < out.len() ==> (#[trigger] out[k]).rank == (if out[k].total_points == out[k
            - 1].total_points {
            out[k - 1].rank as int
        } else {
            out[k - 1].rank + 1
        })
}

/// Whether a user with `points` sorts after the board's last row, which
/// justifies leaving them off a full board.
pub open spec fn outranked_by_last(points: int, uid: u64, out: Seq<LeaderboardEntry>) -> bool {
    points < out.last().total_points || (points == out.last().total_points && uid
        > out.last().user_id)
}

/// One windowed row: it labels `u` and carries `u`'s ledger sums over the
/// window.
pub open spec fn windowed_entry_ok(
    e: LeaderboardEntry,
    u: UserRecord,
    events: Seq<ScoreEvent>,
    cutoff: i64,
) -> bool {
    &&& e.user_id == u.id
    &&& e.full_name@ == u.full_name@
    &&& e.city@ == u.city@
    &&& e.country@ == u.country@
    &&& e.total_points == sum_points(events, u.id, cutoff)
    &&& e.total_points > 0
    &&& e.reports_cleared == count_window_clears(events, u.id, cutoff)
    &&& e.current_streak == 0
}

/// Whether `e` is the windowed row of some in-scope user.
pub open spec fn windowed_entry_of_some(
    e: LeaderboardEntry,
    s: StoreV,
    city: Option<String>,
    country: Option<String>,
    cutoff: i64,
) -> bool {
    exists|i: int|
        0 <= i < s.users.len() && windowed_entry_ok(e, #[trigger] s.users[i], s.events, cutoff)
            && scope_ok(s.users[i], city, country)
}

/// One all-time row: it labels `u` and carries `u`'s materialized aggregate.
pub open spec fn alltime_entry_ok(e: LeaderboardEntry, u: UserRecord, s: StoreV) -> bool {
    &&& e.user_id == u.id
    &&& e.full_name@ == u.full_name@
    &&& e.city@ == u.city@
    &&& e.country@ == u.country@
    &&& has_score(s.scores, u.id)
    &&& e.total_points == s.scores[score_idx(s.scores, u.id)].total_points
    &&& e.reports_cleared == s.scores[score_idx(s.scores, u.id)].reports_cleared
    &&& e.reports_cleared > 0
    &&& e.current_streak == s.scores[score_idx(s.scores, u.id)].current_streak
}

/// Whether `e` is the all-time row of some in-scope user.
pub open spec fn alltime_entry_of_some(
    e: LeaderboardEntry,
    s: StoreV,
    city: Option<String>,
    country: Option<String>,
) -> bool {
    exists|i: int|
        0 <= i < s.users.len() && alltime_entry_ok(e, #[trigger] s.users[i], s)
            && scope_ok(s.users[i], city, country)
}

/// Whether the board holds a row for the user with this id.
pub open spec fn board_has_user(out: Seq<LeaderboardEntry>, uid: u64) -> bool {
    exists|k: int| 0 <= k < out.len() && out[k].user_id == uid
}

/// Whether every in-scope user's window sum still fits the row's column.
pub open spec fn window_sums_fit(
    s: StoreV,
    city: Option<String>,
    country: Option<String>,
    cutoff: i64,
) -> bool {
    forall|i: int|
        0 <= i < s.users.len() && scope_ok(#[trigger] s.users[i], city, country) ==> sum_points(
            s.events,
            s.users[i].id,
            cutoff,
        ) <= i64::MAX
}

/// The weekly / monthly board over events after `cutoff`.
pub open spec fn windowed_board_ok(
    s: StoreV,
    out: Seq<LeaderboardEntry>,
    city: Option<String>,
    country: Option<String>,
    cutoff: i64,
) -> bool {
    &&& out.len() <= LEADERBOARD_LIMIT
    &&& lb_sorted(out)
    &&& ranks_dense(out)
    &&& forall|k: int|
        0 <= k < out.len() ==> windowed_entry_of_some(#[trigger] out[k], s, city, country, cutoff)
    &&& forall|i: int|
        0 <= i < s.users.len() && scope_ok(#[trigger] s.users[i], city, country) && sum_points(
            s.events,
            s.users[i].id,
            cutoff,
        ) > 0 ==> board_has_user(out, s.users[i].id) || (out.len() == LEADERBOARD_LIMIT
            && outranked_by_last(sum_points(s.events, s.users[i].id, cutoff), s.users[i].id, out))
}

/// The all-time board over the materialized aggregates.
pub open spec fn alltime_board_ok(
    s: StoreV,
    out: Seq<LeaderboardEntry>,
    city: Option<String>,
    country: Option<String>,
) -> bool {
    &&& out.len() <= LEADERBOARD_LIMIT
    &&& lb_sorted(out)
    &&& ranks_dense(out)
    &&& forall|k: int|
        0 <= k < out.len() ==> alltime_entry_of_some(#[trigger] out[k], s, city, country)
    &&& forall|i: int|
        0 <= i < s.users.len() && scope_ok(#[trigger] s.users[i], city, country) && has_score(
            s.scores,
            s.users[i].id,
        ) && s.scores[score_idx(s.scores, s.users[i].id)].reports_cleared > 0 ==> board_has_user(
            out,
            s.users[i].id,
        ) || (out.len() == LEADERBOARD_LIMIT && outranked_by_last(
            s.scores[score_idx(s.scores, s.users[i].id)].total_points as int,
            s.users[i].id,
            out,
        ))
}

/// Full effect of `get_leaderboard`: an unrecognised period is rejected; a
/// weekly or monthly request ranks ledger sums over the trailing window (or
/// fails as `Internal` when a sum no longer fits its column); an all-time
/// request ranks the materialized aggregates.
pub open spec fn leaderboard_post(
    s: StoreV,
    city: Option<String>,
    country: Option<String>,
    period: Option<String>,
    now: i64,
    r: Result<Vec<LeaderboardEntry>, AppError>,
) -> bool {
    if !period_valid(period) {
        r matches Err(AppError::BadRequest(m)) && m@
            == "Invalid period. Use 'weekly', 'monthly', or 'all_time'"@
    } else if period_all_time(period) {
        r matches Ok(list) && alltime_board_ok(s, list@, city, country)
    } else {
        let cutoff = period_cutoff(period, now) as i64;
        if window_sums_fit(s, city, country, cutoff) {
            r matches Ok(list) && windowed_board_ok(s, list@, city, country, cutoff)
        } else {
            r matches Err(AppError::Internal(_))
        }
    }
}

impl Store {
    /// Ledger points of `uid` from events after `cutoff`, exactly.
    fn window_points(&self, uid: u64, cutoff: i64) -> (s: i128)
        requires
            self.wf(),
        ensures
            s == sum_points(self@.events, uid, cutoff),
            s >= 0,
    {
        let n = self.events.len();
        let mut s: i128 = 0;
        let mut i: usize = 0;
        while i < n
            invariant
                self.wf(),
                n == self@.events.len(),
                i <= n,
                s == sum_points(self@.events.subrange(0, i as int), uid, cutoff),
                0 <= s <= (i as int) * 0x8000_0000,
            decreases n - i,
        {
            let ev = self.events[i];
            proof {
                let evs = self@.events;
                assert(evs.subrange(0, i + 1 as int).drop_last() =~= evs.subrange(0, i as int));
                assert(evs.subrange(0, i + 1 as int).last() == evs[i as int]);
                assert(evs[i as int].wf());
            }
            if ev.user_id == uid && ev.created_at > cutoff {
                s = s + (ev.points as i128);
            }
            i += 1;
        }
        proof {
            assert(self@.events.subrange(0, n as int) =~= self@.events);
        }
        s
    }

    /// Clear events of `uid` after `cutoff`, exactly.
    fn window_clears(&self, uid: u64, cutoff: i64) -> (c: u64)
        requires
            self.wf(),
        ensures
            c == count_window_clears(self@.events, uid, cutoff),
    {
        let n = self.events.len();
        let mut c: usize = 0;
        let mut i: usize = 0;
        while i < n
            invariant
                n == self@.events.len(),
                i <= n,
                c <= i,
                c == count_window_clears(self@.events.subrange(0, i as int), uid, cutoff),
            decreases n - i,
        {
            let ev = self.events[i];
            proof {
                let evs = self@.events;
                assert(evs.subrange(0, i + 1 as int).drop_last() =~= evs.subrange(0, i as int));
                assert(evs.subrange(0, i + 1 as int).last() == evs[i as int]);
            }
            let is_clear = match ev.kind {
                ScoreEventKind::Clear => true,
                _ => false,
            };
            if ev.user_id == uid && ev.created_at > cutoff && is_clear {
                c = c + 1;
            }
            i += 1;
        }
        proof {
            assert(self@.events.subrange(0, n as int) =~= self@.events);
        }
        c as u64
    }

    /// Whether `u` falls in the requested scope.
    fn in_scope(u: &UserRecord, city: &Option<String>, country: &Option<String>) -> (r: bool)
        ensures
            r == scope_ok(*u, *city, *country),
    {
        let city_ok = match city {
            Some(c) => u.city == *c,
            None => true,
        };
        let country_ok = match country {
            Some(c) => u.country == *c,
            None => true,
        };
        city_ok && country_ok
    }

    /// The leaderboard for a scope and period: `None` scopes mean global,
    /// and the period is `weekly`, `monthly` or `all_time` (the default).
    pub fn get_leaderboard(
        &self,
        city: &Option<String>,
        country: &Option<String>,
        period: &Option<String>,
        now: i64,
    ) -> (r: Result<Vec<LeaderboardEntry>, AppError>)
        requires
            self.wf(),
            ts_ok(now),
        ensures
            leaderboard_post(self@, *city, *country, *period, now, r),
    {
        proof {
            reveal_strlit("weekly");
            reveal_strlit("monthly");
            reveal_strlit("all_time");
            assert("weekly"@.len() == 6);
            assert("monthly"@.len() == 7);
            assert("all_time"@.len() == 8);
        }
        let cutoff_opt: Option<i64> = match period {
            None => None,
            Some(s) => {
                if *s == "weekly".to_owned() {
                    Some(now - WEEK_SECONDS)
                } else if *s == "monthly".to_owned() {
                    Some(now - MONTH_SECONDS)
                } else if *s == "all_time".to_owned() {
                    None
                } else {
                    return Err(
                        AppError::BadRequest(
                            "Invalid period. Use 'weekly', 'monthly', or 'all_time'".to_owned(),
                        ),
                    );
                }
            },
        };
        match cutoff_opt {
            None => self.leaderboard_alltime(city, country),
            Some(cutoff) => self.leaderboard_window(city, country, cutoff),
        }
    }

    /// The weekly / monthly board: ledger sums over the trailing window.
    fn leaderboard_window(&self, city: &Option<String>, country: &Option<String>, cutoff: i64) -> (r:
        Result<Vec<LeaderboardEntry>, AppError>)
        requires
            self.wf(),
        ensures
            window_sums_fit(self@, *city, *country, cutoff) ==> (r matches Ok(list)
                && windowed_board_ok(self@, list@, *city, *country, cutoff)),
            !window_sums_fit(self@, *city, *country, cutoff) ==> r matches Err(
                AppError::Internal(_),
            ),
    {
        let ghost sv = self@;
        let n = self.users.len();
        let mut cands: Vec<Cand> = Vec::new();
        let mut i: usize = 0;
        while i < n
            invariant
                self.wf(),
                sv == self@,
                n == sv.users.len(),
                i <= n,
                forall|j: int|
                    0 <= j < cands@.len() ==> {
                        let c = #[trigger] cands@[j];
                        &&& c.idx < i
                        &&& scope_ok(sv.users[c.idx as int], *city, *country)
                        &&& c.key as int == sum_points(sv.events, sv.users[c.idx as int].id, cutoff)
                        &&& c.key > 0
                        &&& c.id == u64::MAX - sv.users[c.idx as int].id
                    },
                forall|a: int, b: int| 0 <= a < b < cands@.len() ==> cands@[a].idx < cands@[b].idx,
                forall|t: int|
                    0 <= t < i && scope_ok(#[trigger] sv.users[t], *city, *country) ==> sum_points(
                        sv.events,
                        sv.users[t].id,
                        cutoff,
                    ) <= i64::MAX,
                forall|t: int|
                    0 <= t < i && scope_ok(#[trigger] sv.users[t], *city, *country) && sum_points(
                        sv.events,
                        sv.users[t].id,
                        cutoff,
                    ) > 0 ==> exists|j: int| 0 <= j < cands@.len() && cands@[j].idx == t,
            decreases n - i,
        {
            let u = &self.users[i];
            let ghost cands0 = cands@;
            if Self::in_scope(u, city, country) {
                let p = self.window_points(u.id, cutoff);
                if p > (i64::MAX as i128) {
                    return Err(AppError::Internal("leaderboard sum overflow".to_owned()));
                }
                if p > 0 {
                    cands.push(Cand { key: p as i64, id: u64::MAX - u.id, idx: i });
                }
            }
            proof {
                assert forall|t: int|
                    0 <= t < i + 1 && scope_ok(#[trigger] sv.users[t], *city, *country)
                        && sum_points(sv.events, sv.users[t].id, cutoff) > 0 implies exists|j: int|
                    0 <= j < cands@.len() && cands@[j].idx == t by {
                    if t < i {
                        let j = choose|j: int| 0 <= j < cands0.len() && cands0[j].idx == t;
                        assert(cands@[j].idx == t);
                    } else {
                        assert(cands@[cands@.len() - 1].idx == t);
                    }
                }
            }
            i += 1;
        }
        if cands.len() == 0 {
            proof {
                assert forall|t: int|
                    0 <= t < sv.users.len() && scope_ok(#[trigger] sv.users[t], *city, *country)
                        && sum_points(sv.events, sv.users[t].id, cutoff) > 0 implies false by {
                    let j = choose|j: int| 0 <= j < cands@.len() && cands@[j].idx == t;
                }
            }
            return Ok(Vec::new());
        }
        proof {
            assert forall|a: int, b: int|
                0 <= a < b < cands@.len() implies cands@[a].id != cands@[b].id by {
                assert(cands@[a].idx < cands@[b].idx);
                assert(sv.users[cands@[a].idx as int].id != sv.users[cands@[b].idx as int].id);
            }
        }
        let picked = top_desc(&cands, LEADERBOARD_LIMIT);
        let m = picked.len();
        let mut out: Vec<LeaderboardEntry> = Vec::new();
        let mut k: usize = 0;
        while k < m
            invariant
                self.wf(),
                sv == self@,
                m == picked@.len(),
                m <= LEADERBOARD_LIMIT,
                k <= m,
                out@.len() == k,
                forall|q: int| 0 <= q < m ==> cands@.contains(#[trigger] picked@[q]),
                forall|j: int|
                    0 <= j < cands@.len() ==> {
                        let c = #[trigger] cands@[j];
                        &&& c.idx < sv.users.len()
                        &&& scope_ok(sv.users[c.idx as int], *city, *country)
                        &&& c.key as int == sum_points(sv.events, sv.users[c.idx as int].id, cutoff)
                        &&& c.key > 0
                        &&& c.id == u64::MAX - sv.users[c.idx as int].id
                    },
                forall|q: int|
                    0 <= q < k ==> {
                        let e = #[trigger] out@[q];
                        &&& windowed_entry_ok(e, sv.users[picked@[q].idx as int], sv.events, cutoff)
                        &&& scope_ok(sv.users[picked@[q].idx as int], *city, *country)
                        &&& e.total_points == picked@[q].key
                        &&& picked@[q].id == u64::MAX - e.user_id
                        &&& 1 <= e.rank <= q + 1
                    },
                out@.len() > 0 ==> out@[0].rank == 1,
                forall|q: int|
                    1 <= q < k ==> (#[trigger] out@[q]).rank == (if out@[q].total_points == out@[q
                        - 1].total_points {
                        out@[q - 1].rank as int
                    } else {
                        out@[q - 1].rank + 1
                    }),
            decreases m - k,
        {
            let c = picked[k];
            proof {
                assert(cands@.contains(picked@[k as int]));
                let j = choose|j: int| 0 <= j < cands@.len() && cands@[j] == picked@[k as int];
                assert(cands@[j].idx < sv.users.len());
            }
            let u = &self.users[c.idx];
            let clears = self.window_clears(u.id, cutoff);
            let rank: i64 = if k == 0 {
                1
            } else {
                let prev_points = out[k - 1].total_points;
                let prev_rank = out[k - 1].rank;
                if prev_points == c.key {
                    prev_rank
                } else {
                    prev_rank + 1
                }
            };
            out.push(
                LeaderboardEntry {
                    user_id: u.id,
                    full_name: u.full_name.clone(),
                    city: u.city.clone(),
                    country: u.country.clone(),
                    total_points: c.key,
                    reports_cleared: clears,
                    current_streak: 0,
                    rank,
                },
            );
            k += 1;
        }
        proof {
            lemma_window_board(cands@, picked@, out@, sv, *city, *country, cutoff);
        }
        Ok(out)
    }

    /// The all-time board: the materialized aggregates of users with at
    /// least one clear.
    fn leaderboard_alltime(&self, city: &Option<String>, country: &Option<String>) -> (r: Result<
        Vec<LeaderboardEntry>,
        AppError,
    >)
        requires
            self.wf(),
        ensures
            r matches Ok(list) && alltime_board_ok(self@, list@, *city, *country),
    {
        let ghost sv = self@;
        let n = self.users.len();
        let mut cands: Vec<Cand> = Vec::new();
        let mut i: usize = 0;
        while i < n
            invariant
                self.wf(),
                sv == self@,
                n == sv.users.len(),
                i <= n,
                forall|j: int|
                    0 <= j < cands@.len() ==> {
                        let c = #[trigger] cands@[j];
                        &&& c.idx < i
                        &&& scope_ok(sv.users[c.idx as int], *city, *country)
                        &&& has_score(sv.scores, sv.users[c.idx as int].id)
                        &&& c.key as int == sv.scores[score_idx(
                            sv.scores,
                            sv.users[c.idx as int].id,
                        )].total_points
                        &&& sv.scores[score_idx(sv.scores, sv.users[c.idx as int].id)].reports_cleared
                            > 0
                        &&& c.id == u64::MAX - sv.users[c.idx as int].id
                    },
                forall|a: int, b: int| 0 <= a < b < cands@.len() ==> cands@[a].idx < cands@[b].idx,
                forall|t: int|
                    0 <= t < i && scope_ok(#[trigger] sv.users[t], *city, *country) && has_score(
                        sv.scores,
                        sv.users[t].id,
                    ) && sv.scores[score_idx(sv.scores, sv.users[t].id)].reports_cleared > 0
                        ==> exists|j: int| 0 <= j < cands@.len() && cands@[j].idx == t,
            decreases n - i,
        {
            let u = &self.users[i];
            let ghost cands0 = cands@;
            if Self::in_scope(u, city, country) {
                match self.find_score(u.id) {
                    Some(si) => {
                        let sc = self.scores[si];
                        proof {
                            crate::store::lemma_score_idx_is(sv.scores, u.id, si as int);
                        }
                        if sc.reports_cleared > 0 {
                            cands.push(Cand { key: sc.total_points as i64, id: u64::MAX - u.id, idx: i });
                        }
                    },
                    None => {},
                }
            }
            proof {
                assert forall|t: int|
                    0 <= t < i + 1 && scope_ok(#[trigger] sv.users[t], *city, *country)
                        && has_score(sv.scores, sv.users[t].id) && sv.scores[score_idx(
                        sv.scores,
                        sv.users[t].id,
                    )].reports_cleared > 0 implies exists|j: int|
                    0 <= j < cands@.len() && cands@[j].idx == t by {
                    if t < i {
                        let j = choose|j: int| 0 <= j < cands0.len() && cands0[j].idx == t;
                        assert(cands@[j].idx == t);
                    } else {
                        assert(cands@[cands@.len() - 1].idx == t);
                    }
                }
            }
            i += 1;
        }
        if cands.len() == 0 {
            proof {
                assert forall|t: int|
                    0 <= t < sv.users.len() && scope_ok(#[trigger] sv.users[t], *city, *country)
                        && has_score(sv.scores, sv.users[t].id) && sv.scores[score_idx(
                        sv.scores,
                        sv.users[t].id,
                    )].reports_cleared > 0 implies false by {
                    let j = choose|j: int| 0 <= j < cands@.len() && cands@[j].idx == t;
                }
            }
            return Ok(Vec::new());
        }
        proof {
            assert forall|a: int, b: int|
                0 <= a < b < cands@.len() implies cands@[a].id != cands@[b].id by {
                assert(cands@[a].idx < cands@[b].idx);
                assert(sv.users[cands@[a].idx as int].id != sv.users[cands@[b].idx as int].id);
            }
        }
        let picked = top_desc(&cands, LEADERBOARD_LIMIT);
        let m = picked.len();
        let mut out: Vec<LeaderboardEntry> = Vec::new();
        let mut k: usize = 0;
        while k < m
            invariant
                self.wf(),
                sv == self@,
                m == picked@.len(),
                m <= LEADERBOARD_LIMIT,
                k <= m,
                out@.len() == k,
                forall|q: int| 0 <= q < m ==> cands@.contains(#[trigger] picked@[q]),
                forall|j: int|
                    0 <= j < cands@.len() ==> {
                        let c = #[trigger] cands@[j];
                        &&& c.idx < sv.users.len()
                        &&& scope_ok(sv.users[c.idx as int], *city, *country)
                        &&& has_score(sv.scores, sv.users[c.idx as int].id)
                        &&& c.key as int == sv.scores[score_idx(
                            sv.scores,
                            sv.users[c.idx as int].id,
                        )].total_points
                        &&& sv.scores[score_idx(sv.scores, sv.users[c.idx as int].id)].reports_cleared
                            > 0
                        &&& c.id == u64::MAX - sv.users[c.idx as int].id
                    },
                forall|q: int|
                    0 <= q < k ==> {
                        let e = #[trigger] out@[q];
                        &&& alltime_entry_ok(e, sv.users[picked@[q].idx as int], sv)
                        &&& scope_ok(sv.users[picked@[q].idx as int], *city, *country)
                        &&& e.total_points == picked@[q].key
                        &&& picked@[q].id == u64::MAX - e.user_id
                        &&& 1 <= e.rank <= q + 1
                    },
                out@.len() > 0 ==> out@[0].rank == 1,
                forall|q: int|
                    1 <= q < k ==> (#[trigger] out@[q]).rank == (if out@[q].total_points == out@[q
                        - 1].total_points {
                        out@[q - 1].rank as int
                    } else {
                        out@[q - 1].rank + 1
                    }),
            decreases m - k,
        {
            let c = picked[k];
            proof {
                assert(cands@.contains(picked@[k as int]));
                let j = choose|j: int| 0 <= j < cands@.len() && cands@[j] == picked@[k as int];
                assert(cands@[j].idx < sv.users.len());
            }
            let u = &self.users[c.idx];
            let sc = match self.find_score(u.id) {
                Some(si) => {
                    let sc = self.scores[si];
                    proof {
                        crate::store::lemma_score_idx_is(sv.scores, u.id, si as int);
                    }
                    sc
                },
                None => vstd::pervasive::unreached(),
            };
            proof {
                assert(sc.wf());
            }
            let rank: i64 = if k == 0 {
                1
            } else {
                let prev_points = out[k - 1].total_points;
                let prev_rank = out[k - 1].rank;
                if prev_points == c.key {
                    prev_rank
                } else {
                    prev_rank + 1
                }
            };
            out.push(
                LeaderboardEntry {
                    user_id: u.id,
                    full_name: u.full_name.clone(),
                    city: u.city.clone(),
                    country: u.country.clone(),
                    total_points: c.key,
                    reports_cleared: sc.reports_cleared as u64,
                    current_streak: sc.current_streak,
                    rank,
                },
            );
            k += 1;
        }
        proof {
            lemma_alltime_board(cands@, picked@, out@, sv, *city, *country);
        }
        Ok(out)
    }
}

/// From a selection over windowed candidates, the built rows form the
/// windowed board.
proof fn lemma_window_board(
    cands: Seq<Cand>,
    picked: Seq<Cand>,
    out: Seq<LeaderboardEntry>,
    sv: StoreV,
    city: Option<String>,
    country: Option<String>,
    cutoff: i64,
)
    requires
        forall|j: int|
            0 <= j < cands.len() ==> {
                let c = #[trigger] cands[j];
                &&& c.idx < sv.users.len()
                &&& scope_ok(sv.users[c.idx as int], city, country)
                &&& c.key as int == sum_points(sv.events, sv.users[c.idx as int].id, cutoff)
                &&& c.key > 0
                &&& c.id == u64::MAX - sv.users[c.idx as int].id
            },
        forall|q: int| 0 <= q < picked.len() ==> cands.contains(#[trigger] picked[q]),
        forall|a: int, b: int| 0 <= a < b < picked.len() ==> cand_lt(picked[b], picked[a]),
        forall|c: Cand|
            cands.contains(c) ==> picked.contains(c) || (picked.len() == LEADERBOARD_LIMIT
                && cand_lt(c, picked.last())),
        forall|t: int|
            0 <= t < sv.users.len() && scope_ok(#[trigger] sv.users[t], city, country)
                && sum_points(sv.events, sv.users[t].id, cutoff) > 0 ==> exists|j: int|
                0 <= j < cands.len() && cands[j].idx == t,
        out.len() == picked.len(),
        out.len() <= LEADERBOARD_LIMIT,
        forall|q: int|
            0 <= q < out.len() ==> {
                let e = #[trigger] out[q];
                &&& windowed_entry_ok(e, sv.users[picked[q].idx as int], sv.events, cutoff)
                &&& scope_ok(sv.users[picked[q].idx as int], city, country)
                &&& e.total_points == picked[q].key
                &&& picked[q].id == u64::MAX - e.user_id
            },
        out.len() > 0 ==> out[0].rank == 1,
        forall|q: int|
            1 <= q < out.len() ==> (#[trigger] out[q]).rank == (if out[q].total_points == out[q
                - 1].total_points {
                out[q - 1].rank as int
            } else {
                out[q - 1].rank + 1
            }),
    ensures
        windowed_board_ok(sv, out, city, country, cutoff),
{
    assert forall|a: int, b: int|
        0 <= a < b < out.len() implies ((#[trigger] out[a]).total_points > (
    #[trigger] out[b]).total_points || (out[a].total_points == out[b].total_points
        && out[a].user_id < out[b].user_id)) by {
        assert(cand_lt(picked[b], picked[a]));
    }
    assert forall|k: int|
        0 <= k < out.len() implies windowed_entry_of_some(
        #[trigger] out[k],
        sv,
        city,
        country,
        cutoff,
    ) by {
        assert(cands.contains(picked[k]));
        let j = choose|j: int| 0 <= j < cands.len() && cands[j] == picked[k];
        assert((picked[k].idx as int) < sv.users.len());
        assert(windowed_entry_ok(out[k], sv.users[picked[k].idx as int], sv.events, cutoff));
    }
    assert forall|t: int|
        0 <= t < sv.users.len() && scope_ok(#[trigger] sv.users[t], city, country) && sum_points(
            sv.events,
            sv.users[t].id,
            cutoff,
        ) > 0 implies board_has_user(out, sv.users[t].id) || (out.len() == LEADERBOARD_LIMIT
        && outranked_by_last(sum_points(sv.events, sv.users[t].id, cutoff), sv.users[t].id, out)) by {
        let j = choose|j: int| 0 <= j < cands.len() && cands[j].idx == t;
        assert(cands.contains(cands[j]));
        if picked.contains(cands[j]) {
            let q = choose|q: int| 0 <= q < picked.len() && picked[q] == cands[j];
            assert(out[q].user_id == sv.users[t].id);
            assert(board_has_user(out, sv.users[t].id));
        } else {
            assert(picked.len() == LEADERBOARD_LIMIT && cand_lt(cands[j], picked.last()));
            let ql = picked.len() - 1;
            assert(cands.contains(picked[ql]));
            let jl = choose|jj: int| 0 <= jj < cands.len() && cands[jj] == picked[ql];
            assert(out[ql].total_points == picked[ql].key);
            assert(picked[ql].id == u64::MAX - out[ql].user_id);
            assert(outranked_by_last(
                sum_points(sv.events, sv.users[t].id, cutoff),
                sv.users[t].id,
                out,
            ));
        }
    }
}

/// From a selection over aggregate candidates, the built rows form the
/// all-time board.
proof fn lemma_alltime_board(
    cands: Seq<Cand>,
    picked: Seq<Cand>,
    out: Seq<LeaderboardEntry>,
    sv: StoreV,
    city: Option<String>,
    country: Option<String>,
)
    requires
        forall|j: int|
            0 <= j < cands.len() ==> {
                let c = #[trigger] cands[j];
                &&& c.idx < sv.users.len()
                &&& scope_ok(sv.users[c.idx as int], city, country)
                &&& has_score(sv.scores, sv.users[c.idx as int].id)
                &&& c.key as int == sv.scores[score_idx(
                    sv.scores,
                    sv.users[c.idx as int].id,
                )].total_points
                &&& sv.scores[score_idx(sv.scores, sv.users[c.idx as int].id)].reports_cleared > 0
                &&& c.id == u64::MAX - sv.users[c.idx as int].id
            },
        forall|q: int| 0 <= q < picked.len() ==> cands.contains(#[trigger] picked[q]),
        forall|a: int, b: int| 0 <= a < b < picked.len() ==> cand_lt(picked[b], picked[a]),
        forall|c: Cand|
            cands.contains(c) ==> picked.contains(c) || (picked.len() == LEADERBOARD_LIMIT
                && cand_lt(c, picked.last())),
        forall|t: int|
            0 <= t < sv.users.len() && scope_ok(#[trigger] sv.users[t], city, country) && has_score(
                sv.scores,
                sv.users[t].id,
            ) && sv.scores[score_idx(sv.scores, sv.users[t].id)].reports_cleared > 0 ==> exists|
                j: int,
            | 0 <= j < cands.len() && cands[j].idx == t,
        out.len() == picked.len(),
        out.len() <= LEADERBOARD_LIMIT,
        forall|q: int|
            0 <= q < out.len() ==> {
                let e = #[trigger] out[q];
                &&& alltime_entry_ok(e, sv.users[picked[q].idx as int], sv)
                &&& scope_ok(sv.users[picked[q].idx as int], city, country)
                &&& e.total_points == picked[q].key
                &&& picked[q].id == u64::MAX - e.user_id
            },
        out.len() > 0 ==> out[0].rank == 1,
        forall|q: int|
            1 <= q < out.len() ==> (#[trigger] out[q]).rank == (if out[q].total_points == out[q
                - 1].total_points {
                out[q - 1].rank as int
            } else {
                out[q - 1].rank + 1
            }),
    ensures
        alltime_board_ok(sv, out, city, country),
{
    assert forall|a: int, b: int|
        0 <= a < b < out.len() implies ((#[trigger] out[a]).total_points > (
    #[trigger] out[b]).total_points || (out[a].total_points == out[b].total_points
        && out[a].user_id < out[b].user_id)) by {
        assert(cand_lt(picked[b], picked[a]));
    }
    assert forall|k: int|
        0 <= k < out.len() implies alltime_entry_of_some(#[trigger] out[k], sv, city, country) by {
        assert(cands.contains(picked[k]));
        let j = choose|j: int| 0 <= j < cands.len() && cands[j] == picked[k];
        assert((picked[k].idx as int) < sv.users.len());
        assert(alltime_entry_ok(out[k], sv.users[picked[k].idx as int], sv));
    }
    assert forall|t: int|
        0 <= t < sv.users.len() && scope_ok(#[trigger] sv.users[t], city, country) && has_score(
            sv.scores,
            sv.users[t].id,
        ) && sv.scores[score_idx(sv.scores, sv.users[t].id)].reports_cleared > 0 implies
        board_has_user(out, sv.users[t].id) || (out.len() == LEADERBOARD_LIMIT && outranked_by_last(
        sv.scores[score_idx(sv.scores, sv.users[t].id)].total_points as int,
        sv.users[t].id,
        out,
    )) by {
        let j = choose|j: int| 0 <= j < cands.len() && cands[j].idx == t;
        assert(cands.contains(cands[j]));
        if picked.contains(cands[j]) {
            let q = choose|q: int| 0 <= q < picked.len() && picked[q] == cands[j];
            assert(out[q].user_id == sv.users[t].id);
            assert(board_has_user(out, sv.users[t].id));
        } else {
            assert(picked.len() == LEADERBOARD_LIMIT && cand_lt(cands[j], picked.last()));
            let ql = picked.len() - 1;
            assert(cands.contains(picked[ql]));
            let jl = choose|jj: int| 0 <= jj < cands.len() && cands[jj] == picked[ql];
            assert(out[ql].total_points == picked[ql].key);
            assert(picked[ql].id == u64::MAX - out[ql].user_id);
            assert(outranked_by_last(
                sv.scores[score_idx(sv.scores, sv.users[t].id)].total_points as int,
                sv.users[t].id,
                out,
            ));
        }
    }
}

} // verus!
