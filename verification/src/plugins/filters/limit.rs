//! The limit filter: at most a number of requests per time window, counted
//! per filter instance.
use vstd::prelude::*;

use crate::error::SgError;
use crate::keyed::{entries_map, find_key, keys_distinct, put_key};
use crate::plugins::filters::SgPluginFilterKind;

verus! {

/// The code the limit filter is configured under.
pub const CODE: &'static str = "limit";

/// The definition of the limit filter: the filter configured under its code.
#[derive(Debug, Clone, Copy)]
pub struct SgFilterLimitDef;

impl SgFilterLimitDef {
    /// The code of the filter.
    pub fn get_code(&self) -> (r: &'static str)
        ensures
            r@ == CODE@,
    {
        CODE
    }
}


/// The limit filter's settings.
#[derive(Debug, Clone, Copy)]
pub struct SgFilterLimit {
    /// The most requests let through per window; no limit when not given.
    pub max_request_number: Option<u64>,
    /// The window in milliseconds; 1000 when not given.
    pub time_window_ms: Option<u64>,
}

/// The state kept for one limited filter: the requests counted since the
/// window started, and when it started.
#[derive(Debug, Clone, Copy, PartialEq, Eq, Structural)]
pub struct LimitState {
    pub count: u64,
    pub last_refresh: u64,
}

/// The state after a request at `now`, and whether it passes: the request
/// is counted (a first request starts the window); over the limit it is
/// refused while the window lasts, and once the window is over the count
/// and the window start over with it.
pub open spec fn limit_step_spec(s: LimitState, max: u64, window: u64, now: u64) -> (LimitState, bool) {
    let count = s.count + 1;
    let last = if count == 1 { now } else { s.last_refresh };
    if count > max {
        if last + window > now {
            (LimitState { count: count as u64, last_refresh: last }, false)
        } else {
            (LimitState { count: 1, last_refresh: now }, true)
        }
    } else {
        (LimitState { count: count as u64, last_refresh: last }, true)
    }
}

impl LimitState {
    /// Counts a request at `now` and says whether it passes (see
    /// [`limit_step_spec`]).
    pub fn step(&mut self, max: u64, window: u64, now: u64) -> (r: bool)
        requires
            old(self).count < u64::MAX,
        ensures
            (*final(self), r) == limit_step_spec(*old(self), max, window, now),
    {
        self.count = self.count + 1;
        if self.count == 1 {
            self.last_refresh = now;
        }
        if self.count > max {
            if (self.last_refresh as u128) + (window as u128) > (now as u128) {
                return false;
            }
            self.count = 1;
            self.last_refresh = now;
        }
        true
    }
}

/// Once a window has let its requests through, every further request in
/// that window is refused, and a refusal does not start a new window.
pub proof fn lemma_limit_refuses_in_window(s: LimitState, max: u64, window: u64, now: u64)
    requires
        s.count >= max,
        s.count >= 1,
        s.count < u64::MAX,
        s.last_refresh + window > now,
    ensures
        !limit_step_spec(s, max, window, now).1,
        limit_step_spec(s, max, window, now).0.last_refresh == s.last_refresh,
        limit_step_spec(s, max, window, now).0.count == s.count + 1,
{
}

/// The state after requests at the given times, one after the other, and
/// whether each passed.
pub open spec fn limit_run(s: LimitState, max: u64, window: u64, times: Seq<u64>) -> (LimitState, Seq<bool>)
    decreases times.len(),
{
    if times.len() == 0 {
        (s, Seq::empty())
    } else {
        let (p, answers) = limit_run(s, max, window, times.drop_last());
        let (q, pass) = limit_step_spec(p, max, window, times.last());
        (q, answers.push(pass))
    }
}

/// Within one window, the first `max` requests of a key not counted yet
/// pass and every later one is refused: for requests at times from the
/// first one's on, all before the window started by the first one ends,
/// the `i`-th passes exactly when `i < max`, and all of them are counted
/// in that window.
pub proof fn lemma_limit_window_run(max: u64, window: u64, times: Seq<u64>)
    requires
        times.len() < u64::MAX,
        forall|i: int| 0 <= i < times.len() ==> times[0] <= #[trigger] times[i] && times[i] < times[0] + window,
    ensures
        times.len() > 0 ==> limit_run(LimitState { count: 0, last_refresh: 0 }, max, window, times).0
            == (LimitState { count: times.len() as u64, last_refresh: times[0] }),
        limit_run(LimitState { count: 0, last_refresh: 0 }, max, window, times).1.len() == times.len(),
        forall|i: int| 0 <= i < times.len() ==> #[trigger] limit_run(LimitState { count: 0, last_refresh: 0 }, max, window, times).1[i] == (i < max),
    decreases times.len(),
{
    if times.len() > 0 {
        let d = times.drop_last();
        assert forall|i: int| 0 <= i < d.len() implies d[0] <= #[trigger] d[i] && d[i] < d[0] + window by {
            assert(d[i] == times[i]);
            assert(d[0] == times[0]);
        }
        lemma_limit_window_run(max, window, d);
        let fresh = LimitState { count: 0, last_refresh: 0 };
        let (p, answers) = limit_run(fresh, max, window, d);
        assert(times.last() == times[times.len() - 1]);
        if d.len() > 0 {
            assert(d[0] == times[0]);
        }
        let run = limit_run(fresh, max, window, times);
        assert forall|i: int| 0 <= i < times.len() implies #[trigger] run.1[i] == (i < max) by {
            if i < d.len() {
                assert(run.1[i] == answers[i]);
            }
        }
    }
}

/// The limit states of the filters, by key.
pub struct LimitStore {
    entries: Vec<(String, LimitState)>,
}

impl LimitStore {
    pub closed spec fn view_map(&self) -> Map<Seq<char>, LimitState> {
        entries_map(self.entries@)
    }

    pub closed spec fn wf(&self) -> bool {
        keys_distinct(self.entries@)
    }

    /// An empty store.
    pub fn new() -> (r: Self)
        ensures
            r.wf(),
            r.view_map() == Map::<Seq<char>, LimitState>::empty(),
    {
        let r = LimitStore { entries: Vec::new() };
        assert(r.view_map() =~= Map::<Seq<char>, LimitState>::empty());
        r
    }

    /// The state under `key`; a key never seen has counted nothing.
    pub open spec fn state_of(&self, key: Seq<char>) -> LimitState {
        if self.view_map().contains_key(key) {
            self.view_map()[key]
        } else {
            LimitState { count: 0, last_refresh: 0 }
        }
    }

    /// Whether the state under `key` can count one more request.
    pub open spec fn can_count(&self, key: Seq<char>) -> bool {
        self.state_of(key).count < u64::MAX
    }

    /// Counts a request under `key` at `now`; returns whether it passes.
    pub fn count(&mut self, key: &str, max: u64, window: u64, now: u64) -> (r: bool)
        requires
            old(self).wf(),
            old(self).can_count(key@),
        ensures
            final(self).wf(),
            ({
                let (s, pass) = limit_step_spec(old(self).state_of(key@), max, window, now);
                &&& r == pass
                &&& final(self).view_map() == old(self).view_map().insert(key@, s)
            }),
    {
        let mut state = match find_key(&self.entries, key) {
            Some(i) => {
                proof {
                    crate::keyed::lemma_index_of_key(self.entries@, i as int);
                }
                self.entries[i].1
            },
            None => LimitState { count: 0, last_refresh: 0 },
        };
        let pass = state.step(max, window, now);
        let _ = put_key(&mut self.entries, key.to_string(), state);
        pass
    }
}

impl SgFilterLimit {
    /// The traffic the filter handles.
    pub fn kind(&self) -> (r: SgPluginFilterKind)
        ensures
            r == SgPluginFilterKind::Http,
    {
        SgPluginFilterKind::Http
    }

    /// Counts the request of filter `id` at `now` (milliseconds) when there
    /// is a limit: a request over the limit is `Forbidden`. Without a limit
    /// every request passes and nothing is counted.
    pub fn req_filter(&self, id: &str, store: &mut LimitStore, now: u64) -> (r: Result<bool, SgError>)
        requires
            old(store).wf(),
            old(store).can_count(id@),
        ensures
            final(store).wf(),
            match self.max_request_number {
                None => r == Ok::<bool, SgError>(true) && final(store).view_map() == old(store).view_map(),
                Some(max) => {
                    let window = match self.time_window_ms {
                        Some(w) => w,
                        None => 1000,
                    };
                    let (s, pass) = limit_step_spec(old(store).state_of(id@), max, window, now);
                    &&& final(store).view_map() == old(store).view_map().insert(id@, s)
                    &&& r == if pass { Ok::<bool, SgError>(true) } else { Err(SgError::Forbidden) }
                },
            },
    {
        match self.max_request_number {
            None => Ok(true),
            Some(max) => {
                let window = match self.time_window_ms {
                    Some(w) => w,
                    None => 1000,
                };
                if store.count(id, max, window, now) {
                    Ok(true)
                } else {
                    Err(SgError::Forbidden)
                }
            },
        }
    }
}

/// A request that comes after the window is over restarts the count with
/// itself, and the new window starts at that request: when the count is
/// over the limit and the window started at least `window` before `now`,
/// the request passes, is the only one counted, and the window starts at
/// `now`. A first request also starts its window at `now`.
pub proof fn lemma_limit_restart_at_request(s: LimitState, max: u64, window: u64, now: u64)
    ensures
        s.count >= 1 && s.count + 1 > max && s.last_refresh + window <= now ==> {
            &&& limit_step_spec(s, max, window, now).1
            &&& limit_step_spec(s, max, window, now).0 == (LimitState { count: 1, last_refresh: now })
        },
        s.count == 0 ==> limit_step_spec(s, max, window, now).0.last_refresh == now,
{
}

/// Within a window that starts with a counted request, at most `max`
/// requests pass: from a state counting `c >= 1` requests in a window that
/// started at `t0`, requests at times from `t0` on, all before the window
/// ends, are counted one by one, the `i`-th passing exactly when
/// `c + i < max`.
pub proof fn lemma_limit_window_from(c: u64, t0: u64, max: u64, window: u64, times: Seq<u64>)
    requires
        c >= 1,
        c + times.len() < u64::MAX,
        forall|i: int| 0 <= i < times.len() ==> t0 <= #[trigger] times[i] && times[i] < t0 + window,
    ensures
        limit_run(LimitState { count: c, last_refresh: t0 }, max, window, times).0
            == (LimitState { count: (c + times.len()) as u64, last_refresh: t0 }),
        limit_run(LimitState { count: c, last_refresh: t0 }, max, window, times).1.len() == times.len(),
        forall|i: int| 0 <= i < times.len() ==> #[trigger] limit_run(LimitState { count: c, last_refresh: t0 }, max, window, times).1[i] == (c + i < max),
    decreases times.len(),
{
    if times.len() > 0 {
        let d = times.drop_last();
        assert forall|i: int| 0 <= i < d.len() implies t0 <= #[trigger] d[i] && d[i] < t0 + window by {
            assert(d[i] == times[i]);
        }
        lemma_limit_window_from(c, t0, max, window, d);
        let s0 = LimitState { count: c, last_refresh: t0 };
        let (p, answers) = limit_run(s0, max, window, d);
        assert(times.last() == times[times.len() - 1]);
        let run = limit_run(s0, max, window, times);
        assert forall|i: int| 0 <= i < times.len() implies #[trigger] run.1[i] == (c + i < max) by {
            if i < d.len() {
                assert(run.1[i] == answers[i]);
            }
        }
    }
}

} // verus!
