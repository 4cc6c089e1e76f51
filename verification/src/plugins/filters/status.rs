//! The status filter: it counts the errors of the backends in a sliding
//! window and keeps a health status per backend.
use vstd::prelude::*;

use crate::config::http_route_dto::{SgBackendRef, SgHttpRouteRule};
use crate::plugins::filters::{SgAttachedLevel, SgPluginFilterAccept, SgPluginFilterInitDto, SgPluginFilterKind};
use self::sliding_window::{add_overruns, counted_ring, lemma_first_slot_counts, time_limit, total_count, count_from, fresh_ring, lemma_total_fresh, now_ms, ring_after_add, start_after_add, SlidingWindowCounter};
use self::status_plugin::{Status, StatusTable};

pub mod sliding_window;
pub mod status_plugin;

verus! {

/// The number of slots of the error-counting window.
pub const WINDOW_SLOTS: usize = 60;

/// The status filter's settings and its error counter.
pub struct SgFilterStatus {
    pub serv_addr: String,
    pub port: u16,
    pub title: String,
    /// A backend with at least this many errors in the window is marked
    /// with a major status.
    pub unhealthy_threshold: u16,
    /// The length of the error-counting window, in seconds.
    pub interval: u64,
    /// The errors counted in the window.
    pub counter: SlidingWindowCounter,
}

impl Default for SgFilterStatus {
    fn default() -> (r: Self)
        ensures
            r.serv_addr@ == seq!['0', '.', '0', '.', '0', '.', '0'],
            r.port == 8110,
            r.title@ == seq!['S', 'y', 's', 't', 'e', 'm', ' ', 'S', 't', 'a', 't', 'u', 's'],
            r.unhealthy_threshold == 3,
            r.interval == 5,
            r.counter_wf(),
            r.counter_window() == 3000,
    {
        proof {
            reveal_strlit("0.0.0.0");
            reveal_strlit("System Status");
        }
        SgFilterStatus {
            serv_addr: "0.0.0.0".to_string(),
            port: 8110,
            title: "System Status".to_string(),
            unhealthy_threshold: 3,
            interval: 5,
            counter: SlidingWindowCounter::new(3000, WINDOW_SLOTS),
        }
    }
}

/// What the status filter does with a response, given the chosen backend,
/// whether the response is an error and, for an error, the number of errors
/// already in the window: an error marks the backend major once the count
/// reaches the threshold and minor before; a good response resets a known
/// backend that is not good to good; without a backend nothing changes.
pub open spec fn status_after(
    table: Map<Seq<char>, Status>,
    backend: Option<Seq<char>>,
    is_error: bool,
    count: int,
    threshold: int,
) -> Map<Seq<char>, Status> {
    match backend {
        None => table,
        Some(b) => if is_error {
            table.insert(b, if count >= threshold { Status::Major } else { Status::Minor })
        } else if table.contains_key(b) && table[b] != Status::Good {
            table.insert(b, Status::Good)
        } else {
            table
        },
    }
}

/// The names of the backends of the rules, rule after rule, in order.
pub open spec fn backend_names_of(rules: Seq<SgHttpRouteRule>) -> Seq<Seq<char>>
    decreases rules.len(),
{
    if rules.len() == 0 {
        Seq::empty()
    } else {
        backend_names_of(rules.drop_last()) + match rules.last().backends {
            Some(bs) => bs@.map_values(|b: SgBackendRef| b.name_or_host@),
            None => Seq::empty(),
        }
    }
}

/// The names of the backends of the rules (see [`backend_names_of`]).
pub fn backend_names(rules: &Vec<SgHttpRouteRule>) -> (r: Vec<String>)
    ensures
        r@.map_values(|s: String| s@) == backend_names_of(rules@),
{
    let mut out: Vec<String> = Vec::new();
    let mut i: usize = 0;
    while i < rules.len()
        invariant
            i <= rules@.len(),
            out@.map_values(|s: String| s@) == backend_names_of(rules@.take(i as int)),
        decreases rules.len() - i,
    {
        proof {
            assert(rules@.take(i + 1).drop_last() =~= rules@.take(i as int));
            assert(rules@.take(i + 1).last() == rules@[i as int]);
        }
        let ghost before = out@.map_values(|s: String| s@);
        match &rules[i].backends {
            Some(bs) => {
                let mut j: usize = 0;
                while j < bs.len()
                    invariant
                        j <= bs@.len(),
                        rules@[i as int].backends == Some(*bs),
                        out@.map_values(|s: String| s@) == before + bs@.take(j as int).map_values(|b: SgBackendRef| b.name_or_host@),
                    decreases bs.len() - j,
                {
                    let name = bs[j].name_or_host.clone();
                    let ghost prev = out@;
                    out.push(name);
                    proof {
                        assert(out@.map_values(|s: String| s@) =~= prev.map_values(|s: String| s@).push(bs@[j as int].name_or_host@));
                        assert(bs@.take(j + 1).map_values(|b: SgBackendRef| b.name_or_host@)
                            =~= bs@.take(j as int).map_values(|b: SgBackendRef| b.name_or_host@).push(bs@[j as int].name_or_host@));
                        assert(out@.map_values(|s: String| s@) =~= before + bs@.take(j + 1).map_values(|b: SgBackendRef| b.name_or_host@));
                    }
                    j = j + 1;
                }
                assert(bs@.take(bs@.len() as int) =~= bs@);
            },
            None => {
                assert(before + Seq::<Seq<char>>::empty() =~= before);
            },
        }
        i = i + 1;
    }
    assert(rules@.take(rules@.len() as int) =~= rules@);
    out
}

impl SgFilterStatus {
    pub open spec fn counter_wf(&self) -> bool {
        self.counter.wf()
    }

    pub open spec fn counter_window(&self) -> int {
        self.counter.window()
    }

    /// Whether an error at `now` can be counted: `now` is not before the
    /// window's start, and counting it moves the window by no more slots
    /// than it has and keeps the total within a `u64`.
    pub open spec fn can_count_at(&self, now: i64) -> bool {
        &&& self.counter.ring()[0].time <= now <= time_limit()
        &&& !add_overruns(self.counter.ring(), self.counter.window(), self.counter.slot_interval(), now as int)
        &&& total_count(self.counter.ring()) < u64::MAX
    }

    /// The filter runs on HTTP requests, error responses included.
    pub fn accept(&self) -> (r: SgPluginFilterAccept)
        ensures
            r.kind@ == seq![SgPluginFilterKind::Http],
            r.accept_error_response,
    {
        let mut kind: Vec<SgPluginFilterKind> = Vec::new();
        kind.push(SgPluginFilterKind::Http);
        SgPluginFilterAccept { kind, accept_error_response: true }
    }

    /// Whether an error at `now` can be counted (see [`Self::can_count_at`]).
    pub fn can_count(&self, now: i64) -> (r: bool)
        requires
            self.counter_wf(),
        ensures
            r == self.can_count_at(now),
    {
        if now > 0x1000_0000_0000_0000i64 {
            return false;
        }
        let start = self.counter.start_time();
        if now < start {
            return false;
        }
        if self.counter.total() == u64::MAX {
            return false;
        }
        !self.counter.overruns(now)
    }

    /// Sets the filter up on a gateway: the table is cleared, every backend
    /// of the gateway's rules starts good, and the error window starts over
    /// at `now` with `interval` seconds. On any other level the filter does
    /// nothing. The window is at least a second and at most `time_limit()`
    /// milliseconds: a longer one would put its slots past the latest time
    /// `chrono` represents.
    pub fn init_at(&mut self, table: &mut StatusTable, attached_level: SgAttachedLevel, backend_names: &Vec<String>, now: i64)
        requires
            old(table).wf(),
            old(self).counter_wf(),
            1 <= old(self).interval,
            old(self).interval * 1000 <= time_limit(),
            -time_limit() <= now <= time_limit(),
        ensures
            final(table).wf(),
            final(self).counter_wf(),
            final(self).interval == old(self).interval,
            final(self).unhealthy_threshold == old(self).unhealthy_threshold,
            attached_level != SgAttachedLevel::Gateway ==> *final(table) == *old(table) && final(self).counter == old(self).counter,
            attached_level == SgAttachedLevel::Gateway ==> {
                &&& final(self).counter_window() == old(self).interval * 1000
                &&& final(self).counter.slot_interval() == (old(self).interval * 1000) / (WINDOW_SLOTS as int)
                &&& final(self).counter.ring() == fresh_ring(now as int, (old(self).interval * 1000) / (WINDOW_SLOTS as int), WINDOW_SLOTS as nat)
                &&& total_count(final(self).counter.ring()) == 0
                &&& forall|k: Seq<char>| #[trigger] final(table).view_map().contains_key(k)
                    <==> exists|i: int| 0 <= i < backend_names@.len() && #[trigger] backend_names@[i]@ == k
                &&& forall|k: Seq<char>| #[trigger] final(table).view_map().contains_key(k) ==> final(table).view_map()[k] == Status::Good
            },
    {
        if attached_level != SgAttachedLevel::Gateway {
            return;
        }
        table.clean_status();
        let mut i: usize = 0;
        while i < backend_names.len()
            invariant
                table.wf(),
                i <= backend_names@.len(),
                forall|k: Seq<char>| #[trigger] table.view_map().contains_key(k)
                    <==> exists|j: int| 0 <= j < i && #[trigger] backend_names@[j]@ == k,
                forall|k: Seq<char>| #[trigger] table.view_map().contains_key(k) ==> table.view_map()[k] == Status::Good,
            decreases backend_names.len() - i,
        {
            table.update_status(backend_names[i].as_str(), Status::Good);
            proof {
                assert forall|k: Seq<char>| #[trigger] table.view_map().contains_key(k)
                    <==> exists|j: int| 0 <= j < i + 1 && #[trigger] backend_names@[j]@ == k by {
                    if k == backend_names@[i as int]@ {
                        assert(backend_names@[i as int]@ == k);
                    }
                }
            }
            i = i + 1;
        }
        let window_ms: i64 = (self.interval as i64) * 1000;
        self.counter = SlidingWindowCounter::new_at(window_ms, WINDOW_SLOTS, now);
        proof {
            lemma_total_fresh(now as int, (window_ms as int) / (WINDOW_SLOTS as int), WINDOW_SLOTS as nat);
        }
    }

    /// Sets the filter up as [`Self::init_at`] does, for the level the
    /// filter is attached at and the backends of the rules it covers, with
    /// the error window starting now.
    pub fn init(&mut self, table: &mut StatusTable, init_dto: &SgPluginFilterInitDto)
        requires
            old(table).wf(),
            old(self).counter_wf(),
            1 <= old(self).interval,
            old(self).interval * 1000 <= time_limit(),
        ensures
            final(table).wf(),
            final(self).counter_wf(),
            final(self).interval == old(self).interval,
            final(self).unhealthy_threshold == old(self).unhealthy_threshold,
            init_dto.attached_level != SgAttachedLevel::Gateway ==> *final(table) == *old(table) && final(self).counter == old(self).counter,
            init_dto.attached_level == SgAttachedLevel::Gateway ==> {
                &&& final(self).counter_window() == old(self).interval * 1000
                &&& final(self).counter.slot_interval() == (old(self).interval * 1000) / (WINDOW_SLOTS as int)
                &&& exists|now: i64| final(self).counter.ring() == #[trigger] fresh_ring(now as int, (old(self).interval * 1000) / (WINDOW_SLOTS as int), WINDOW_SLOTS as nat)
                &&& total_count(final(self).counter.ring()) == 0
                &&& forall|k: Seq<char>| #[trigger] final(table).view_map().contains_key(k)
                    <==> backend_names_of(init_dto.http_route_rules@).contains(k)
                &&& forall|k: Seq<char>| #[trigger] final(table).view_map().contains_key(k) ==> final(table).view_map()[k] == Status::Good
            },
    {
        let names = backend_names(&init_dto.http_route_rules);
        let now = now_ms();
        self.init_at(table, init_dto.attached_level, &names, now);
        proof {
            let spec_names = backend_names_of(init_dto.http_route_rules@);
            assert(names@.map_values(|s: String| s@) == spec_names);
            if init_dto.attached_level == SgAttachedLevel::Gateway {
                assert forall|k: Seq<char>| #[trigger] table.view_map().contains_key(k) <==> spec_names.contains(k) by {
                    if table.view_map().contains_key(k) {
                        let i = choose|i: int| 0 <= i < names@.len() && #[trigger] names@[i]@ == k;
                        assert(spec_names[i] == names@[i]@);
                    }
                    if spec_names.contains(k) {
                        let i = choose|i: int| 0 <= i < spec_names.len() && spec_names[i] == k;
                        assert(names@[i]@ == spec_names[i]);
                    }
                }
            }
        }
    }

    /// Updates the backend's status after a response (see
    /// [`status_after`]); an error is first counted in the window at `now`.
    /// Returns the number of errors that were in the window before.
    pub fn resp_filter_at(&mut self, table: &mut StatusTable, backend_name: Option<&str>, is_resp_error: bool, now: i64) -> (r: Option<u64>)
        requires
            old(table).wf(),
            old(self).counter_wf(),
            backend_name is Some && is_resp_error ==> old(self).can_count_at(now),
        ensures
            final(table).wf(),
            final(self).counter_wf(),
            final(self).unhealthy_threshold == old(self).unhealthy_threshold,
            final(self).interval == old(self).interval,
            match backend_name {
                Some(_) if is_resp_error => {
                    &&& final(self).counter.ring() == ring_after_add(old(self).counter.ring(), old(self).counter.window(), old(self).counter.slot_interval(), now as int)
                    &&& final(self).counter.start() == start_after_add(old(self).counter.start(), old(self).counter.num_slots(), old(self).counter.ring()[0].time as int, old(self).counter.window(), old(self).counter.slot_interval(), now as int)
                    &&& final(self).counter.window() == old(self).counter.window()
                    &&& final(self).counter.slot_interval() == old(self).counter.slot_interval()
                },
                _ => final(self).counter == old(self).counter,
            },
            match backend_name {
                Some(b) if is_resp_error => r matches Some(c)
                    && c == count_from(old(self).counter.ring(), now - old(self).counter.window())
                    && final(table).view_map() == status_after(old(table).view_map(), Some(b@), true, c as int, old(self).unhealthy_threshold as int),
                _ => r is None && final(table).view_map() == status_after(old(table).view_map(), match backend_name {
                    Some(b) => Some(b@),
                    None => None,
                }, false, 0, old(self).unhealthy_threshold as int),
            },
    {
        match backend_name {
            None => None,
            Some(b) => {
                if is_resp_error {
                    let count = self.counter.add_and_count(now);
                    if count >= self.unhealthy_threshold as u64 {
                        table.update_status(b, Status::Major);
                    } else {
                        table.update_status(b, Status::Minor);
                    }
                    Some(count)
                } else {
                    match table.get_status(b) {
                        Some(status) => {
                            if status != Status::Good {
                                table.update_status(b, Status::Good);
                            }
                        },
                        None => {},
                    }
                    None
                }
            },
        }
    }
}

/// The status filter marks a backend minor at its first errors and major
/// once the threshold is reached: a window just started at `t0` (as
/// [`SgFilterStatus::init_at`] leaves it) has counted nothing, and with `k`
/// errors counted in its first slot, the next error there reads `k` errors,
/// leaves `k + 1` counted, and marks the backend major exactly when `k`
/// reaches the threshold (see [`SgFilterStatus::resp_filter_at`]).
pub proof fn lemma_status_after_errors(t0: int, window: int, interval: int, k: u64, now: int, threshold: u16, table: Map<Seq<char>, Status>, b: Seq<char>)
    requires
        0 < interval <= window,
        -time_limit() <= t0 <= time_limit(),
        t0 <= now < t0 + interval,
        k < u64::MAX,
    ensures
        fresh_ring(t0, interval, WINDOW_SLOTS as nat) == counted_ring(t0, interval, WINDOW_SLOTS as nat, 0),
        count_from(counted_ring(t0, interval, WINDOW_SLOTS as nat, k), now - window) == k,
        ring_after_add(counted_ring(t0, interval, WINDOW_SLOTS as nat, k), window, interval, now)
            == counted_ring(t0, interval, WINDOW_SLOTS as nat, (k + 1) as u64),
        status_after(table, Some(b), true, k as int, threshold as int)[b] == (if k >= threshold { Status::Major } else { Status::Minor }),
{
    let f = fresh_ring(t0, interval, WINDOW_SLOTS as nat);
    assert(f[0].time == t0);
    assert(f =~= counted_ring(t0, interval, WINDOW_SLOTS as nat, 0));
    lemma_first_slot_counts(t0, window, interval, WINDOW_SLOTS as nat, k, now);
}

} // verus!
