//! A sliding-window counter: a ring of time slots, each counting the events
//! that fell into it. Times are milliseconds since the Unix epoch.
use vstd::prelude::*;

use crate::error::SgError;

verus! {

/// A bound on the times and window sizes the counter works with; every
/// instant `chrono` can represent lies well within it.
pub open spec fn time_limit() -> int {
    0x1000_0000_0000_0000
}

/// One slot: the time it starts at and the events counted in it.
#[derive(Debug, Clone, Copy, PartialEq, Eq, Structural)]
pub struct Slot {
    pub time: i64,
    pub count: u64,
}

impl Slot {
    /// An empty slot starting at `start_time`.
    pub fn new(start_time: i64) -> (r: Slot)
        ensures
            r.time == start_time,
            r.count == 0,
    {
        Slot { time: start_time, count: 0 }
    }
}

/// The sum of the counts of the slots.
pub open spec fn total_count(s: Seq<Slot>) -> int
    decreases s.len(),
{
    if s.len() == 0 {
        0
    } else {
        total_count(s.drop_last()) + s.last().count
    }
}

/// The sum of the counts of the slots that start at or after `from`.
pub open spec fn count_from(s: Seq<Slot>, from: int) -> int
    decreases s.len(),
{
    if s.len() == 0 {
        0
    } else {
        count_from(s.drop_last(), from) + if from <= s.last().time {
            s.last().count as int
        } else {
            0
        }
    }
}

/// Fresh slots: `n` empty slots starting at `t0`, one `interval` apart.
pub open spec fn fresh_ring(t0: int, interval: int, n: nat) -> Seq<Slot> {
    Seq::new(n, |k: int| Slot { time: (t0 + k * interval) as i64, count: 0 })
}

/// The ring after moving its start `m` slots on: the first `m` slots are
/// dropped and `m` empty slots follow the last one.
pub open spec fn shift_ring(ring: Seq<Slot>, m: int, interval: int) -> Seq<Slot> {
    Seq::new(ring.len(), |k: int|
        if k + m < ring.len() {
            ring[k + m]
        } else {
            Slot { time: (ring[0].time + (k + m) * interval) as i64, count: 0 }
        }
    )
}

/// The ring after an event at `now`: the window first catches up with `now`
/// (it starts over at `now` once `now` is two windows past its start, and
/// otherwise moves on by whole slots until `now` is less than a window past
/// its start); then the slot `(now - start) / interval` positions on, taken
/// around the ring, counts the event.
pub open spec fn ring_after_add(ring: Seq<Slot>, window: int, interval: int, now: int) -> Seq<Slot> {
    let n = ring.len();
    let start = ring[0].time as int;
    let caught_up = if start + window > now {
        ring
    } else if start + 2 * window <= now {
        fresh_ring(now, interval, n)
    } else {
        shift_ring(ring, (now - start - window) / interval + 1, interval)
    };
    let idx = ((now - caught_up[0].time) / interval) % (n as int);
    caught_up.update(idx, Slot { time: caught_up[idx].time, count: (caught_up[idx].count + 1) as u64 })
}

/// Whether an event at `now` would move the window by more slots than it
/// has, which the counter refuses (this happens only when the window is
/// not a whole number of slot intervals).
pub open spec fn add_overruns(ring: Seq<Slot>, window: int, interval: int, now: int) -> bool {
    let start = ring[0].time as int;
    start + window <= now && now < start + 2 * window && (now - start - window) / interval + 1 > ring.len()
}

/// Counts events in a window of time that slides with the current time.
pub struct SlidingWindowCounter {
    window_size: i64,
    data: Vec<Slot>,
    slot_num: usize,
    interval: i64,
    start_slot: usize,
}

impl SlidingWindowCounter {
    /// The slots in ring order, from the oldest.
    pub closed spec fn ring(&self) -> Seq<Slot> {
        Seq::new(self.slot_num as nat, |k: int| self.data@[(self.start_slot + k) % (self.slot_num as int)])
    }

    /// The slots in storage order.
    pub closed spec fn slots(&self) -> Seq<Slot> {
        self.data@
    }

    pub closed spec fn num_slots(&self) -> int {
        self.slot_num as int
    }

    pub closed spec fn start(&self) -> int {
        self.start_slot as int
    }

    pub closed spec fn window(&self) -> int {
        self.window_size as int
    }

    pub closed spec fn slot_interval(&self) -> int {
        self.interval as int
    }

    /// The counter's invariant: as many slots as asked for, one interval
    /// apart in ring order, the interval being the window divided by the
    /// number of slots, times within bounds, and a total count that fits.
    pub closed spec fn wf(&self) -> bool {
        &&& self.slot_num > 0
        &&& self.slot_num < usize::MAX / 4
        &&& self.data@.len() == self.slot_num
        &&& self.start_slot < self.slot_num
        &&& self.slot_num <= self.window_size <= time_limit()
        &&& self.interval == (self.window_size as int) / (self.slot_num as int)
        &&& -2 * time_limit() <= self.ring()[0].time <= time_limit()
        &&& forall|k: int| 0 <= k < self.slot_num ==> (#[trigger] self.ring()[k]).time == self.ring()[0].time + k * self.interval
        &&& total_count(self.ring()) <= u64::MAX
    }

    /// A counter whose window is `window_ms` milliseconds, cut into
    /// `slot_num` slots, starting at `now`.
    pub fn new_at(window_ms: i64, slot_num: usize, now: i64) -> (r: Self)
        requires
            0 < slot_num < usize::MAX / 4,
            slot_num <= window_ms <= time_limit(),
            -time_limit() <= now <= time_limit(),
        ensures
            r.wf(),
            r.window() == window_ms,
            r.slot_interval() == (window_ms as int) / (slot_num as int),
            r.ring() == fresh_ring(now as int, (window_ms as int) / (slot_num as int), slot_num as nat),
            r.start() == 0,
    {
        let interval: i64 = window_ms / (slot_num as i64);
        let mut data: Vec<Slot> = Vec::new();
        let mut i: usize = 0;
        while i < slot_num
            invariant
                i <= slot_num,
                data@.len() == i,
                data@.len() == i,
            decreases slot_num - i,
        {
            data.push(Slot::new(0));
            i = i + 1;
        }
        let mut r = SlidingWindowCounter { window_size: window_ms, data, slot_num, interval, start_slot: 0 };
        r.init(now);
        r
    }

    /// Starts the window over at `now`: the slots are emptied and start at
    /// `now`, one interval apart.
    fn init(&mut self, now: i64)
        requires
            old(self).slot_num > 0,
            old(self).slot_num < usize::MAX / 4,
            old(self).data@.len() == old(self).slot_num,
            old(self).slot_num <= old(self).window_size <= time_limit(),
            old(self).interval == (old(self).window_size as int) / (old(self).slot_num as int),
            -2 * time_limit() <= now <= time_limit(),
        ensures
            final(self).wf(),
            final(self).ring() == fresh_ring(now as int, old(self).interval as int, old(self).slot_num as nat),
            final(self).start_slot == 0,
            final(self).window_size == old(self).window_size,
            final(self).interval == old(self).interval,
            final(self).slot_num == old(self).slot_num,
    {
        let n = self.slot_num;
        let ghost iv = self.interval as int;
        proof {
            assert(iv * (n as int) <= self.window_size && iv >= 1) by (nonlinear_arith)
                requires iv == (self.window_size as int) / (n as int), n > 0, self.window_size >= n;
        }
        let mut t: i64 = now;
        let mut i: usize = 0;
        while i < n
            invariant
                n == self.slot_num,
                n > 0,
                self.window_size == old(self).window_size,
                self.interval == old(self).interval,
                self.slot_num < usize::MAX / 4,
                self.slot_num <= self.window_size <= time_limit(),
                self.interval == (self.window_size as int) / (self.slot_num as int),
                self.data@.len() == n,
                i <= n,
                iv == self.interval,
                0 < iv,
                iv * (n as int) <= time_limit(),
                -2 * time_limit() <= now <= time_limit(),
                t == now + i * iv,
                forall|k: int| 0 <= k < i ==> self.data@[k] == (Slot { time: (now + k * iv) as i64, count: 0 }),
            decreases n - i,
        {
            self.data.set(i, Slot::new(t));
            proof {
                assert((i + 1) * iv <= (n as int) * iv) by (nonlinear_arith)
                    requires i < n, iv > 0;
                assert(t + iv == now + (i + 1) * iv) by (nonlinear_arith)
                    requires t == now + i * iv;
            }
            t = t + self.interval;
            i = i + 1;
        }
        self.start_slot = 0;
        proof {
            assert forall|k: int| 0 <= k < n implies (#[trigger] self.ring()[k]) == (Slot { time: (now + k * iv) as i64, count: 0 }) by {
                vstd::arithmetic::div_mod::lemma_small_mod(k as nat, n as nat);
            }
            assert(self.ring() =~= fresh_ring(now as int, iv, n as nat));
            lemma_total_fresh(now as int, iv, n as nat);
            assert forall|k: int| 0 <= k < n implies (#[trigger] self.ring()[k]).time == self.ring()[0].time + k * self.interval by {
                assert(k * iv <= (n as int) * iv) by (nonlinear_arith)
                    requires 0 <= k < n, iv > 0;
            }
        }
    }
}

impl SlidingWindowCounter {
    /// Moves the start of the window `move_index` slots on: the slots it
    /// passes are emptied and put after the last one. A move by more slots
    /// than there are is refused.
    fn init_part(&mut self, move_index: i64) -> (r: Result<(), SgError>)
        requires
            old(self).wf(),
            0 <= move_index <= old(self).slot_num ==> old(self).ring()[0].time + move_index * old(self).interval <= time_limit(),
        ensures
            (move_index < 0 || move_index > old(self).slot_num) ==> r == Err::<(), SgError>(SgError::BadRequest) && *final(self) == *old(self),
            (0 <= move_index <= old(self).slot_num) ==> {
                &&& r is Ok
                &&& final(self).wf()
                &&& final(self).ring() == shift_ring(old(self).ring(), move_index as int, old(self).interval as int)
                &&& final(self).start_slot == (move_index + old(self).start_slot) % (old(self).slot_num as int)
                &&& final(self).window_size == old(self).window_size
                &&& final(self).interval == old(self).interval
                &&& final(self).slot_num == old(self).slot_num
            },
    {
        let n = self.slot_num;
        if move_index < 0 || move_index > n as i64 {
            return Err(SgError::BadRequest);
        }
        let m: usize = move_index as usize;
        let s0 = self.start_slot;
        let ghost old_data = self.data@;
        let ghost old_ring = self.ring();
        let ghost iv = self.interval as int;
        proof {
            assert(iv * (n as int) <= self.window_size && iv >= 1) by (nonlinear_arith)
                requires iv == (self.window_size as int) / (n as int), n > 0, self.window_size >= n;
            lemma_wrap((s0 + n - 1) as int, n as int);
            assert(old_ring[n - 1] == old_data[(s0 + n - 1) as int % (n as int)]);
        }
        let last_slot_index = (s0 + n - 1) % n;
        let t0: i64 = self.data[last_slot_index].time;
        proof {
            assert(old_ring[n - 1].time == old_ring[0].time + (n - 1) * iv);
            assert((n - 1) * iv + iv == (n as int) * iv) by (nonlinear_arith);
            assert((n - 1) * iv <= (n as int) * iv) by (nonlinear_arith)
                requires n >= 1, iv >= 1;
            assert(t0 + iv == t0 + (0 + 1) * iv) by (nonlinear_arith);
        }
        let mut t: i64 = t0 + self.interval;
        let mut i: usize = 0;
        while i < m
            invariant
                n == self.slot_num,
                n > 0,
                n < usize::MAX / 4,
                m <= n,
                s0 < n,
                -2 * time_limit() <= old_ring[0].time,
                (n as int) * iv <= time_limit(),
                self.data@.len() == n,
                old_data.len() == n,
                iv == self.interval,
                iv >= 1,
                i <= m,
                self.window_size == old(self).window_size,
                self.start_slot == s0,
                old_ring == Seq::new(n as nat, |k: int| old_data[(s0 + k) % (n as int)]),
                t0 == old_ring[0].time + (n - 1) * iv,
                old_ring[0].time + (m as int) * iv <= time_limit(),
                i < m ==> t == t0 + (i + 1) * iv,
                forall|p: int| 0 <= p < i ==> #[trigger] self.data@[(s0 + p) % (n as int)] == (Slot { time: (t0 + (p + 1) * iv) as i64, count: 0 }),
                forall|p: int| i <= p < n ==> #[trigger] self.data@[(s0 + p) % (n as int)] == old_data[(s0 + p) % (n as int)],
            decreases m - i,
        {
            let index = (i + s0) % n;
            proof {
                lemma_wrap((s0 + i) as int, n as int);
            }
            let ghost before = self.data@;
            self.data.set(index, Slot::new(t));
            proof {
                assert forall|p: int| 0 <= p < n && p != i implies #[trigger] self.data@[(s0 + p) % (n as int)] == before[(s0 + p) % (n as int)] by {
                    lemma_ring_distinct(s0 as int, p, i as int, n as int);
                }
                assert((i + 1) * iv + iv == (i + 2) * iv) by (nonlinear_arith);
                assert((i + 2) * iv <= (m as int) * iv + iv) by (nonlinear_arith)
                    requires i < m, iv >= 1;
                assert((m as int) * iv <= (n as int) * iv) by (nonlinear_arith)
                    requires m <= n, iv >= 1;
                if i + 1 < m {
                    assert(t0 + (i + 2) * iv <= old_ring[0].time + 2 * ((n as int) * iv)) by (nonlinear_arith)
                        requires t0 == old_ring[0].time + (n - 1) * iv, i + 2 <= m, m <= n, iv >= 1;
                }
            }
            if i + 1 < m {
                t = t + self.interval;
            }
            i = i + 1;

        }
        self.start_slot = (m + s0) % n;
        proof {
            lemma_wrap((s0 + m) as int, n as int);
            let s1 = self.start_slot as int;
            assert forall|k: int| 0 <= k < n implies #[trigger] self.ring()[k] == shift_ring(old_ring, m as int, iv)[k] by {
                lemma_ring_shift_index(s0 as int, m as int, k, n as int);
                if k + m < n {
                    assert(self.ring()[k] == self.data@[(s0 + (k + m)) % (n as int)]);
                } else {
                    let j = k + m - n;
                    assert(self.ring()[k] == self.data@[(s0 + j) % (n as int)]);
                    assert(t0 + (j + 1) * iv == old_ring[0].time + (k + m) * iv) by (nonlinear_arith)
                        requires t0 == old_ring[0].time + (n - 1) * iv, j == k + m - n;
                }
            }
            assert(self.ring() =~= shift_ring(old_ring, m as int, iv));
            assert((n + m) * iv <= 2 * ((n as int) * iv)) by (nonlinear_arith)
                requires m <= n, iv >= 1;
            lemma_shift_ring_times(old_ring, m as int, iv);
            lemma_total_shift(old_ring, m as int, iv);
        }
        Ok(())
    }
}

/// Where the ring starts after an event at `now` (see [`ring_after_add`]).
pub open spec fn start_after_add(start: int, n: int, ring0: int, window: int, interval: int, now: int) -> int {
    if ring0 + window > now {
        start
    } else if ring0 + 2 * window <= now {
        0
    } else {
        ((now - ring0 - window) / interval + 1 + start) % n
    }
}

/// The current time in milliseconds since the Unix epoch (`chrono::Utc::now`).
/// The contract claims only that it lies within the times `chrono` can
/// represent; two calls may give any such values.
#[verifier::external_body]
pub(crate) fn now_ms() -> (r: i64)
    ensures
        -time_limit() <= r <= time_limit(),
{
    chrono::Utc::now().timestamp_millis()
}

impl SlidingWindowCounter {
    /// A counter whose window is `window_ms` milliseconds, cut into
    /// `slot_num` slots, starting now.
    pub fn new(window_ms: i64, slot_num: usize) -> (r: Self)
        requires
            0 < slot_num < usize::MAX / 4,
            slot_num <= window_ms <= time_limit(),
        ensures
            r.wf(),
            r.window() == window_ms,
            r.slot_interval() == (window_ms as int) / (slot_num as int),
            r.start() == 0,
            r.ring() =~= fresh_ring(r.ring()[0].time as int, (window_ms as int) / (slot_num as int), slot_num as nat),
    {
        let now = now_ms();
        SlidingWindowCounter::new_at(window_ms, slot_num, now)
    }

    /// The time the oldest slot starts at.
    pub fn start_time(&self) -> (r: i64)
        requires
            self.wf(),
        ensures
            r == self.ring()[0].time,
    {
        proof {
            vstd::arithmetic::div_mod::lemma_small_mod(self.start_slot as nat, self.slot_num as nat);
        }
        self.data[self.start_slot].time
    }

    /// Whether counting an event at `now` would move the window by more
    /// slots than it has (see [`add_overruns`]).
    pub fn overruns(&self, now: i64) -> (r: bool)
        requires
            self.wf(),
            self.ring()[0].time <= now <= time_limit(),
        ensures
            r == add_overruns(self.ring(), self.window(), self.slot_interval(), now as int),
    {
        proof {
            let iv = self.interval as int;
            assert(iv >= 1) by (nonlinear_arith)
                requires iv == (self.window_size as int) / (self.slot_num as int), self.slot_num > 0, self.window_size >= self.slot_num;
        }
        let start = self.start_time();
        if start + self.window_size <= now && now < start + 2 * self.window_size {
            let q: i64 = (now - start - self.window_size) / self.interval;
            proof {
                assert(q <= now - start - self.window_size) by (nonlinear_arith)
                    requires q == (now - start - self.window_size) / (self.interval as int), self.interval >= 1, now - start - self.window_size >= 0;
            }
            q + 1 > self.slot_num as i64
        } else {
            false
        }
    }

    /// The slot that holds the oldest time.
    pub fn start_slot(&self) -> (r: usize)
        ensures
            r == self.start(),
    {
        self.start_slot
    }

    /// The slots in storage order.
    pub fn get_data(&self) -> (r: &[Slot])
        ensures
            r@ == self.slots(),
    {
        self.data.as_slice()
    }

    /// The sum of all slot counts.
    pub fn total(&self) -> (r: u64)
        requires
            self.wf(),
        ensures
            r == total_count(self.ring()),
    {
        let n = self.slot_num;
        let mut sum: u64 = 0;
        let mut k: usize = 0;
        while k < n
            invariant
                self.wf(),
                n == self.slot_num,
                k <= n,
                sum == total_count(self.ring().take(k as int)),
            decreases n - k,
        {
            proof {
                lemma_wrap((self.start_slot + k) as int, n as int);
                assert(self.ring().take(k + 1).drop_last() =~= self.ring().take(k as int));
                lemma_total_prefix_le(self.ring(), k + 1);
            }
            let idx = (self.start_slot + k) % n;
            sum = sum + self.data[idx].count;
            k = k + 1;
        }
        assert(self.ring().take(n as int) =~= self.ring());
        sum
    }

    /// The number of events counted in the slots that start within one
    /// window before `now`.
    pub fn count_in_window(&self, now: i64) -> (r: u64)
        requires
            self.wf(),
            -2 * time_limit() <= now <= time_limit(),
        ensures
            r == count_from(self.ring(), now - self.window()),
    {
        let n = self.slot_num;
        let from: i64 = now - self.window_size;
        let mut sum: u64 = 0;
        let mut k: usize = 0;
        while k < n
            invariant
                self.wf(),
                n == self.slot_num,
                k <= n,
                from == now - self.window_size,
                sum == count_from(self.ring().take(k as int), from as int),
            decreases n - k,
        {
            proof {
                lemma_wrap((self.start_slot + k) as int, n as int);
                assert(self.ring().take(k + 1).drop_last() =~= self.ring().take(k as int));
                lemma_count_from_le_total(self.ring().take(k + 1), from as int);
                lemma_total_prefix_le(self.ring(), k + 1);
            }
            let idx = (self.start_slot + k) % n;
            let slot = self.data[idx];
            if from <= slot.time {
                sum = sum + slot.count;
            }
            k = k + 1;
        }
        assert(self.ring().take(n as int) =~= self.ring());
        sum
    }

    /// Counts an event at `now`: the window first catches up with `now`,
    /// then the slot `now` falls in counts one more (see
    /// [`ring_after_add`]).
    pub fn add_one(&mut self, now: i64)
        requires
            old(self).wf(),
            old(self).ring()[0].time <= now <= time_limit(),
            !add_overruns(old(self).ring(), old(self).window(), old(self).slot_interval(), now as int),
            total_count(old(self).ring()) < u64::MAX,
        ensures
            final(self).wf(),
            final(self).ring() == ring_after_add(old(self).ring(), old(self).window(), old(self).slot_interval(), now as int),
            final(self).start() == start_after_add(old(self).start(), old(self).num_slots(), old(self).ring()[0].time as int, old(self).window(), old(self).slot_interval(), now as int),
            final(self).window() == old(self).window(),
            final(self).slot_interval() == old(self).slot_interval(),
    {
        let ghost old_ring = self.ring();
        let ghost iv = self.interval as int;
        let n = self.slot_num;
        let start_slot_time = self.start_time();
        proof {
            assert(iv * (n as int) <= self.window_size && iv >= 1) by (nonlinear_arith)
                requires iv == (self.window_size as int) / (n as int), n > 0, self.window_size >= n;
        }
        let ghost caught_up: Seq<Slot>;
        if start_slot_time + self.window_size <= now {
            if start_slot_time + self.window_size * 2 <= now {
                self.init(now);
                proof {
                    caught_up = fresh_ring(now as int, iv, n as nat);
                    lemma_total_fresh(now as int, iv, n as nat);
                    lemma_total_nonneg(old_ring);
                }
            } else {
                let move_index: i64 = (now - start_slot_time - self.window_size) / self.interval + 1;
                proof {
                    let q = (now - start_slot_time - self.window_size) / iv;
                    assert(q * iv <= now - start_slot_time - self.window_size) by (nonlinear_arith)
                        requires q == (now - start_slot_time - self.window_size) / iv, iv >= 1,
                            now - start_slot_time - self.window_size >= 0;
                    assert(q >= 0) by (nonlinear_arith)
                        requires q == (now - start_slot_time - self.window_size) / iv, iv >= 1,
                            now - start_slot_time - self.window_size >= 0;
                    assert(start_slot_time + move_index * iv <= now) by (nonlinear_arith)
                        requires move_index == q + 1, q * iv <= now - start_slot_time - self.window_size,
                            iv <= self.window_size;
                }
                let r = self.init_part(move_index);
                proof {
                    caught_up = shift_ring(old_ring, move_index as int, iv);
                    lemma_total_shift(old_ring, move_index as int, iv);
                }
            }
        } else {
            proof {
                caught_up = old_ring;
            }
        }
        let st = self.start_time();
        proof {
            assert(self.ring() == caught_up);
            assert(st <= now);
        }
        let slot_index: i64 = (now - st) / self.interval;
        proof {
            assert(slot_index >= 0) by (nonlinear_arith)
                requires slot_index == (now - st) / iv, iv >= 1, now - st >= 0;
            assert(slot_index * iv <= now - st) by (nonlinear_arith)
                requires slot_index == (now - st) / iv, iv >= 1, now - st >= 0;
            assert(slot_index <= now - st) by (nonlinear_arith)
                requires slot_index * iv <= now - st, iv >= 1, slot_index >= 0;
        }
        let pos: usize = (slot_index % (n as i64)) as usize;
        let add_slot_index: usize = (self.start_slot + pos) % n;
        proof {
            vstd::arithmetic::div_mod::lemma_mod_pos_bound(slot_index as int, n as int);
            lemma_wrap((self.start_slot + pos) as int, n as int);
        }
        let old_slot = self.data[add_slot_index];
        proof {
            assert(old_slot == self.ring()[pos as int]);
            lemma_total_le_elem(self.ring(), pos as int);
            assert(total_count(self.ring()) <= total_count(old_ring));
        }
        let ghost before = self.data@;
        self.data.set(add_slot_index, Slot { time: old_slot.time, count: old_slot.count + 1 });
        proof {
            assert forall|k: int| 0 <= k < n implies #[trigger] self.ring()[k] == caught_up.update(pos as int, Slot { time: old_slot.time, count: (old_slot.count + 1) as u64 })[k] by {
                lemma_wrap((self.start_slot + k) as int, n as int);
                if k != pos {
                    lemma_ring_distinct(self.start_slot as int, k, pos as int, n as int);
                }
            }
            assert(self.ring() =~= caught_up.update(pos as int, Slot { time: old_slot.time, count: (old_slot.count + 1) as u64 }));
            lemma_total_update(caught_up, pos as int, Slot { time: old_slot.time, count: (old_slot.count + 1) as u64 });
        }
    }

    /// Counts the events in the window before `now`, then counts one more at
    /// `now`; the count from before is returned.
    pub fn add_and_count(&mut self, now: i64) -> (r: u64)
        requires
            old(self).wf(),
            old(self).ring()[0].time <= now <= time_limit(),
            !add_overruns(old(self).ring(), old(self).window(), old(self).slot_interval(), now as int),
            total_count(old(self).ring()) < u64::MAX,
        ensures
            r == count_from(old(self).ring(), now - old(self).window()),
            final(self).wf(),
            final(self).ring() == ring_after_add(old(self).ring(), old(self).window(), old(self).slot_interval(), now as int),
            final(self).start() == start_after_add(old(self).start(), old(self).num_slots(), old(self).ring()[0].time as int, old(self).window(), old(self).slot_interval(), now as int),
            final(self).window() == old(self).window(),
            final(self).slot_interval() == old(self).slot_interval(),
    {
        let result = self.count_in_window(now);
        self.add_one(now);
        result
    }
}

/// Positions in a ring of `n` slots: `x % n` for `0 <= x < 2n`.
proof fn lemma_wrap(x: int, n: int)
    requires
        0 <= x < 2 * n,
        n > 0,
    ensures
        x % n == if x < n { x } else { x - n },
{
    if x < n {
        vstd::arithmetic::div_mod::lemma_fundamental_div_mod_converse_mod(x, n, 0, x);
    } else {
        vstd::arithmetic::div_mod::lemma_fundamental_div_mod_converse_mod(x, n, 1, x - n);
    }
}

/// Different positions of a ring are different slots.
proof fn lemma_ring_distinct(s: int, a: int, b: int, n: int)
    requires
        0 <= s < n,
        0 <= a < n,
        0 <= b < n,
        a != b,
    ensures
        (s + a) % n != (s + b) % n,
{
    lemma_wrap(s + a, n);
    lemma_wrap(s + b, n);
}

/// Position `k` of a ring whose start moved `m` slots on is position
/// `k + m` of the old ring, taken around.
proof fn lemma_ring_shift_index(s: int, m: int, k: int, n: int)
    requires
        0 <= s < n,
        0 <= m <= n,
        0 <= k < n,
    ensures
        (((s + m) % n) + k) % n == (s + (if k + m < n { k + m } else { k + m - n })) % n,
        ((s + m) % n) < n,
{
    lemma_wrap(s + m, n);
    let s1 = (s + m) % n;
    lemma_wrap(s1 + k, n);
    let p = if k + m < n { k + m } else { k + m - n };
    lemma_wrap(s + p, n);
}

/// A shifted ring keeps its slots one interval apart.
proof fn lemma_shift_ring_times(ring: Seq<Slot>, m: int, interval: int)
    requires
        0 <= m <= ring.len(),
        ring.len() > 0,
        forall|k: int| 0 <= k < ring.len() ==> (#[trigger] ring[k]).time == ring[0].time + k * interval,
        ring[0].time + (ring.len() + m) * interval <= i64::MAX,
        ring[0].time >= i64::MIN,
        interval >= 1,
    ensures
        forall|k: int| 0 <= k < ring.len() ==> (#[trigger] shift_ring(ring, m, interval)[k]).time
            == shift_ring(ring, m, interval)[0].time + k * interval,
        shift_ring(ring, m, interval)[0].time == ring[0].time + m * interval,
{
    let sr = shift_ring(ring, m, interval);
    let n = ring.len() as int;
    assert forall|k: int| 0 <= k < n implies (#[trigger] sr[k]).time == ring[0].time + (k + m) * interval by {
        assert(0 <= (k + m) * interval <= (n + m) * interval) by (nonlinear_arith)
            requires 0 <= k < n, m >= 0, interval >= 1;
        if k + m < n {
            assert(ring[k + m].time == ring[0].time + (k + m) * interval);
        }
    }
    assert forall|k: int| 0 <= k < n implies (#[trigger] sr[k]).time == sr[0].time + k * interval by {
        assert(sr[0].time == ring[0].time + (0 + m) * interval);
        assert((k + m) * interval == m * interval + k * interval) by (nonlinear_arith);
    }
    assert(sr[0].time == ring[0].time + (0 + m) * interval);
}

/// The counts of two sequences put together add up.
proof fn lemma_total_append(a: Seq<Slot>, b: Seq<Slot>)
    ensures
        total_count(a + b) == total_count(a) + total_count(b),
    decreases b.len(),
{
    if b.len() > 0 {
        assert((a + b).drop_last() =~= a + b.drop_last());
        lemma_total_append(a, b.drop_last());
    } else {
        assert(a + b =~= a);
    }
}

/// Counts are never negative.
proof fn lemma_total_nonneg(a: Seq<Slot>)
    ensures
        total_count(a) >= 0,
    decreases a.len(),
{
    if a.len() > 0 {
        lemma_total_nonneg(a.drop_last());
    }
}

/// Empty slots added at the end count nothing; the slots dropped at the
/// start take their counts with them.
proof fn lemma_total_shift(ring: Seq<Slot>, m: int, interval: int)
    requires
        0 <= m <= ring.len(),
    ensures
        total_count(shift_ring(ring, m, interval)) <= total_count(ring),
{
    let n = ring.len() as int;
    let sr = shift_ring(ring, m, interval);
    let zeros = sr.skip(n - m);
    assert(sr =~= ring.skip(m) + zeros);
    lemma_total_append(ring.skip(m), zeros);
    lemma_total_zero(zeros);
    assert(ring =~= ring.take(m) + ring.skip(m));
    lemma_total_append(ring.take(m), ring.skip(m));
    lemma_total_nonneg(ring.take(m));
}

/// Slots that all count nothing add up to nothing.
proof fn lemma_total_zero(a: Seq<Slot>)
    requires
        forall|i: int| 0 <= i < a.len() ==> (#[trigger] a[i]).count == 0,
    ensures
        total_count(a) == 0,
    decreases a.len(),
{
    if a.len() > 0 {
        lemma_total_zero(a.drop_last());
    }
}

/// A prefix counts no more than the whole.
proof fn lemma_total_prefix_le(s: Seq<Slot>, k: int)
    requires
        0 <= k <= s.len(),
    ensures
        total_count(s.take(k)) <= total_count(s),
    decreases s.len() - k,
{
    if k < s.len() {
        lemma_total_prefix_le(s, k + 1);
        assert(s.take(k + 1).drop_last() =~= s.take(k));
    } else {
        assert(s.take(k) =~= s);
    }
}

/// The events in a window are among all events.
proof fn lemma_count_from_le_total(s: Seq<Slot>, from: int)
    ensures
        0 <= count_from(s, from) <= total_count(s),
    decreases s.len(),
{
    if s.len() > 0 {
        lemma_count_from_le_total(s.drop_last(), from);
    }
}

/// One slot counts no more than all of them.
proof fn lemma_total_le_elem(s: Seq<Slot>, i: int)
    requires
        0 <= i < s.len(),
    ensures
        s[i].count <= total_count(s),
    decreases s.len(),
{
    if i < s.len() - 1 {
        lemma_total_le_elem(s.drop_last(), i);
    } else {
        lemma_total_nonneg(s.drop_last());
    }
}

/// Replacing one slot changes the total by the difference of the counts.
proof fn lemma_total_update(s: Seq<Slot>, i: int, x: Slot)
    requires
        0 <= i < s.len(),
    ensures
        total_count(s.update(i, x)) == total_count(s) - s[i].count + x.count,
    decreases s.len(),
{
    if i < s.len() - 1 {
        assert(s.update(i, x).drop_last() =~= s.drop_last().update(i, x));
        lemma_total_update(s.drop_last(), i, x);
    } else {
        assert(s.update(i, x).drop_last() =~= s.drop_last());
    }
}

/// Counting one more event in slot `i` adds one to the count from `from`
/// when the slot starts at or after `from`, and nothing otherwise.
proof fn lemma_count_from_bump(s: Seq<Slot>, i: int, from: int)
    requires
        0 <= i < s.len(),
        s[i].count < u64::MAX,
    ensures
        count_from(s.update(i, Slot { time: s[i].time, count: (s[i].count + 1) as u64 }), from)
            == count_from(s, from) + if from <= s[i].time { 1int } else { 0int },
    decreases s.len(),
{
    let t = s.update(i, Slot { time: s[i].time, count: (s[i].count + 1) as u64 });
    if i == s.len() - 1 {
        assert(t.drop_last() =~= s.drop_last());
    } else {
        assert(t.drop_last() =~= s.drop_last().update(i, Slot { time: s[i].time, count: (s[i].count + 1) as u64 }));
        lemma_count_from_bump(s.drop_last(), i, from);
    }
}

/// An event recorded while the window has not yet run past it is counted
/// by every later look at the window that still covers its slot: when `now`
/// lies within the window that starts with the ring, recording an event at
/// `now` keeps every slot's start time and adds one to the count from
/// `later - window`, as long as the slot `now` falls in starts at or after
/// `later - window`.
pub proof fn lemma_recorded_event_counted(ring: Seq<Slot>, window: int, interval: int, now: int, later: int)
    requires
        ring.len() > 0,
        interval > 0,
        ring[0].time <= now < ring[0].time + window,
        later - window <= ring[((now - ring[0].time) / interval) % (ring.len() as int)].time,
        ring[((now - ring[0].time) / interval) % (ring.len() as int)].count < u64::MAX,
    ensures
        ring_after_add(ring, window, interval, now).len() == ring.len(),
        forall|k: int| 0 <= k < ring.len() ==> (#[trigger] ring_after_add(ring, window, interval, now)[k]).time == ring[k].time,
        count_from(ring_after_add(ring, window, interval, now), later - window) == count_from(ring, later - window) + 1,
{
    let n = ring.len() as int;
    let idx = ((now - ring[0].time) / interval) % n;
    assert(0 <= idx < n);
    lemma_count_from_bump(ring, idx, later - window);
}

/// The slots in storage order are the ring turned by its start: the slot
/// `k` places after the oldest is stored at `(start + k) % n`, and every
/// stored slot is one of the ring.
pub proof fn lemma_slots_ring(c: SlidingWindowCounter)
    requires
        c.wf(),
    ensures
        c.slots().len() == c.num_slots(),
        c.ring().len() == c.num_slots(),
        0 <= c.start() < c.num_slots(),
        forall|k: int| 0 <= k < c.num_slots() ==> #[trigger] c.ring()[k] == c.slots()[(c.start() + k) % c.num_slots()],
        forall|j: int| 0 <= j < c.num_slots() ==> #[trigger] c.slots()[j] == c.ring()[(j - c.start() + c.num_slots()) % c.num_slots()],
{
    let n = c.num_slots();
    let st = c.start();
    assert forall|j: int| 0 <= j < n implies #[trigger] c.slots()[j] == c.ring()[(j - st + n) % n] by {
        let k = (j - st + n) % n;
        assert(0 <= j - st + n < 2 * n);
        if j - st + n < n {
            assert(k == j - st + n) by {
                vstd::arithmetic::div_mod::lemma_small_mod((j - st + n) as nat, n as nat);
            }
            assert((st + k) % n == j) by {
                assert(st + k == j + n);
                vstd::arithmetic::div_mod::lemma_mod_add_multiples_vanish(j, n);
                vstd::arithmetic::div_mod::lemma_small_mod(j as nat, n as nat);
            }
        } else {
            assert(k == j - st) by {
                vstd::arithmetic::div_mod::lemma_mod_sub_multiples_vanish(j - st + n, n);
                vstd::arithmetic::div_mod::lemma_small_mod((j - st) as nat, n as nat);
            }
            assert((st + k) % n == j) by {
                vstd::arithmetic::div_mod::lemma_small_mod(j as nat, n as nat);
            }
        }
    }
}

/// A fresh ring with `k` events counted in its first slot.
pub open spec fn counted_ring(t0: int, interval: int, n: nat, k: u64) -> Seq<Slot> {
    fresh_ring(t0, interval, n).update(0, Slot { time: t0 as i64, count: k })
}

/// Fresh slots count nothing, from any time on.
proof fn lemma_count_from_fresh(t0: int, interval: int, n: nat, from: int)
    ensures
        count_from(fresh_ring(t0, interval, n), from) == 0,
    decreases n,
{
    if n > 0 {
        assert(fresh_ring(t0, interval, n).drop_last() =~= fresh_ring(t0, interval, (n - 1) as nat));
        lemma_count_from_fresh(t0, interval, (n - 1) as nat, from);
    }
}

/// Setting the count of slot `i` changes the count from `from` by the
/// difference, when the slot starts at or after `from`.
proof fn lemma_count_from_set(s: Seq<Slot>, i: int, c: u64, from: int)
    requires
        0 <= i < s.len(),
        from <= s[i].time,
    ensures
        count_from(s.update(i, Slot { time: s[i].time, count: c }), from) == count_from(s, from) - s[i].count + c,
    decreases s.len(),
{
    let t = s.update(i, Slot { time: s[i].time, count: c });
    if i == s.len() - 1 {
        assert(t.drop_last() =~= s.drop_last());
    } else {
        assert(t.drop_last() =~= s.drop_last().update(i, Slot { time: s[i].time, count: c }));
        lemma_count_from_set(s.drop_last(), i, c, from);
    }
}

/// Events in the first slot of a fresh window are counted one by one: with
/// `k` events counted in the first slot of a window started at `t0`, the
/// window at any `now` in that slot holds `k` events, and an event at `now`
/// makes it `k + 1`. So the `k`-th error of a window, counted within its
/// first slot, reads `k - 1` errors before it.
pub proof fn lemma_first_slot_counts(t0: int, window: int, interval: int, n: nat, k: u64, now: int)
    requires
        n > 0,
        0 < interval <= window,
        -time_limit() <= t0 <= time_limit(),
        t0 <= now < t0 + interval,
        k < u64::MAX,
    ensures
        count_from(counted_ring(t0, interval, n, k), now - window) == k,
        ring_after_add(counted_ring(t0, interval, n, k), window, interval, now) == counted_ring(t0, interval, n, (k + 1) as u64),
{
    let f = fresh_ring(t0, interval, n);
    assert(f[0].time == t0);
    lemma_count_from_fresh(t0, interval, n, now - window);
    lemma_count_from_set(f, 0, k, now - window);
    let ring = counted_ring(t0, interval, n, k);
    assert(ring[0].time == t0);
    assert((now - t0) / interval == 0) by (nonlinear_arith)
        requires 0 <= now - t0 < interval;
    assert(0int % (n as int) == 0);
    assert(ring.update(0, Slot { time: ring[0].time, count: (ring[0].count + 1) as u64 }) =~= counted_ring(t0, interval, n, (k + 1) as u64));
}

/// An event counted at `now` is in the window at `now`, for a window made
/// of whole slot intervals (`after` is `before` after `add_one(now)`).
pub proof fn lemma_added_event_in_window(before: SlidingWindowCounter, after: SlidingWindowCounter, now: int)
    requires
        before.wf(),
        before.window() == before.slot_interval() * before.num_slots(),
        before.ring()[0].time <= now <= time_limit(),
        total_count(before.ring()) < u64::MAX,
        after.ring() == ring_after_add(before.ring(), before.window(), before.slot_interval(), now),
    ensures
        count_from(after.ring(), now - before.window()) >= 1,
{
    let ring = before.ring();
    let n = ring.len() as int;
    let w = before.window();
    let iv = before.slot_interval();
    let r0 = ring[0].time as int;
    assert(iv >= 1 && iv * n <= w) by (nonlinear_arith)
        requires iv == w / n, n > 0, w >= n;
    let caught_up = if r0 + w > now {
        ring
    } else if r0 + 2 * w <= now {
        fresh_ring(now, iv, n as nat)
    } else {
        shift_ring(ring, (now - r0 - w) / iv + 1, iv)
    };
    // the window, caught up, starts at most one window before `now`
    let c0 = caught_up[0].time as int;
    assert(w <= time_limit() && r0 <= time_limit());
    lemma_total_nonneg(ring);
    if r0 + w > now {
    } else if r0 + 2 * w <= now {
        assert(caught_up[0].time == now + 0 * iv);
        lemma_total_fresh(now, iv, n as nat);
    } else {
        let q = (now - r0 - w) / iv;
        let m = q + 1;
        assert(q * iv <= now - r0 - w < (q + 1) * iv && q >= 0) by (nonlinear_arith)
            requires q == (now - r0 - w) / iv, iv >= 1, now - r0 - w >= 0;
        assert(m <= n) by (nonlinear_arith)
            requires q * iv <= now - r0 - w, now - r0 - w < w, w == iv * n, iv >= 1, m == q + 1;
        assert(r0 + (n + m) * iv <= i64::MAX) by (nonlinear_arith)
            requires m <= n, iv >= 1, iv * n <= w, w <= time_limit(), r0 <= time_limit();
        assert(r0 + m * iv <= now && now < r0 + m * iv + w) by (nonlinear_arith)
            requires q * iv <= now - r0 - w < (q + 1) * iv, m == q + 1, iv * n <= w, n >= 1, iv >= 1;
        lemma_shift_ring_times(ring, m, iv);
        lemma_total_shift(ring, m, iv);
    }
    assert(c0 <= now < c0 + w);
    let idx0 = (now - c0) / iv;
    assert(0 <= idx0 < n && idx0 * iv <= now - c0 < idx0 * iv + iv) by (nonlinear_arith)
        requires idx0 == (now - c0) / iv, iv >= 1, 0 <= now - c0 < w, w == iv * n;
    vstd::arithmetic::div_mod::lemma_small_mod(idx0 as nat, n as nat);
    let target = caught_up[idx0];
    lemma_total_le_elem(caught_up, idx0);
    assert(target.time == c0 + idx0 * iv) by {
        if r0 + w > now {
            assert(ring[idx0].time == ring[0].time + idx0 * iv);
        } else if r0 + 2 * w <= now {
            assert(idx0 * iv <= n * iv) by (nonlinear_arith)
                requires 0 <= idx0 < n, iv >= 1;
        } else {
        }
    }
    let after_ring = after.ring();
    assert(after_ring[idx0].count == target.count + 1);
    assert(after_ring[idx0].time >= now - w);
    lemma_count_from_ge_elem(after_ring, idx0, now - w);
}

/// A slot within the window counts towards it.
proof fn lemma_count_from_ge_elem(s: Seq<Slot>, i: int, from: int)
    requires
        0 <= i < s.len(),
        from <= s[i].time,
    ensures
        count_from(s, from) >= s[i].count,
    decreases s.len(),
{
    if i < s.len() - 1 {
        lemma_count_from_ge_elem(s.drop_last(), i, from);
        lemma_count_from_le_total(s, from);
    } else {
        lemma_count_from_le_total(s.drop_last(), from);
    }
}

/// A fresh ring, of empty slots, counts nothing.
pub proof fn lemma_total_fresh(t0: int, interval: int, n: nat)
    ensures
        total_count(fresh_ring(t0, interval, n)) == 0,
    decreases n,
{
    if n > 0 {
        assert(fresh_ring(t0, interval, n).drop_last() =~= fresh_ring(t0, interval, (n - 1) as nat));
        lemma_total_fresh(t0, interval, (n - 1) as nat);
    }
}

} // verus!
