//! Flush policy configuration, dirty-byte accounting and the timing of
//! interval-based flushing.

use vstd::prelude::*;

verus! {

/// Policy controlling when to flush dirty pages to disk.
#[derive(Debug, Clone, Copy, PartialEq, Eq, Structural)]
pub enum FlushPolicy {
    /// Never flush implicitly; flush() must be called by the user.
    Never,
    /// Alias of Never for semantic clarity when using the builder API.
    Manual,
    /// Flush after every write/update_region call.
    Always,
    /// Flush when at least N bytes have been written since the last flush.
    EveryBytes(usize),
    /// Flush after every W writes (calls to update_region).
    EveryWrites(usize),
    /// Flush automatically every N milliseconds when there are pending writes.
    EveryMillis(u64),
}

impl Default for FlushPolicy {
    fn default() -> (r: Self)
        ensures
            r == FlushPolicy::Never,
    {
        FlushPolicy::Never
    }
}

/// `a + b`, saturating at `u64::MAX`.
pub open spec fn sat_add(a: u64, b: u64) -> u64 {
    if a + b > u64::MAX {
        u64::MAX
    } else {
        (a + b) as u64
    }
}

/// The accumulator after a write of `written` bytes under `policy`, and
/// whether the policy asks for a flush right after that write.
///
/// The accumulator counts what has been written since the last flush:
/// writes under `EveryWrites`, bytes under every other policy, so that a
/// later explicit flush knows there is something to sync. Only `Always`,
/// `EveryBytes(n)` with `n > 0` and `EveryWrites(w)` with `w > 0` ask for
/// an automatic flush.
pub open spec fn after_write(policy: FlushPolicy, acc: u64, written: u64) -> (u64, bool) {
    match policy {
        FlushPolicy::Never | FlushPolicy::Manual => (sat_add(acc, written), false),
        FlushPolicy::Always => (sat_add(acc, written), true),
        FlushPolicy::EveryBytes(n) => (sat_add(acc, written), n > 0 && sat_add(acc, written) >= n),
        FlushPolicy::EveryWrites(w) => (sat_add(acc, 1), w > 0 && sat_add(acc, 1) >= w),
        FlushPolicy::EveryMillis(_) => (sat_add(acc, written), false),
    }
}

/// Law: every non-empty write is recorded as pending, whatever the
/// policy, so an explicit flush after it has something to sync.
pub proof fn lemma_write_is_pending(policy: FlushPolicy, acc: u64, written: u64)
    requires
        written > 0,
    ensures
        after_write(policy, acc, written).0 > 0,
        after_write(policy, acc, written).0 >= acc,
{
}

/// Law: under `Never` and `Manual` writes are counted but never followed
/// by an automatic flush; under `Always` every write is followed by a
/// flush.
pub proof fn lemma_manual_and_always_policies(acc: u64, written: u64)
    ensures
        after_write(FlushPolicy::Never, acc, written) == (sat_add(acc, written), false),
        after_write(FlushPolicy::Manual, acc, written) == (sat_add(acc, written), false),
        after_write(FlushPolicy::Always, acc, written).1,
{
}

/// Law: under `EveryBytes(n)` (`n > 0`) the bytes written since the last
/// flush are counted, and a flush is asked for exactly when they reach `n`;
/// under `EveryWrites(w)` (`w > 0`) the same holds for the number of writes.
pub proof fn lemma_threshold_policies(acc: u64, written: u64, n: usize)
    requires
        n > 0,
        acc + written <= u64::MAX,
    ensures
        after_write(FlushPolicy::EveryBytes(n), acc, written) == ((acc + written) as u64, acc
            + written >= n),
        acc < u64::MAX ==> after_write(FlushPolicy::EveryWrites(n), acc, written) == ((acc
            + 1) as u64, acc + 1 >= n),
{
}

/// Law: the interval policy only counts; the flush is left to the timer.
pub proof fn lemma_interval_policy_only_counts(acc: u64, written: u64, ms: u64)
    ensures
        after_write(FlushPolicy::EveryMillis(ms), acc, written) == (sat_add(acc, written), false),
{
}

/// The pending count and the flushes over a run of writes of the given
/// sizes, starting from `acc`, when every automatic flush the policy asks
/// for is carried out (and so resets the count): the final count and, for
/// each write, whether a flush followed it.
pub open spec fn run_writes(policy: FlushPolicy, acc: u64, writes: Seq<u64>) -> (u64, Seq<bool>)
    decreases writes.len(),
{
    if writes.len() == 0 {
        (acc, Seq::empty())
    } else {
        let (a, f) = after_write(policy, acc, writes[0]);
        let next = if f { 0u64 } else { a };
        let (last, flags) = run_writes(policy, next, writes.drop_first());
        (last, seq![f] + flags)
    }
}

/// Law: under `EveryWrites(w)` (`w > 0`), starting right after a flush, a
/// flush follows exactly the writes whose 1-based position is a multiple
/// of `w`, and the count in between is the number of writes since the last
/// flush.
pub proof fn lemma_every_writes_periodic(w: usize, acc: u64, writes: Seq<u64>)
    requires
        w > 0,
        acc < w,
    ensures
        run_writes(FlushPolicy::EveryWrites(w), acc, writes).1.len() == writes.len(),
        forall|i: int|
            0 <= i < writes.len() ==> (#[trigger] run_writes(FlushPolicy::EveryWrites(w), acc, writes).1[i]
                <==> (acc + i + 1) % (w as int) == 0),
        run_writes(FlushPolicy::EveryWrites(w), acc, writes).0 == (acc + writes.len()) % (w as int),
    decreases writes.len(),
{
    let p = FlushPolicy::EveryWrites(w);
    if writes.len() > 0 {
        let a = (acc + 1) as u64;
        let f = a >= w;
        let next: u64 = if f { 0 } else { a };
        assert(after_write(p, acc, writes[0]) == (a, f));
        lemma_every_writes_periodic(w, next, writes.drop_first());
        let rest = run_writes(p, next, writes.drop_first());
        let all = run_writes(p, acc, writes);
        assert(all.1 == seq![f] + rest.1);
        assert(next as int == (acc + 1) % (w as int)) by (nonlinear_arith)
            requires
                acc < w,
                w > 0,
                f == (acc + 1 >= w),
                next == (if f { 0 } else { acc + 1 }),
        ;
        assert forall|i: int| 0 <= i < writes.len() implies (#[trigger] all.1[i] <==> (acc + i + 1)
            % (w as int) == 0) by {
            if i == 0 {
                assert(all.1[0] == f);
                assert(f <==> (acc + 1) % (w as int) == 0) by (nonlinear_arith)
                    requires
                        acc < w,
                        w > 0,
                        f == (acc + 1 >= w),
                ;
            } else {
                assert(all.1[i] == rest.1[i - 1]);
                vstd::arithmetic::div_mod::lemma_add_mod_noop_right(i, acc + 1, w as int);
                assert(next + (i - 1) + 1 == i + (acc + 1) % (w as int));
            }
        }
        vstd::arithmetic::div_mod::lemma_add_mod_noop_right(
            writes.len() - 1,
            acc + 1,
            w as int,
        );
    } else {
        assert((acc as int) % (w as int) == acc as int) by (nonlinear_arith)
            requires
                acc < w,
                acc >= 0,
        ;
    }
}

/// Apply `policy` to a write of `written` bytes with `acc` bytes (or writes)
/// pending: returns the new accumulator and whether to flush now.
///
/// The accumulator saturates at `u64::MAX` instead of overflowing.
pub fn apply_flush_policy(policy: FlushPolicy, acc: u64, written: u64) -> (r: (u64, bool))
    ensures
        r == after_write(policy, acc, written),
{
    match policy {
        FlushPolicy::Never | FlushPolicy::Manual => (acc.saturating_add(written), false),
        FlushPolicy::Always => (acc.saturating_add(written), true),
        FlushPolicy::EveryBytes(n) => {
            let a = acc.saturating_add(written);
            (a, n > 0 && a >= n as u64)
        },
        FlushPolicy::EveryWrites(w) => {
            let a = acc.saturating_add(1);
            (a, w > 0 && a >= w as u64)
        },
        FlushPolicy::EveryMillis(_) => (acc.saturating_add(written), false),
    }
}

/// Maximum delay between shutdown-flag checks of the interval flusher, in
/// milliseconds.
pub const SHUTDOWN_POLL_MS: u64 = 50;

/// The timing state of an interval (`EveryMillis`) flusher: the worker
/// sleeps in slices of at most [`SHUTDOWN_POLL_MS`] and fires the flush
/// callback each time a whole interval has elapsed.
pub struct FlushTimer {
    interval_ms: u64,
    poll_ms: u64,
    elapsed_ms: u64,
}

impl FlushTimer {
    /// The timer's invariant: it has a positive interval and polls at least
    /// once per interval; less than one interval has elapsed since it last
    /// fired.
    pub closed spec fn wf(&self) -> bool {
        &&& 0 < self.poll_ms <= self.interval_ms
        &&& self.poll_ms <= SHUTDOWN_POLL_MS
        &&& self.elapsed_ms < self.interval_ms
    }

    /// The configured interval in milliseconds.
    pub closed spec fn interval(&self) -> u64 {
        self.interval_ms
    }

    /// The length of one polling slice in milliseconds.
    pub closed spec fn poll(&self) -> u64 {
        self.poll_ms
    }

    /// Milliseconds accounted since the timer last fired (or started).
    pub closed spec fn elapsed(&self) -> u64 {
        self.elapsed_ms
    }

    /// A timer for `interval_ms`, or `None` when the interval is zero
    /// (flushing every zero milliseconds is meaningless).
    pub fn new(interval_ms: u64) -> (r: Option<Self>)
        ensures
            interval_ms == 0 <==> r is None,
            r matches Some(t) ==> t.wf() && t.interval() == interval_ms && t.elapsed() == 0
                && t.poll() == (if interval_ms < SHUTDOWN_POLL_MS {
                interval_ms
            } else {
                SHUTDOWN_POLL_MS
            }),
    {
        if interval_ms == 0 {
            return None;
        }
        let poll_ms = if interval_ms < SHUTDOWN_POLL_MS {
            interval_ms
        } else {
            SHUTDOWN_POLL_MS
        };
        Some(FlushTimer { interval_ms, poll_ms, elapsed_ms: 0 })
    }

    /// The next slice to sleep: one polling slice, clamped to what is left
    /// of the current interval.
    pub fn next_sleep(&self) -> (r: u64)
        requires
            self.wf(),
        ensures
            0 < r <= self.poll(),
            r <= self.interval() - self.elapsed(),
            r == (if self.poll() < self.interval() - self.elapsed() {
                self.poll() as int
            } else {
                self.interval() - self.elapsed()
            }),
    {
        let remaining = self.interval_ms.saturating_sub(self.elapsed_ms);
        if self.poll_ms < remaining {
            self.poll_ms
        } else {
            remaining
        }
    }

    /// Account for a finished sleep of `slept` milliseconds; returns whether
    /// a whole interval has now elapsed, in which case the flush callback is
    /// due and the timer starts the next interval.
    pub fn after_sleep(&mut self, slept: u64) -> (fire: bool)
        requires
            old(self).wf(),
        ensures
            final(self).wf(),
            final(self).interval() == old(self).interval(),
            final(self).poll() == old(self).poll(),
            fire <==> old(self).elapsed() + slept >= old(self).interval(),
            fire ==> final(self).elapsed() == 0,
            !fire ==> final(self).elapsed() == old(self).elapsed() + slept,
    {
        let e = self.elapsed_ms.saturating_add(slept);
        if e >= self.interval_ms {
            self.elapsed_ms = 0;
            true
        } else {
            self.elapsed_ms = e;
            false
        }
    }
}

/// Law: a timer driven by its own slices fires exactly when the slices
/// since it last fired add up to one whole interval, never earlier and
/// never later.
pub proof fn lemma_timer_fires_on_interval(t: FlushTimer, slept: u64)
    requires
        t.wf(),
        0 < slept <= t.poll(),
        slept <= t.interval() - t.elapsed(),
    ensures
        (t.elapsed() + slept >= t.interval()) <==> (t.elapsed() + slept == t.interval()),
{
}

} // verus!
