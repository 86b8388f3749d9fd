//! Debouncing of configuration snapshots: a burst of snapshots becomes one
//! reload, of the last snapshot, once the stream has been quiet for a delay.

use vstd::prelude::*;

verus! {

/// A debouncer's state: the pending snapshot and when it is due.
pub struct DebouncedStream<T> {
    pub delay: u64,
    pub pending: Option<T>,
    pub deadline: u64,
}

pub open spec fn due_at(now: u64, delay: u64) -> u64 {
    if now > u64::MAX - delay { u64::MAX } else { (now + delay) as u64 }
}

/// The state after a snapshot arrives at `now`: it replaces the pending one
/// and the timer restarts.
pub open spec fn arrive<T>(d: DebouncedStream<T>, cfg: T, now: u64) -> DebouncedStream<T> {
    DebouncedStream { delay: d.delay, pending: Some(cfg), deadline: due_at(now, d.delay) }
}

/// What a poll at `now` emits, and the state after it.
pub open spec fn poll_at<T>(d: DebouncedStream<T>, now: u64) -> (DebouncedStream<T>, Option<T>) {
    if d.pending is Some && now >= d.deadline {
        (DebouncedStream { delay: d.delay, pending: None, deadline: d.deadline }, d.pending)
    } else {
        (d, None)
    }
}

/// The state after a sequence of arrivals, each a snapshot and its time.
pub open spec fn arrive_all<T>(d: DebouncedStream<T>, burst: Seq<(T, u64)>) -> DebouncedStream<T>
    decreases burst.len(),
{
    if burst.len() == 0 {
        d
    } else {
        arrive(arrive_all(d, burst.drop_last()), burst.last().0, burst.last().1)
    }
}

/// The arrivals come in time order, each less than `delay` after the one
/// before: a burst.
pub open spec fn is_burst<T>(burst: Seq<(T, u64)>, delay: u64) -> bool {
    forall|i: int|
        0 < i < burst.len() ==> burst[i - 1].1 <= #[trigger] burst[i].1 && burst[i].1 < due_at(
            burst[i - 1].1,
            delay,
        )
}

impl<T> DebouncedStream<T> {
    pub fn new(delay: u64) -> (r: DebouncedStream<T>)
        ensures
            r.delay == delay,
            r.pending is None,
    {
        DebouncedStream { delay, pending: None, deadline: 0 }
    }

    /// A snapshot arrives at `now`.
    pub fn push(&mut self, cfg: T, now: u64)
        ensures
            *final(self) == arrive(*old(self), cfg, now),
    {
        let deadline = if now > u64::MAX - self.delay { u64::MAX } else { now + self.delay };
        self.pending = Some(cfg);
        self.deadline = deadline;
    }

    /// Emits the pending snapshot once its timer has run out.
    pub fn poll_next(&mut self, now: u64) -> (r: Option<T>)
        ensures
            (*final(self), r) == poll_at(*old(self), now),
    {
        if self.pending.is_some() && now >= self.deadline {
            self.pending.take()
        } else {
            None
        }
    }

    /// When the pending snapshot is due, if there is one.
    pub fn next_deadline(&self) -> (r: Option<u64>)
        ensures
            r == if self.pending is Some { Some(self.deadline) } else { None::<u64> },
    {
        if self.pending.is_some() { Some(self.deadline) } else { None }
    }
}

proof fn lemma_arrive_all<T>(d: DebouncedStream<T>, burst: Seq<(T, u64)>)
    requires
        burst.len() > 0,
    ensures
        arrive_all(d, burst).pending == Some(burst.last().0),
        arrive_all(d, burst).deadline == due_at(burst.last().1, d.delay),
        arrive_all(d, burst).delay == d.delay,
    decreases burst.len(),
{
    if burst.len() > 1 {
        lemma_arrive_all(d, burst.drop_last());
    } else {
        assert(burst.drop_last().len() == 0);
        assert(arrive_all(d, burst.drop_last()) == d);
    }
}

/// Law: a burst of snapshots is emitted once, as its last snapshot. Between
/// two arrivals of the burst a poll emits nothing; after the last arrival a
/// poll emits nothing until the delay has passed, then the last snapshot,
/// and nothing after that.
pub proof fn lemma_debounce_burst<T>(d: DebouncedStream<T>, burst: Seq<(T, u64)>, i: int, t: u64, later: u64)
    requires
        d.pending is None,
        burst.len() > 0,
        is_burst(burst, d.delay),
        0 <= i < burst.len() - 1,
        burst[i].1 <= t < burst[i + 1].1,
    ensures
        poll_at(arrive_all(d, burst.subrange(0, i + 1)), t).1 is None,
        forall|u: u64|
            u < due_at(burst.last().1, d.delay) ==> (#[trigger] poll_at(arrive_all(d, burst), u)).1 is None,
        forall|u: u64|
            u >= due_at(burst.last().1, d.delay) ==> (#[trigger] poll_at(arrive_all(d, burst), u)).1 == Some(
                burst.last().0,
            ) && poll_at(poll_at(arrive_all(d, burst), u).0, later).1 is None,
{
    let pre = burst.subrange(0, i + 1);
    lemma_arrive_all(d, pre);
    lemma_arrive_all(d, burst);
    assert(pre.last() == burst[i]);
    assert(burst[i + 1].1 < due_at(burst[i].1, d.delay));
}

} // verus!
