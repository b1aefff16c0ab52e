//! Keeps a rolling window of the most recent ticks, so the frontend can be
//! told how often the controller is polled and how long a tick takes.
//!
//! The tick history lives in an `arraydeque` ring buffer that drops its
//! oldest entry when full; the most recent tick is at the front.
use crate::hal::messaging::{Ack, Handler};
use crate::time::{Duration, MAX_NANOS};
use vstd::prelude::*;

verus! {

/// The number of ticks the rolling window remembers.
pub const SNAPSHOTS: usize = 256;

/// The ring buffer of ticks: a wrapping `arraydeque::ArrayDeque` of
/// [`SNAPSHOTS`] snapshots, which drops its back element when an element is
/// pushed onto its front while it is full.
#[verifier::external_body]
#[derive(Debug, PartialEq)]
pub struct TickBuffer {
    deque: arraydeque::ArrayDeque<Snapshot, 256, arraydeque::Wrapping>,
}

impl Clone for TickBuffer {
    /// Calls `Clone::clone` of a wrapping `arraydeque::ArrayDeque`, which
    /// collects copies of the elements, front first, into a new deque of the
    /// same capacity, so none is lost.
    #[verifier::external_body]
    fn clone(&self) -> (r: Self)
        ensures
            buffered_ticks(r) == buffered_ticks(*self),
    {
        TickBuffer { deque: self.deque.clone() }
    }
}

/// The snapshots held by a tick buffer, front (most recent) first.
pub uninterp spec fn buffered_ticks(ticks: TickBuffer) -> Seq<Snapshot>;

/// Calls `arraydeque::ArrayDeque::new`: an empty deque.
#[verifier::external_body]
fn ticks_new() -> (r: TickBuffer)
    ensures
        buffered_ticks(r) == Seq::<Snapshot>::empty(),
{
    TickBuffer { deque: arraydeque::ArrayDeque::new() }
}

/// Calls `arraydeque::ArrayDeque::len`; the deque never holds more than its
/// capacity.
#[verifier::external_body]
fn ticks_len(ticks: &TickBuffer) -> (r: usize)
    ensures
        r == buffered_ticks(*ticks).len(),
        r <= SNAPSHOTS,
{
    ticks.deque.len()
}

/// Calls `arraydeque::ArrayDeque::get`: the element at an index counted from
/// the front, if there is one.
#[verifier::external_body]
fn ticks_get(ticks: &TickBuffer, index: usize) -> (r: Option<Snapshot>)
    ensures
        index < buffered_ticks(*ticks).len() ==> r == Some(buffered_ticks(*ticks)[index as int]),
        index >= buffered_ticks(*ticks).len() ==> r is None,
{
    ticks.deque.get(index).copied()
}

/// Calls `push_front` of a wrapping `arraydeque::ArrayDeque`: the element
/// goes to the front, and when the deque was full its back element is
/// dropped to make room. The element that was dropped is not returned.
#[verifier::external_body]
fn ticks_push_front(ticks: &mut TickBuffer, snapshot: Snapshot)
    ensures
        buffered_ticks(*old(ticks)).len() <= SNAPSHOTS,
        buffered_ticks(*final(ticks)) == pushed(buffered_ticks(*old(ticks)), snapshot),
{
    let _ = ticks.deque.push_front(snapshot);
}

/// Calls `arraydeque::ArrayDeque::clear`, which removes every element.
#[verifier::external_body]
fn ticks_clear(ticks: &mut TickBuffer)
    ensures
        buffered_ticks(*final(ticks)) == Seq::<Snapshot>::empty(),
{
    ticks.deque.clear()
}

/// The history after `snapshot` is recorded: it becomes the front, and the
/// oldest entry is forgotten when the window was full.
pub open spec fn pushed(history: Seq<Snapshot>, snapshot: Snapshot) -> Seq<Snapshot> {
    if history.len() >= SNAPSHOTS {
        seq![snapshot] + history.take(SNAPSHOTS - 1)
    } else {
        seq![snapshot] + history
    }
}

/// Record when a particular thing started and ended.
#[derive(Debug, Copy, Clone, PartialEq, Eq, Structural)]
pub struct Snapshot {
    pub start: Duration,
    pub end: Duration,
}

impl Snapshot {
    /// The time between start and end; the end must not come before the
    /// start.
    pub fn elapsed(&self) -> (r: Duration)
        requires
            self.start@ <= self.end@,
        ensures
            r@ == self.end@ - self.start@,
    {
        self.end.sub(self.start)
    }
}

/// Every snapshot in the history ends no earlier than it starts.
pub open spec fn ticks_ordered(history: Seq<Snapshot>) -> bool {
    forall|i: int| 0 <= i < history.len() ==> (#[trigger] history[i]).start@ <= history[i].end@
}

/// The combined length, in nanoseconds, of the first `n` ticks.
pub open spec fn elapsed_sum(history: Seq<Snapshot>, n: int) -> int
    decreases n,
{
    if n <= 0 {
        0
    } else {
        elapsed_sum(history, n - 1) + (history[n - 1].end@ - history[n - 1].start@)
    }
}

/// The combined length of every tick in the history.
pub open spec fn total_elapsed(history: Seq<Snapshot>) -> int {
    elapsed_sum(history, history.len() as int)
}

/// With ordered ticks, the partial sums only grow.
proof fn lemma_elapsed_sum_monotonic(history: Seq<Snapshot>, m: int, n: int)
    requires
        ticks_ordered(history),
        0 <= m <= n <= history.len(),
    ensures
        0 <= elapsed_sum(history, m) <= elapsed_sum(history, n),
    decreases n - m,
{
    if m < n {
        lemma_elapsed_sum_monotonic(history, m, n - 1);
        assert(history[n - 1].start@ <= history[n - 1].end@);
    } else {
        lemma_elapsed_sum_nonnegative(history, m);
    }
}

/// With ordered ticks, every partial sum is nonnegative.
proof fn lemma_elapsed_sum_nonnegative(history: Seq<Snapshot>, n: int)
    requires
        ticks_ordered(history),
        n <= history.len(),
    ensures
        0 <= elapsed_sum(history, n),
    decreases n,
{
    if n > 0 {
        lemma_elapsed_sum_nonnegative(history, n - 1);
        assert(history[n - 1].start@ <= history[n - 1].end@);
    }
}

/// Clear the buffer used when [`FpsCounter`] calculates its rolling average.
#[derive(Debug, Default, Copy, Clone, PartialEq, Eq, Structural)]
pub struct Clear {}

impl Clear {
    /// The ID used when encoded as a packet.
    pub const ID: u8 = 2;
}

/// Tracks the most recent ticks of the controller.
#[derive(Debug, PartialEq)]
pub struct FpsCounter {
    ticks: TickBuffer,
}

impl View for FpsCounter {
    type V = Seq<Snapshot>;

    /// The remembered ticks, most recent first.
    closed spec fn view(&self) -> Seq<Snapshot> {
        buffered_ticks(self.ticks)
    }
}

impl FpsCounter {
    /// The number of ticks the rolling window remembers.
    pub const SNAPSHOTS: usize = 256;

    /// A counter that remembers no ticks.
    pub fn new() -> (r: Self)
        ensures
            r@ == Seq::<Snapshot>::empty(),
    {
        FpsCounter { ticks: ticks_new() }
    }

    /// The number of ticks remembered.
    pub fn len(&self) -> (r: usize)
        ensures
            r == self@.len(),
            r <= SNAPSHOTS,
    {
        ticks_len(&self.ticks)
    }

    /// The `index`-th most recent tick (the most recent is at index 0).
    pub fn snapshot(&self, index: usize) -> (r: Option<Snapshot>)
        ensures
            index < self@.len() ==> r == Some(self@[index as int]),
            index >= self@.len() ==> r is None,
    {
        ticks_get(&self.ticks, index)
    }

    /// Remember a tick that started at `start` and ended at `end`; when the
    /// window is full the oldest tick is forgotten.
    pub fn record(&mut self, start: Duration, end: Duration)
        ensures
            final(self)@ == pushed(old(self)@, Snapshot { start, end }),
            final(self)@.len() <= SNAPSHOTS,
    {
        ticks_push_front(&mut self.ticks, Snapshot { start, end });
    }

    /// The combined length of the remembered ticks, or `None` when a tick
    /// ends before it starts or the sum does not fit in a [`Duration`].
    pub fn total_tick_duration(&self) -> (r: Option<Duration>)
        ensures
            r is Some <==> ticks_ordered(self@) && total_elapsed(self@) <= MAX_NANOS,
            r matches Some(d) ==> d@ == total_elapsed(self@),
    {
        let len = ticks_len(&self.ticks);
        let ghost history = self@;
        let mut total = Duration::zero();
        let mut i: usize = 0;
        while i < len
            invariant
                len == history.len(),
                history == self@,
                i <= len,
                ticks_ordered(history.take(i as int)),
                total@ == elapsed_sum(history, i as int),
                total@ <= MAX_NANOS,
            decreases len - i,
        {
            let tick = ticks_get(&self.ticks, i);
            let tick = match tick {
                Some(t) => t,
                None => {
                    return None;
                },
            };
            assert(tick == history[i as int]);
            if tick.end.as_nanos() < tick.start.as_nanos() {
                assert(!ticks_ordered(history));
                return None;
            }
            let elapsed = tick.elapsed();
            match total.checked_add(elapsed) {
                Some(sum) => {
                    total = sum;
                },
                None => {
                    proof {
                        if ticks_ordered(history) {
                            lemma_elapsed_sum_monotonic(history, i + 1, len as int);
                        }
                    }
                    return None;
                },
            }
            assert(history.take(i + 1) =~= history.take(i as int).push(tick));
            i = i + 1;
        }
        assert(history.take(len as int) =~= history);
        assert(ticks_ordered(history));
        Some(total)
    }

    /// The average length of the remembered ticks (rounded down to the
    /// nanosecond), or `None` when no tick is remembered. Every tick must end
    /// no earlier than it starts, and their combined length must fit in a
    /// [`Duration`].
    pub fn average_tick_duration(&self) -> (r: Option<Duration>)
        requires
            ticks_ordered(self@),
            total_elapsed(self@) <= MAX_NANOS,
        ensures
            self@.len() == 0 ==> r is None,
            self@.len() > 0 ==> (r matches Some(d) && d@ == total_elapsed(self@) / (
            self@.len() as int)),
    {
        let len = ticks_len(&self.ticks);
        if len == 0 {
            return None;
        }
        match self.total_tick_duration() {
            Some(total) => Some(total.div(len as u32)),
            None => None,
        }
    }

    /// What the tick frequency is computed from: the number of tick
    /// intervals in the window and the time between the starts of the oldest
    /// and the most recent tick. `None` when fewer than two ticks are
    /// remembered. The most recent tick must not start before the oldest.
    pub fn tick_span(&self) -> (r: Option<(usize, Duration)>)
        requires
            self@.len() >= 2 ==> self@[self@.len() - 1].start@ <= self@[0].start@,
        ensures
            self@.len() < 2 ==> r is None,
            self@.len() >= 2 ==> (r matches Some((n, span)) && n == self@.len() - 1 && span@
                == self@[0].start@ - self@[self@.len() - 1].start@),
    {
        let len = ticks_len(&self.ticks);
        if len < 2 {
            // you can't calculate frequency when the thing doesn't repeat...
            return None;
        }
        let oldest = ticks_get(&self.ticks, len - 1);
        let most_recent = ticks_get(&self.ticks, 0);
        match (oldest, most_recent) {
            (Some(oldest), Some(most_recent)) => {
                // -1 for the fencepost problem
                Some((len - 1, most_recent.start.sub(oldest.start)))
            },
            _ => None,
        }
    }
}

impl Clone for FpsCounter {
    fn clone(&self) -> (r: Self)
        ensures
            r@ == self@,
    {
        FpsCounter { ticks: self.ticks.clone() }
    }
}

impl Default for FpsCounter {
    fn default() -> (r: Self)
        ensures
            r@ == Seq::<Snapshot>::empty(),
    {
        FpsCounter::new()
    }
}

impl Handler<Clear> for FpsCounter {
    type Response = Ack;

    /// Forget every remembered tick.
    fn handle(&mut self, _msg: Clear) -> (r: Ack)
        ensures
            final(self)@ == Seq::<Snapshot>::empty(),
    {
        ticks_clear(&mut self.ticks);
        Ack::new()
    }
}

} // verus!
