//! The sliding-window rate tracker: the response timestamps of the last
//! window in a binary min-heap keyed by position, with expired entries
//! dropped lazily from the top.
//!
//! Every instant is placed on a line of signed nanoseconds whose zero is the
//! moment the tracker was made. An entry at position `at` has the age
//! `now - at` at the position `now`, and is live while that age is below the
//! window length. The oldest entry is the one with the lowest position.
use crate::performance::ApiPerformance;
use crate::time::{saturate_nanos, ResponseTimestamp, TimeSpan};
use std::time::Instant;
use vstd::multiset::Multiset;
use vstd::prelude::*;

verus! {

broadcast use {vstd::seq_lib::group_to_multiset_ensures, vstd::multiset::group_multiset_axioms};

/// A timestamp held by the tracker, with its position in nanoseconds.
#[derive(Clone, Copy, Debug)]
pub struct WindowEntry {
    pub at: i128,
    pub timestamp: ResponseTimestamp,
}

/// An entry at `at` is live at `now` while its age is below `window`.
pub open spec fn is_live(at: int, now: int, window: int) -> bool {
    now - at < window
}

/// The entries of `m` that are live at `now`.
pub open spec fn live(m: Multiset<WindowEntry>, now: int, window: int) -> Multiset<WindowEntry> {
    m.filter(|e: WindowEntry| is_live(e.at as int, now, window))
}

/// The entries after a push of `e` at `now`: the expired ones are gone, and `e`
/// is kept only if it is live itself.
pub open spec fn pushed(m: Multiset<WindowEntry>, e: WindowEntry, now: int, window: int) -> Multiset<
    WindowEntry,
> {
    if is_live(e.at as int, now, window) {
        live(m, now, window).insert(e)
    } else {
        live(m, now, window)
    }
}

/// The entries after a push of each of `es` in order, the push of `es[i]` as
/// of `nows[i]`.
pub open spec fn pushed_in_order(
    m: Multiset<WindowEntry>,
    es: Seq<WindowEntry>,
    nows: Seq<int>,
    window: int,
) -> Multiset<WindowEntry>
    decreases es.len(),
{
    if es.len() == 0 || nows.len() < es.len() {
        m
    } else {
        pushed(
            pushed_in_order(m, es.drop_last(), nows.subrange(0, es.len() - 1), window),
            es.last(),
            nows[es.len() - 1],
            window,
        )
    }
}

/// `e` is one of the oldest entries of `m`.
pub open spec fn is_oldest(m: Multiset<WindowEntry>, e: WindowEntry) -> bool {
    &&& m.contains(e)
    &&& forall|x: WindowEntry| m.contains(x) ==> e.at <= x.at
}

/// `m` holds an entry with the timestamp `t`.
pub open spec fn holds_timestamp(m: Multiset<WindowEntry>, t: ResponseTimestamp) -> bool {
    exists|e: WindowEntry| m.contains(e) && e.timestamp == t
}

/// What a count of the window sees: an entry is counted exactly when it is
/// held and live at the moment of the count.
pub proof fn lemma_count_sees_live_entries_only(
    m: Multiset<WindowEntry>,
    now: int,
    window: int,
    e: WindowEntry,
)
    ensures
        live(m, now, window).contains(e) <==> (m.contains(e) && is_live(e.at as int, now, window)),
        live(m, now, window).len() <= m.len(),
{
    assert(live(m, now, window).count(e) == if is_live(e.at as int, now, window) {
        m.count(e)
    } else {
        0
    });
    lemma_live_len(m, now, window);
}

/// A push of a timestamp that has already expired adds nothing: what is left is
/// the eviction alone, so a tracker that held no expired entry keeps its size.
pub proof fn lemma_stale_push_adds_nothing(
    m: Multiset<WindowEntry>,
    e: WindowEntry,
    now: int,
    window: int,
)
    requires
        !is_live(e.at as int, now, window),
    ensures
        pushed(m, e, now, window) == live(m, now, window),
        (forall|x: WindowEntry| m.contains(x) ==> is_live(x.at as int, now, window)) ==> pushed(
            m,
            e,
            now,
            window,
        ) == m,
{
    if forall|x: WindowEntry| m.contains(x) ==> is_live(x.at as int, now, window) {
        lemma_live_all(m, now, window);
    }
}

proof fn lemma_live_len(m: Multiset<WindowEntry>, now: int, window: int)
    ensures
        live(m, now, window).len() <= m.len(),
    decreases m.len(),
{
    if m.len() > 0 {
        let x = m.choose();
        assert(m.contains(x));
        let rest = m.remove(x);
        lemma_live_len(rest, now, window);
        if is_live(x.at as int, now, window) {
            assert(live(m, now, window) =~= live(rest, now, window).insert(x));
        } else {
            assert(live(m, now, window) =~= live(rest, now, window));
        }
    } else {
        assert(live(m, now, window) =~= Multiset::<WindowEntry>::empty());
    }
}

proof fn lemma_live_all(m: Multiset<WindowEntry>, now: int, window: int)
    requires
        forall|x: WindowEntry| m.contains(x) ==> is_live(x.at as int, now, window),
    ensures
        live(m, now, window) == m,
{
    assert forall|x: WindowEntry| #[trigger] live(m, now, window).count(x) == m.count(x) by {
        if m.count(x) > 0 {
            assert(m.contains(x));
        }
    }
    assert(live(m, now, window) =~= m);
}

proof fn lemma_live_remove_expired(m: Multiset<WindowEntry>, e: WindowEntry, now: int, window: int)
    requires
        !is_live(e.at as int, now, window),
    ensures
        live(m.remove(e), now, window) == live(m, now, window),
{
    assert(live(m.remove(e), now, window) =~= live(m, now, window));
}

/// The position of the parent of slot `j` in the heap.
pub open spec fn parent(j: int) -> int {
    (j - 1) / 2
}

/// Slot `j` is not older than its parent.
pub open spec fn ordered_at(s: Seq<WindowEntry>, j: int) -> bool {
    s[parent(j)].at <= s[j].at
}

/// The heap order: every slot but the root is not older than its parent.
pub open spec fn heap_ordered(s: Seq<WindowEntry>) -> bool {
    forall|j: int| 0 < j < s.len() ==> #[trigger] ordered_at(s, j)
}

/// The heap order while the entry at `i` moves up: it holds but at `i`, and
/// the parent of `i` is not younger than the children of `i`.
spec fn ordered_but_up(s: Seq<WindowEntry>, i: int) -> bool {
    &&& forall|j: int| 0 < j < s.len() && j != i ==> #[trigger] ordered_at(s, j)
    &&& i > 0 ==> forall|j: int|
        0 < j < s.len() && parent(j) == i ==> s[parent(i)].at <= #[trigger] s[j].at
}

/// The heap order while the entry at `i` moves down: it holds but below `i`,
/// and the parent of `i` is not younger than the children of `i`.
spec fn ordered_but_down(s: Seq<WindowEntry>, i: int) -> bool {
    &&& forall|j: int| 0 < j < s.len() && parent(j) != i ==> #[trigger] ordered_at(s, j)
    &&& i > 0 ==> forall|j: int|
        0 < j < s.len() && parent(j) == i ==> s[parent(i)].at <= #[trigger] s[j].at
}

proof fn lemma_root_is_oldest(s: Seq<WindowEntry>, j: int)
    requires
        heap_ordered(s),
        0 <= j < s.len(),
    ensures
        s[0].at <= s[j].at,
    decreases j,
{
    if j > 0 {
        assert(ordered_at(s, j));
        lemma_root_is_oldest(s, parent(j));
    }
}

proof fn lemma_root_is_oldest_of_all(s: Seq<WindowEntry>)
    requires
        heap_ordered(s),
        s.len() > 0,
    ensures
        is_oldest(s.to_multiset(), s[0]),
{
    assert(s.contains(s[0]));
    assert forall|x: WindowEntry| s.to_multiset().contains(x) implies s[0].at <= x.at by {
        assert(s.contains(x));
        let j = choose|j: int| 0 <= j < s.len() && s[j] == x;
        lemma_root_is_oldest(s, j);
    }
}

proof fn lemma_swap_keeps_entries(s: Seq<WindowEntry>, a: int, b: int)
    requires
        0 <= a < s.len(),
        0 <= b < s.len(),
    ensures
        s.update(a, s[b]).update(b, s[a]).to_multiset() == s.to_multiset(),
{
    if a != b {
        let s1 = s.update(a, s[b]);
        assert(s1[b] == s[b]);
        assert(s1.to_multiset() == s.to_multiset().insert(s[b]).remove(s[a]));
        assert(s1.update(b, s[a]).to_multiset() == s1.to_multiset().insert(s[a]).remove(s[b]));
        assert(s.to_multiset().insert(s[b]).remove(s[a]).insert(s[a]).remove(s[b])
            =~= s.to_multiset());
    } else {
        assert(s.update(a, s[b]).update(b, s[a]) =~= s);
    }
}

/// Adds `entry` to the heap: it goes to the end and moves up past every
/// parent that is younger.
fn heap_push(heap: &mut Vec<WindowEntry>, entry: WindowEntry)
    requires
        heap_ordered(old(heap)@),
    ensures
        heap_ordered(final(heap)@),
        final(heap)@.to_multiset() == old(heap)@.to_multiset().insert(entry),
{
    heap.push(entry);
    let mut i: usize = heap.len() - 1;
    proof {
        let s = heap@;
        assert forall|j: int| 0 < j < s.len() && j != i implies #[trigger] ordered_at(s, j) by {
            assert(ordered_at(old(heap)@, j));
        }
    }
    while i > 0 && heap[(i - 1) / 2].at > heap[i].at
        invariant
            i < heap@.len(),
            ordered_but_up(heap@, i as int),
            heap@.to_multiset() == old(heap)@.to_multiset().insert(entry),
        decreases i,
    {
        let p = (i - 1) / 2;
        let ghost s = heap@;
        let moving = heap[i];
        let above = heap[p];
        heap[p] = moving;
        heap[i] = above;
        proof {
            let t = heap@;
            assert(t == s.update(p as int, s[i as int]).update(i as int, s[p as int]));
            lemma_swap_keeps_entries(s, p as int, i as int);
            assert forall|j: int| 0 < j < t.len() && j != p implies #[trigger] ordered_at(t, j) by {
                if j != i as int && parent(j) != i as int && parent(j) != p as int {
                    assert(ordered_at(s, j));
                } else if j != i as int && parent(j) == p as int {
                    assert(ordered_at(s, j));
                } else if j != i as int && parent(j) == i as int {
                    assert(s[parent(i as int)].at <= s[j].at);
                }
            }
            if p > 0 {
                assert forall|j: int| 0 < j < t.len() && parent(j) == p implies t[parent(
                    p as int,
                )].at <= #[trigger] t[j].at by {
                    assert(ordered_at(s, p as int));
                    if j != i as int {
                        assert(ordered_at(s, j));
                    }
                }
            }
        }
        i = p;
    }
    proof {
        let s = heap@;
        assert forall|j: int| 0 < j < s.len() implies #[trigger] ordered_at(s, j) by {
            if j == i as int {
                assert(s[parent(i as int)].at <= s[i as int].at);
            }
        }
    }
}

/// Takes the root out of the heap: the last entry takes its place and moves
/// down past every child that is older.
fn heap_pop(heap: &mut Vec<WindowEntry>) -> (r: Option<WindowEntry>)
    requires
        heap_ordered(old(heap)@),
    ensures
        heap_ordered(final(heap)@),
        old(heap)@.len() == 0 ==> r is None && final(heap)@ == old(heap)@,
        old(heap)@.len() > 0 ==> r == Some(old(heap)@[0]) && final(heap)@.len() == old(heap)@.len()
            - 1 && final(heap)@.to_multiset() == old(heap)@.to_multiset().remove(old(heap)@[0]),
{
    if heap.len() == 0 {
        return None;
    }
    let top = heap[0];
    let ghost start = heap@;
    let last = heap.pop().unwrap();
    proof {
        assert(heap@ =~= start.remove(start.len() - 1));
    }
    if heap.len() == 0 {
        proof {
            assert(start.to_multiset().remove(start[0]) =~= heap@.to_multiset());
        }
        return Some(top);
    }
    let ghost shortened = heap@;
    heap[0] = last;
    proof {
        assert(heap@ == shortened.update(0, last));
        assert(shortened.update(0, last).to_multiset() == shortened.to_multiset().insert(
            last,
        ).remove(shortened[0]));
        assert(heap@.to_multiset() =~= start.to_multiset().remove(start[0]));
        let s = heap@;
        assert forall|j: int| 0 < j < s.len() && parent(j) != 0 implies #[trigger] ordered_at(
            s,
            j,
        ) by {
            assert(ordered_at(start, j));
        }
    }
    let mut i: usize = 0;
    loop
        invariant
            i < heap@.len(),
            heap@.len() == start.len() - 1,
            ordered_but_down(heap@, i as int),
            heap@.to_multiset() == start.to_multiset().remove(start[0]),
        ensures
            heap_ordered(heap@),
            heap@.len() == start.len() - 1,
            heap@.to_multiset() == start.to_multiset().remove(start[0]),
        decreases heap@.len() - i,
    {
        if i >= heap.len() / 2 {
            proof {
                let s = heap@;
                assert forall|j: int| 0 < j < s.len() implies #[trigger] ordered_at(s, j) by {
                    if parent(j) == i as int {
                        assert(false);
                    }
                }
            }
            break;
        }
        let left = 2 * i + 1;
        let right = left + 1;
        let child = if right < heap.len() && heap[right].at < heap[left].at {
            right
        } else {
            left
        };
        if heap[child].at >= heap[i].at {
            proof {
                let s = heap@;
                assert forall|j: int| 0 < j < s.len() implies #[trigger] ordered_at(s, j) by {
                    if parent(j) == i as int {
                        assert(j == left || j == right);
                    }
                }
            }
            break;
        }
        let ghost s = heap@;
        let moving = heap[i];
        let below = heap[child];
        heap[i] = below;
        heap[child] = moving;
        proof {
            let t = heap@;
            assert(t == s.update(i as int, s[child as int]).update(child as int, s[i as int]));
            lemma_swap_keeps_entries(s, i as int, child as int);
            assert forall|j: int| 0 < j < t.len() && parent(j) != child implies #[trigger] ordered_at(
                t,
                j,
            ) by {
                if j == child as int {
                } else if parent(j) == i as int {
                    assert(j == left || j == right);
                } else if j == i as int {
                    assert(s[parent(i as int)].at <= s[child as int].at);
                } else {
                    assert(ordered_at(s, j));
                }
            }
            assert forall|j: int| 0 < j < t.len() && parent(j) == child implies t[parent(
                child as int,
            )].at <= #[trigger] t[j].at by {
                assert(ordered_at(s, j));
            }
        }
        i = child;
    }
    Some(top)
}

/// Whether an entry at `at` is live at `now`, without overflow for any positions.
fn entry_is_live(at: i128, now: i128, window: u64) -> (r: bool)
    ensures
        r == is_live(at as int, now as int, window as int),
{
    if (now >= 0 && at >= 0) || (now < 0 && at < 0) {
        now - at < window as i128
    } else if now >= 0 {
        now < window as i128 + at
    } else {
        true
    }
}

/// The timestamps of the responses that completed within the last window.
#[derive(Debug)]
pub struct LastResponses {
    max_duration: TimeSpan,
    origin: Instant,
    heap: Vec<WindowEntry>,
}

impl LastResponses {
    /// The entries held.
    pub closed spec fn entries(&self) -> Multiset<WindowEntry> {
        self.heap@.to_multiset()
    }

    /// The window length in nanoseconds.
    pub closed spec fn window(&self) -> int {
        self.max_duration.nanos_spec()
    }

    /// The entries are in heap order.
    pub closed spec fn wf(&self) -> bool {
        heap_ordered(self.heap@)
    }

    /// An empty tracker whose window is `max_duration` long.
    pub fn new(max_duration: TimeSpan) -> (r: LastResponses)
        ensures
            r.wf(),
            r.entries() == Multiset::<WindowEntry>::empty(),
            r.window() == max_duration.nanos_spec(),
    {
        let r = LastResponses { max_duration, origin: Instant::now(), heap: Vec::new() };
        assert(r.heap@.to_multiset() =~= Multiset::<WindowEntry>::empty());
        r
    }

    /// A tracker that holds all of `timestamps`, expired or not.
    pub fn with_timestamps(max_duration: TimeSpan, timestamps: Vec<ResponseTimestamp>) -> (r:
        LastResponses)
        ensures
            r.wf(),
            r.window() == max_duration.nanos_spec(),
            r.entries().len() == timestamps@.len(),
            forall|k: int|
                0 <= k < timestamps@.len() ==> #[trigger] holds_timestamp(
                    r.entries(),
                    timestamps@[k],
                ),
    {
        let mut tracker = LastResponses::new(max_duration);
        let mut i: usize = 0;
        while i < timestamps.len()
            invariant
                i <= timestamps.len(),
                tracker.wf(),
                tracker.window() == max_duration.nanos_spec(),
                tracker.entries().len() == i,
                forall|k: int|
                    0 <= k < i ==> #[trigger] holds_timestamp(tracker.entries(), timestamps@[k]),
            decreases timestamps.len() - i,
        {
            let timestamp = timestamps[i];
            let at = tracker.position_of(timestamp.instant());
            let ghost before = tracker.entries();
            let entry = WindowEntry { at, timestamp };
            tracker.insert_entry(entry);
            proof {
                assert forall|k: int| 0 <= k < i + 1 implies #[trigger] holds_timestamp(
                    tracker.entries(),
                    timestamps@[k],
                ) by {
                    if k < i {
                        assert(holds_timestamp(before, timestamps@[k]));
                        let e = choose|e: WindowEntry|
                            before.contains(e) && e.timestamp == timestamps@[k];
                        assert(tracker.entries().contains(e));
                    } else {
                        assert(tracker.entries().contains(entry));
                    }
                }
            }
            i = i + 1;
        }
        tracker
    }

    /// The window length.
    pub fn max_duration(&self) -> (r: TimeSpan)
        ensures
            r.nanos_spec() == self.window(),
    {
        self.max_duration
    }

    /// The number of entries held, expired ones included.
    pub fn len(&self) -> (r: usize)
        ensures
            r == self.entries().len(),
    {
        self.heap.len()
    }

    /// Whether no entry is held, expired ones included.
    pub fn is_empty(&self) -> (r: bool)
        ensures
            r == (self.entries().len() == 0),
    {
        self.heap.len() == 0
    }

    /// The position of an instant on the tracker's line.
    fn position_of(&self, instant: Instant) -> i128 {
        let after = saturate_nanos(instant.saturating_duration_since(self.origin).as_nanos());
        let before = saturate_nanos(self.origin.saturating_duration_since(instant).as_nanos());
        after as i128 - before as i128
    }

    /// The position of this moment on the tracker's line.
    fn now_position(&self) -> i128 {
        self.position_of(Instant::now())
    }

    /// Adds `entry`; nothing is dropped.
    fn insert_entry(&mut self, entry: WindowEntry)
        requires
            old(self).wf(),
        ensures
            final(self).wf(),
            final(self).entries() == old(self).entries().insert(entry),
            final(self).window() == old(self).window(),
    {
        heap_push(&mut self.heap, entry);
    }

    /// Drops every entry that has expired at `now`.
    pub fn evict_at(&mut self, now: i128)
        requires
            old(self).wf(),
        ensures
            final(self).wf(),
            final(self).entries() == live(old(self).entries(), now as int, old(self).window()),
            final(self).window() == old(self).window(),
    {
        let ghost start = self.entries();
        loop
            invariant
                self.wf(),
                self.window() == old(self).window(),
                live(start, now as int, self.window()) == live(
                    self.entries(),
                    now as int,
                    self.window(),
                ),
            ensures
                self.wf(),
                self.window() == old(self).window(),
                self.entries() == live(start, now as int, self.window()),
            decreases self.heap@.len(),
        {
            if self.heap.len() == 0 {
                proof {
                    assert(self.entries() =~= Multiset::<WindowEntry>::empty());
                    lemma_live_all(self.entries(), now as int, self.window());
                }
                break;
            }
            if entry_is_live(self.heap[0].at, now, self.max_duration.as_nanos()) {
                proof {
                    lemma_root_is_oldest_of_all(self.heap@);
                    lemma_live_all(self.entries(), now as int, self.window());
                }
                break;
            }
            let ghost before = self.entries();
            let ghost top = self.heap@[0];
            heap_pop(&mut self.heap);
            proof {
                lemma_live_remove_expired(before, top, now as int, self.window());
            }
        }
    }

    /// Drops every entry that has expired at this moment.
    pub fn removed_outdated_responses(&mut self)
        requires
            old(self).wf(),
        ensures
            final(self).wf(),
            final(self).window() == old(self).window(),
            exists|now: int| final(self).entries() == live(old(self).entries(), now, old(self).window()),
    {
        let now = self.now_position();
        self.evict_at(now);
    }

    /// Records `timestamp`, placed at `at`, as of `now`: expired entries are
    /// dropped first, and the timestamp is kept only if it is live itself.
    pub fn push_at(&mut self, timestamp: ResponseTimestamp, at: i128, now: i128)
        requires
            old(self).wf(),
        ensures
            final(self).wf(),
            final(self).window() == old(self).window(),
            final(self).entries() == pushed(
                old(self).entries(),
                WindowEntry { at, timestamp },
                now as int,
                old(self).window(),
            ),
    {
        self.evict_at(now);
        if entry_is_live(at, now, self.max_duration.as_nanos()) {
            self.insert_entry(WindowEntry { at, timestamp });
        }
    }

    /// Records the timestamp of a response as of this moment: expired entries
    /// are dropped first, and the timestamp is kept only if it is live itself.
    pub fn push(&mut self, response_time: ResponseTimestamp)
        requires
            old(self).wf(),
        ensures
            final(self).wf(),
            final(self).window() == old(self).window(),
            exists|at: i128, now: int|
                final(self).entries() == pushed(
                    old(self).entries(),
                    WindowEntry { at, timestamp: response_time },
                    now,
                    old(self).window(),
                ),
    {
        let now = self.now_position();
        let at = self.position_of(response_time.instant());
        self.push_at(response_time, at, now);
    }

    /// An oldest entry live at `now`, after the expired ones are dropped.
    pub fn peek_at(&mut self, now: i128) -> (r: Option<&ResponseTimestamp>)
        requires
            old(self).wf(),
        ensures
            final(self).wf(),
            final(self).window() == old(self).window(),
            final(self).entries() == live(old(self).entries(), now as int, old(self).window()),
            r is None <==> final(self).entries().len() == 0,
            r matches Some(t) ==> exists|e: WindowEntry|
                is_oldest(final(self).entries(), e) && e.timestamp == *t,
    {
        self.evict_at(now);
        if self.heap.len() == 0 {
            None
        } else {
            proof {
                lemma_root_is_oldest_of_all(self.heap@);
            }
            Some(&self.heap[0].timestamp)
        }
    }

    /// An oldest entry that has not expired at this moment, after the expired
    /// ones are dropped.
    pub fn peek(&mut self) -> (r: Option<&ResponseTimestamp>)
        requires
            old(self).wf(),
        ensures
            final(self).wf(),
            final(self).window() == old(self).window(),
            exists|now: int| final(self).entries() == live(old(self).entries(), now, old(self).window()),
            r is None <==> final(self).entries().len() == 0,
            r matches Some(t) ==> exists|e: WindowEntry|
                is_oldest(final(self).entries(), e) && e.timestamp == *t,
    {
        let now = self.now_position();
        self.peek_at(now)
    }

    /// The number of entries live at `now`, after the expired ones are dropped.
    pub fn count_at(&mut self, now: i128) -> (r: usize)
        requires
            old(self).wf(),
        ensures
            final(self).wf(),
            final(self).window() == old(self).window(),
            final(self).entries() == live(old(self).entries(), now as int, old(self).window()),
            r == final(self).entries().len(),
    {
        self.evict_at(now);
        self.heap.len()
    }

    /// The number of entries that have not expired at this moment, after the
    /// expired ones are dropped.
    pub fn requests_in_window(&mut self) -> (r: usize)
        requires
            old(self).wf(),
        ensures
            final(self).wf(),
            final(self).window() == old(self).window(),
            exists|now: int| final(self).entries() == live(old(self).entries(), now, old(self).window()),
            r == final(self).entries().len(),
    {
        let now = self.now_position();
        self.count_at(now)
    }

    /// Records the completion moments of a round, one push each, and counts
    /// the entries that have not expired at this moment.
    pub fn record_round(&mut self, round: &ApiPerformance) -> (r: usize)
        requires
            old(self).wf(),
        ensures
            final(self).wf(),
            final(self).window() == old(self).window(),
            exists|now: int| #[trigger]
                live(final(self).entries(), now, final(self).window()) == final(self).entries(),
            exists|es: Seq<WindowEntry>, nows: Seq<int>, now: int|
                {
                    &&& es.len() == round@.len()
                    &&& nows.len() == es.len()
                    &&& forall|i: int|
                        0 <= i < es.len() ==> (#[trigger] es[i]).timestamp
                            == round@[i].response_timestamp
                    &&& final(self).entries() == live(
                        pushed_in_order(old(self).entries(), es, nows, old(self).window()),
                        now,
                        old(self).window(),
                    )
                },
            r == final(self).entries().len(),
    {
        let timestamps = round.get_response_timestamps();
        let ghost start = self.entries();
        let ghost mut es: Seq<WindowEntry> = Seq::empty();
        let ghost mut nows: Seq<int> = Seq::empty();
        let mut i: usize = 0;
        while i < timestamps.len()
            invariant
                i <= timestamps.len(),
                timestamps@ == round@.map_values(|t: crate::performance::ResponseTiming| t.response_timestamp),
                self.wf(),
                self.window() == old(self).window(),
                es.len() == i,
                nows.len() == i,
                forall|k: int| 0 <= k < i ==> (#[trigger] es[k]).timestamp == timestamps@[k],
                self.entries() == pushed_in_order(start, es, nows, self.window()),
            decreases timestamps.len() - i,
        {
            let ghost before = self.entries();
            self.push(timestamps[i]);
            proof {
                let (at, now) = choose|at: i128, now: int|
                    self.entries() == pushed(
                        before,
                        WindowEntry { at, timestamp: timestamps@[i as int] },
                        now,
                        self.window(),
                    );
                let e = WindowEntry { at, timestamp: timestamps@[i as int] };
                let es2 = es.push(e);
                let nows2 = nows.push(now);
                assert(es2.drop_last() =~= es);
                assert(nows2.subrange(0, es2.len() - 1) =~= nows);
                es = es2;
                nows = nows2;
            }
            i = i + 1;
        }
        let ghost pushed_entries = self.entries();
        let count = self.requests_in_window();
        proof {
            let now = choose|now: int| self.entries() == live(pushed_entries, now, self.window());
            assert(forall|k: int| 0 <= k < es.len() ==> (#[trigger] es[k]).timestamp
                == round@[k].response_timestamp);
            assert forall|x: WindowEntry| self.entries().contains(x) implies is_live(
                x.at as int,
                now,
                self.window(),
            ) by {
                lemma_count_sees_live_entries_only(pushed_entries, now, self.window(), x);
            }
            lemma_live_all(self.entries(), now, self.window());
        }
        count
    }

    /// Takes out an oldest entry, expired or not.
    pub fn pop_oldest(&mut self) -> (r: Option<ResponseTimestamp>)
        requires
            old(self).wf(),
        ensures
            final(self).wf(),
            final(self).window() == old(self).window(),
            r is None <==> old(self).entries().len() == 0,
            r is None ==> final(self).entries() == old(self).entries(),
            r matches Some(t) ==> exists|e: WindowEntry|
                is_oldest(old(self).entries(), e) && e.timestamp == t && final(self).entries()
                    == old(self).entries().remove(e),
    {
        proof {
            if self.heap@.len() > 0 {
                lemma_root_is_oldest_of_all(self.heap@);
            }
        }
        match heap_pop(&mut self.heap) {
            Some(entry) => Some(entry.timestamp),
            None => None,
        }
    }
}

} // verus!
