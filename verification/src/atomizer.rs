//! Turning a sparse, chronologically sorted event list into a dense
//! per-frame optional-event stream.

use vstd::prelude::*;

verus! {

/// Adapter from a sorted sequence of `(frame index, event)` pairs to one
/// optional event per advance call.
///
/// It holds one pending event pulled ahead of time from the source. Each
/// advance call counts one frame; the pending event is emitted on the call
/// whose ordinal equals its frame index (an event whose index already lies
/// in the past — a tie, or an out-of-order item — is emitted on the next
/// call rather than dropped), and the slot is refilled from the source.
/// Once the source is exhausted, every further call yields `None`.
pub struct EventAtomizer<T> {
    pub sequence: Vec<(usize, T)>,
    pub pos: usize,
    pub next_event: Option<(usize, T)>,
    pub index: usize,
}

/// The state a fresh atomizer is in: no calls counted, the first source
/// event (if any) pulled into the pending slot.
pub open spec fn primed<T>(sequence: Vec<(usize, T)>) -> EventAtomizer<T> {
    EventAtomizer {
        next_event: if sequence@.len() > 0 {
            Some(sequence@[0])
        } else {
            None
        },
        pos: if sequence@.len() > 0 {
            1usize
        } else {
            0usize
        },
        index: 0usize,
        sequence,
    }
}

/// One advance of the atomizer: the state after the call and what the call
/// emits. The pending event is emitted once the call count has reached its
/// frame index; every call counts one frame.
pub open spec fn atomizer_step<T>(a: EventAtomizer<T>) -> (EventAtomizer<T>, Option<T>) {
    match a.next_event {
        Some((stamp, ev)) => {
            if stamp <= a.index {
                (
                    EventAtomizer {
                        next_event: if a.pos < a.sequence@.len() {
                            Some(a.sequence@[a.pos as int])
                        } else {
                            None
                        },
                        pos: if a.pos < a.sequence@.len() {
                            (a.pos + 1) as usize
                        } else {
                            a.pos
                        },
                        index: (a.index + 1) as usize,
                        sequence: a.sequence,
                    },
                    Some(ev),
                )
            } else {
                (EventAtomizer { index: (a.index + 1) as usize, ..a }, None)
            }
        },
        None => (EventAtomizer { index: (a.index + 1) as usize, ..a }, None),
    }
}

/// The stream of the next `n` advance calls: the state they leave behind
/// and the `n` values they emit, in call order.
pub open spec fn atomizer_run<T>(a: EventAtomizer<T>, n: nat) -> (EventAtomizer<T>, Seq<Option<T>>)
    decreases n,
{
    if n == 0 {
        (a, Seq::empty())
    } else {
        let (a1, out) = atomizer_step(a);
        let (a2, rest) = atomizer_run(a1, (n - 1) as nat);
        (a2, seq![out] + rest)
    }
}

impl<T> EventAtomizer<T> {
    /// Internal consistency: the read position is inside the source.
    pub open spec fn wf(self) -> bool {
        self.pos <= self.sequence@.len()
    }
}

impl<T: Copy> EventAtomizer<T> {
    /// Wraps a sorted event list and pulls the first event into the
    /// pending slot.
    pub fn new(sequence: Vec<(usize, T)>) -> (a: EventAtomizer<T>)
        ensures
            a == primed(sequence),
            a.wf(),
    {
        let mut instance = EventAtomizer { sequence, next_event: None, pos: 0, index: 0 };
        instance.retrieve_next_event();
        instance
    }

    /// Refills the pending slot with the next source event, or empties it
    /// when the source is exhausted.
    fn retrieve_next_event(&mut self)
        requires
            old(self).pos <= old(self).sequence@.len(),
        ensures
            final(self).sequence == old(self).sequence,
            final(self).index == old(self).index,
            final(self).wf(),
            old(self).pos < old(self).sequence@.len() ==> final(self).next_event == Some(
                old(self).sequence@[old(self).pos as int],
            ) && final(self).pos == old(self).pos + 1,
            old(self).pos >= old(self).sequence@.len() ==> final(self).next_event
                == None::<(usize, T)> && final(self).pos == old(self).pos,
    {
        self.next_event = None;
        if self.pos < self.sequence.len() {
            self.next_event = Some(self.sequence[self.pos]);
            self.pos = self.pos + 1;
        }
    }

    /// One advance call: emits the pending event once the call count has
    /// reached its frame index, else `None`; always counts one frame.
    pub fn next(&mut self) -> (out: Option<T>)
        requires
            old(self).wf(),
            old(self).index < usize::MAX,
        ensures
            final(self).wf(),
            (*final(self), out) == atomizer_step(*old(self)),
    {
        match self.next_event {
            Some((stamp, ev)) => {
                if stamp <= self.index {
                    self.next_event = None;
                    self.retrieve_next_event();
                    self.index = self.index + 1;
                    Some(ev)
                } else {
                    self.index = self.index + 1;
                    None
                }
            },
            None => {
                self.index = self.index + 1;
                None
            },
        }
    }
}

/// Whether some event at or after position `k` of `events` carries the
/// frame stamp `stamp`.
pub open spec fn has_stamp_from<T>(events: Seq<(usize, T)>, k: int, stamp: int) -> bool {
    exists|j: int| k <= j < events.len() && (#[trigger] events[j]).0 as int == stamp
}

/// Atomization ordering, from any mid-run state: if the source events from
/// position `k` on carry strictly increasing stamps none of which lies in
/// the past, then over the next `n` calls each such event whose stamp falls
/// inside the run is emitted exactly on the call whose ordinal is its
/// stamp, and every other call emits `None`.
#[verifier::rlimit(80)]
pub proof fn lemma_atomizer_run_ordering<T>(a: EventAtomizer<T>, n: nat, k: int)
    requires
        a.wf(),
        0 <= k <= a.sequence@.len(),
        forall|i: int, j: int|
            k <= i < j < a.sequence@.len() ==> (#[trigger] a.sequence@[i]).0 < (
            #[trigger] a.sequence@[j]).0,
        k < a.sequence@.len() ==> a.next_event == Some(a.sequence@[k]) && a.pos == k + 1,
        k >= a.sequence@.len() ==> a.next_event == None::<(usize, T)> && a.pos
            == a.sequence@.len(),
        k < a.sequence@.len() ==> a.index <= a.sequence@[k].0,
        a.index + n <= usize::MAX,
    ensures
        atomizer_run(a, n).1.len() == n,
        forall|j: int|
            k <= j < a.sequence@.len() && (#[trigger] a.sequence@[j]).0 < a.index + n
                ==> atomizer_run(a, n).1[a.sequence@[j].0 - a.index] == Some(a.sequence@[j].1),
        forall|c: int|
            0 <= c < n && !has_stamp_from(a.sequence@, k, a.index + c) ==> atomizer_run(a, n).1[c]
                == None::<T>,
    decreases n,
{
    if n > 0 {
        assert(a.sequence.len() == a.sequence@.len());
        let (a1, out) = atomizer_step(a);
        let events = a.sequence@;
        if k < events.len() && events[k].0 == a.index {
            // The pending event is due: it is emitted on this call.
            assert(a1.index == a.index + 1);
            if k + 1 < events.len() {
                assert(events[k].0 < events[k + 1].0);
                assert(a1.next_event == Some(events[k + 1]) && a1.pos == k + 2);
            }
            lemma_atomizer_run_ordering(a1, (n - 1) as nat, k + 1);
            let (a2, rest) = atomizer_run(a1, (n - 1) as nat);
            let outs = atomizer_run(a, n).1;
            assert(outs =~= seq![out] + rest);
            assert forall|j: int|
                k <= j < events.len() && (#[trigger] events[j]).0 < a.index + n implies outs[
                events[j].0 - a.index] == Some(events[j].1) by {
                if j == k {
                    assert(outs[0] == out);
                } else {
                    assert(events[k].0 < events[j].0);
                    assert(rest[events[j].0 - a1.index] == Some(events[j].1));
                    assert(outs[events[j].0 - a.index] == rest[events[j].0 - a.index - 1]);
                }
            }
            assert forall|c: int|
                0 <= c < n && !has_stamp_from(events, k, a.index + c) implies outs[c]
                == None::<T> by {
                if c == 0 {
                    assert(events[k].0 as int == a.index + 0);
                    assert(has_stamp_from(events, k, a.index + c));
                } else {
                    if has_stamp_from(events, k + 1, a1.index + (c - 1)) {
                        let j = choose|j: int|
                            k + 1 <= j < events.len() && (#[trigger] events[j]).0 as int
                                == a1.index + (c - 1);
                        assert(events[j].0 as int == a.index + c);
                        assert(has_stamp_from(events, k, a.index + c));
                    }
                    assert(rest[c - 1] == None::<T>);
                }
            }
        } else {
            // Nothing is due on this call: it emits `None`.
            assert(out == None::<T>);
            lemma_atomizer_run_ordering(a1, (n - 1) as nat, k);
            let (a2, rest) = atomizer_run(a1, (n - 1) as nat);
            let outs = atomizer_run(a, n).1;
            assert(outs =~= seq![out] + rest);
            assert forall|j: int|
                k <= j < events.len() && (#[trigger] events[j]).0 < a.index + n implies outs[
                events[j].0 - a.index] == Some(events[j].1) by {
                assert(events[k].0 <= events[j].0);
                assert(rest[events[j].0 - a1.index] == Some(events[j].1));
                assert(outs[events[j].0 - a.index] == rest[events[j].0 - a.index - 1]);
            }
            assert forall|c: int|
                0 <= c < n && !has_stamp_from(events, k, a.index + c) implies outs[c]
                == None::<T> by {
                if c > 0 {
                    if has_stamp_from(events, k, a1.index + (c - 1)) {
                        let j = choose|j: int|
                            k <= j < events.len() && (#[trigger] events[j]).0 as int == a1.index + (
                            c - 1);
                        assert(has_stamp_from(events, k, a.index + c));
                    }
                    assert(rest[c - 1] == None::<T>);
                }
            }
        }
    }
}

/// Atomization ordering: events whose frame indices rise strictly and stay
/// below `n` come out of a fresh atomizer over `n` calls exactly on the
/// calls their indices name, with `None` on every other call.
pub proof fn lemma_atomizer_ordering<T>(a: EventAtomizer<T>, n: nat)
    requires
        a == primed(a.sequence),
        forall|i: int, j: int|
            0 <= i < j < a.sequence@.len() ==> (#[trigger] a.sequence@[i]).0 < (
            #[trigger] a.sequence@[j]).0,
        forall|j: int| 0 <= j < a.sequence@.len() ==> (#[trigger] a.sequence@[j]).0 < n,
        n <= usize::MAX,
    ensures
        atomizer_run(a, n).1.len() == n,
        forall|j: int|
            0 <= j < a.sequence@.len() ==> atomizer_run(a, n).1[a.sequence@[j].0 as int] == Some(
                a.sequence@[j].1,
            ),
        forall|c: int|
            0 <= c < n && !has_stamp_from(a.sequence@, 0, c) ==> atomizer_run(a, n).1[c]
                == None::<T>,
{
    lemma_atomizer_run_ordering(a, n, 0);
}

} // verus!
