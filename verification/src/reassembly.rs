//! Why putting the segments of a stream back in sequence gives back the
//! stream, in whatever order they arrive and however often.

use crate::tcp::{seq_add, seq_ahead, seq_before, StreamView};
use vstd::arithmetic::div_mod::{
    lemma_add_mod_noop, lemma_mod_add_multiples_vanish, lemma_small_mod, lemma_sub_mod_noop,
};
use vstd::prelude::*;

verus! {

/// The pieces put together.
pub open spec fn concat(pieces: Seq<Seq<u8>>) -> Seq<u8>
    decreases pieces.len(),
{
    if pieces.len() == 0 {
        Seq::empty()
    } else {
        concat(pieces.drop_last()) + pieces.last()
    }
}

/// Putting pieces together, one list after the other.
pub proof fn lemma_concat_add(a: Seq<Seq<u8>>, b: Seq<Seq<u8>>)
    ensures
        concat(a + b) == concat(a) + concat(b),
    decreases b.len(),
{
    if b.len() == 0 {
        assert(a + b =~= a);
        assert(concat(a) + concat(b) =~= concat(a));
    } else {
        lemma_concat_add(a, b.drop_last());
        assert((a + b).drop_last() =~= a + b.drop_last());
        assert(concat(a + b) =~= concat(a) + concat(b));
    }
}

/// A stream of bytes as it was cut into segments: the sequence number of the
/// first byte, the payloads of the segments in the order of the stream, and
/// for each segment whether it carries the flag that ends the stream.
pub struct Cut {
    pub start: u32,
    pub segments: Seq<Seq<u8>>,
    pub fins: Seq<bool>,
}

impl Cut {
    /// No segment is empty, and the stream is shorter than half of the
    /// circle of sequence numbers.
    pub open spec fn wf(self) -> bool {
        &&& self.fins.len() == self.segments.len()
        &&& forall|i: int| 0 <= i < self.segments.len() ==> (#[trigger] self.segments[i]).len() > 0
        &&& concat(self.segments).len() < 0x8000_0000
    }

    /// Where in the stream segment `i` starts.
    pub open spec fn offset(self, i: int) -> nat {
        concat(self.segments.take(i)).len()
    }

    /// The sequence number of segment `i`.
    pub open spec fn seqno(self, i: int) -> u32 {
        seq_add(self.start, self.offset(i))
    }

    /// Segments start one after the other.
    pub proof fn lemma_offsets(self, i: int, j: int)
        requires
            self.wf(),
            0 <= i <= j <= self.segments.len(),
        ensures
            self.offset(i) <= self.offset(j) <= concat(self.segments).len(),
            i < j ==> self.offset(i) + self.segments[i].len() <= self.offset(j),
            self.offset(0) == 0,
        decreases self.segments.len() - i,
    {
        let n = self.segments.len() as int;
        assert(self.segments.take(n) =~= self.segments);
        assert(self.segments.take(0) =~= Seq::<Seq<u8>>::empty());
        if i < n {
            assert(self.segments.take(i + 1).drop_last() =~= self.segments.take(i));
            assert(self.segments.take(i + 1).last() == self.segments[i]);
            assert(self.offset(i + 1) == self.offset(i) + self.segments[i].len());
            if i < j {
                self.lemma_offsets(i + 1, j);
            } else {
                self.lemma_offsets(i + 1, n);
            }
        }
    }

    /// How the sequence numbers of two segments lie to each other: an
    /// earlier segment lies before a later one, a later one does not lie
    /// before an earlier one, and no two have the same sequence number.
    pub proof fn lemma_distance(self, i: int, k: int)
        requires
            self.wf(),
            0 <= i <= self.segments.len(),
            0 <= k <= self.segments.len(),
        ensures
            i < k ==> seq_before(self.seqno(i), self.seqno(k)),
            i > k ==> !seq_before(self.seqno(i), self.seqno(k)),
            i != k ==> self.seqno(i) != self.seqno(k),
            i < self.segments.len() ==> seq_add(self.seqno(i), self.segments[i].len())
                == self.seqno(i + 1),
    {
        let m: int = 0x1_0000_0000;
        let a = self.offset(i) as int;
        let b = self.offset(k) as int;
        let w = self.start as int;
        if i <= k {
            self.lemma_offsets(i, k);
        } else {
            self.lemma_offsets(k, i);
        }
        self.lemma_offsets(0, i);
        self.lemma_offsets(0, k);
        lemma_sub_mod_noop(w + a, w + b, m);
        assert(seq_ahead(self.seqno(i), self.seqno(k)) == (a - b) % m);
        if a >= b {
            lemma_small_mod((a - b) as nat, m as nat);
        } else {
            lemma_mod_add_multiples_vanish(a - b, m);
            lemma_small_mod((m + a - b) as nat, m as nat);
        }
        if i != k && self.seqno(i) == self.seqno(k) {
            assert(seq_ahead(self.seqno(i), self.seqno(k)) == 0) by {
                lemma_small_mod(0, m as nat);
            }
        }
        if i < self.segments.len() {
            self.lemma_offsets(i, i + 1);
            self.lemma_offsets(i + 1, self.segments.len() as int);
            assert(self.segments.take(i + 1).drop_last() =~= self.segments.take(i));
            lemma_add_mod_noop(w + a, self.segments[i].len() as int, m);
            lemma_small_mod(self.segments[i].len(), m as nat);
        }
    }

    /// What holds while segments are taken out one after the other: segment
    /// `k` is waited for, and the segments that wait are those from `k` on
    /// that have arrived, each under its sequence number.
    pub open spec fn in_run(self, s: StreamView, arrived: Set<int>, k: int) -> bool {
        let n = self.segments.len();
        &&& 0 <= k <= n
        &&& s.waiting_for == self.seqno(k)
        &&& s.waiting.dom().finite()
        &&& forall|key: u32| #[trigger]
            s.waiting.contains_key(key) ==> exists|j: int|
                k <= j < n && arrived.contains(j) && key == #[trigger] self.seqno(j)
        &&& forall|j: int|
            k <= j < n && #[trigger] arrived.contains(j) ==> s.waiting.contains_key(self.seqno(j))
                && s.waiting[self.seqno(j)] == (self.segments[j], self.fins[j])
    }

    /// What holds between arrivals: as in a run, and segment `k` itself has
    /// not arrived.
    pub open spec fn in_step(self, s: StreamView, arrived: Set<int>, k: int) -> bool {
        &&& self.in_run(s, arrived, k)
        &&& k < self.segments.len() ==> !arrived.contains(k)
    }

    /// Taking out what is ready goes on to the first segment that has not
    /// arrived, and yields the segments up to it.
    pub proof fn lemma_run(self, s: StreamView, arrived: Set<int>, k: int, limit: nat) -> (k2: int)
        requires
            self.wf(),
            self.in_run(s, arrived, k),
            limit >= s.waiting.dom().len(),
        ensures
            k <= k2 <= self.segments.len(),
            self.in_step(s.after_run(limit), arrived, k2),
            concat(self.segments.take(k)) + concat(s.ready_run(limit)) == concat(
                self.segments.take(k2),
            ),
        decreases limit,
    {
        let n = self.segments.len() as int;
        if k < n && arrived.contains(k) {
            let key = self.seqno(k);
            assert(s.waiting.contains_key(key));
            vstd::set::axiom_set_contains_len(s.waiting.dom(), key);
            vstd::set::axiom_set_remove_len(s.waiting.dom(), key);
            let next = s.after_ready();
            self.lemma_distance(k, k);
            assert(next.waiting.dom() =~= s.waiting.dom().remove(key));
            assert forall|other: u32| #[trigger] next.waiting.contains_key(other) implies exists|
                j: int,
            |
                k + 1 <= j < n && arrived.contains(j) && other == #[trigger] self.seqno(j) by {
                assert(s.waiting.contains_key(other));
                let j = choose|j: int|
                    k <= j < n && arrived.contains(j) && other == #[trigger] self.seqno(j);
                assert(j != k);
            }
            assert forall|j: int| k + 1 <= j < n && #[trigger] arrived.contains(j) implies {
                &&& next.waiting.contains_key(self.seqno(j))
                &&& next.waiting[self.seqno(j)] == (self.segments[j], self.fins[j])
            } by {
                self.lemma_distance(j, k);
            }
            assert(self.in_run(next, arrived, k + 1));
            let k2 = self.lemma_run(next, arrived, k + 1, (limit - 1) as nat);
            lemma_concat_add(seq![self.segments[k]], next.ready_run((limit - 1) as nat));
            assert(concat(seq![self.segments[k]]) =~= self.segments[k]) by {
                assert(seq![self.segments[k]].drop_last() =~= Seq::<Seq<u8>>::empty());
                reveal_with_fuel(concat, 2);
            }
            assert(self.segments.take(k + 1).drop_last() =~= self.segments.take(k));
            assert(concat(self.segments.take(k)) + (self.segments[k] + concat(
                next.ready_run((limit - 1) as nat),
            )) =~= concat(self.segments.take(k + 1)) + concat(
                next.ready_run((limit - 1) as nat),
            ));
            k2
        } else {
            if s.waiting.contains_key(self.seqno(k)) {
                let j = choose|j: int|
                    k <= j < n && arrived.contains(j) && self.seqno(k) == #[trigger] self.seqno(j);
                self.lemma_distance(j, k);
            }
            assert(!s.has_ready());
            assert forall|key: u32| #[trigger] s.waiting.contains_key(key) implies exists|j: int|
                k <= j < n && arrived.contains(j) && key == #[trigger] self.seqno(j) by {}
            assert(concat(self.segments.take(k)) + concat(s.ready_run(limit)) =~= concat(
                self.segments.take(k),
            ));
            k
        }
    }

    /// One arrival, of whichever segment: afterwards the segments up to the
    /// first one that has not arrived have been yielded, each once.
    pub proof fn lemma_arrival(self, s: StreamView, arrived: Set<int>, k: int, i: int) -> (k2: int)
        requires
            self.wf(),
            self.in_step(s, arrived, k),
            0 <= i < self.segments.len(),
        ensures
            k <= k2 <= self.segments.len(),
            self.in_step(
                s.delivered(self.seqno(i), self.fins[i], self.segments[i]).0,
                arrived.insert(i),
                k2,
            ),
            concat(self.segments.take(k)) + concat(
                s.delivered(self.seqno(i), self.fins[i], self.segments[i]).1,
            ) == concat(self.segments.take(k2)),
    {
        let n = self.segments.len() as int;
        let seqno = self.seqno(i);
        let payload = self.segments[i];
        let fin = self.fins[i];
        let now = arrived.insert(i);
        self.lemma_distance(i, k);
        let after = s.arrived(seqno, fin, payload);
        if i == k {
            assert forall|key: u32| #[trigger] after.waiting.contains_key(key) implies exists|
                j: int,
            |
                k + 1 <= j < n && now.contains(j) && key == #[trigger] self.seqno(j) by {
                let j = choose|j: int|
                    k <= j < n && arrived.contains(j) && key == #[trigger] self.seqno(j);
                assert(now.contains(j));
            }
            assert forall|j: int| k + 1 <= j < n && #[trigger] now.contains(j) implies {
                &&& after.waiting.contains_key(self.seqno(j))
                &&& after.waiting[self.seqno(j)] == (self.segments[j], self.fins[j])
            } by {
                assert(arrived.contains(j));
            }
            assert(self.in_run(after, now, k + 1));
            let limit = after.waiting.dom().len();
            let k2 = self.lemma_run(after, now, k + 1, limit);
            lemma_concat_add(seq![payload], after.ready_run(limit));
            assert(concat(seq![payload]) =~= payload) by {
                assert(seq![payload].drop_last() =~= Seq::<Seq<u8>>::empty());
                reveal_with_fuel(concat, 2);
            }
            assert(self.segments.take(k + 1).drop_last() =~= self.segments.take(k));
            assert(concat(self.segments.take(k)) + (payload + concat(after.ready_run(limit)))
                =~= concat(self.segments.take(k + 1)) + concat(after.ready_run(limit)));
            k2
        } else {
            assert(concat(self.segments.take(k)) + concat(Seq::<Seq<u8>>::empty()) =~= concat(
                self.segments.take(k),
            ));
            if i < k {
                assert(after == s);
                assert forall|key: u32| #[trigger] s.waiting.contains_key(key) implies exists|
                    j: int,
                |
                    k <= j < n && now.contains(j) && key == #[trigger] self.seqno(j) by {
                    let j = choose|j: int|
                        k <= j < n && arrived.contains(j) && key == #[trigger] self.seqno(j);
                    assert(now.contains(j));
                }
                assert forall|j: int| k <= j < n && #[trigger] now.contains(j) implies {
                    &&& s.waiting.contains_key(self.seqno(j))
                    &&& s.waiting[self.seqno(j)] == (self.segments[j], self.fins[j])
                } by {
                    assert(arrived.contains(j));
                }
            } else {
                assert(after.waiting.dom() =~= s.waiting.dom().insert(seqno));
                assert forall|key: u32| #[trigger] after.waiting.contains_key(key) implies exists|
                    j: int,
                |
                    k <= j < n && now.contains(j) && key == #[trigger] self.seqno(j) by {
                    if key == seqno {
                        assert(now.contains(i) && key == self.seqno(i));
                    } else {
                        let j = choose|j: int|
                            k <= j < n && arrived.contains(j) && key == #[trigger] self.seqno(j);
                        assert(now.contains(j));
                    }
                }
                assert forall|j: int| k <= j < n && #[trigger] now.contains(j) implies {
                    &&& after.waiting.contains_key(self.seqno(j))
                    &&& after.waiting[self.seqno(j)] == (self.segments[j], self.fins[j])
                } by {
                    self.lemma_distance(j, i);
                    if j != i {
                        assert(arrived.contains(j));
                    }
                }
            }
            k
        }
    }
}

/// What all the arrivals in `order` come to: the state afterwards, and the
/// bytes that are yielded. `order` lists the segments of `cut` by their
/// place in the stream, in the order in which they arrive.
pub open spec fn deliver_all(s: StreamView, cut: Cut, order: Seq<int>) -> (StreamView, Seq<u8>)
    decreases order.len(),
{
    if order.len() == 0 {
        (s, Seq::empty())
    } else {
        let before = deliver_all(s, cut, order.drop_last());
        let i = order.last();
        let now = before.0.delivered(cut.seqno(i), cut.fins[i], cut.segments[i]);
        (now.0, before.1 + concat(now.1))
    }
}

/// Whether `s` is a stream that starts at the first byte of `cut` and has
/// seen no segment yet.
pub open spec fn starts(s: StreamView, cut: Cut) -> bool {
    s.waiting_for == cut.start && s.waiting == Map::<u32, (Seq<u8>, bool)>::empty()
}

/// Whatever arrives, in whatever order and however often: what is yielded
/// is the start of the stream, up to the first segment that has not
/// arrived. Nothing is yielded twice and nothing out of place.
pub proof fn lemma_yields_prefix(s: StreamView, cut: Cut, order: Seq<int>) -> (k: int)
    requires
        cut.wf(),
        starts(s, cut),
        forall|a: int| 0 <= a < order.len() ==> 0 <= #[trigger] order[a] < cut.segments.len(),
    ensures
        0 <= k <= cut.segments.len(),
        deliver_all(s, cut, order).1 == concat(cut.segments.take(k)),
        cut.in_step(deliver_all(s, cut, order).0, order.to_set(), k),
    decreases order.len(),
{
    if order.len() == 0 {
        cut.lemma_offsets(0, 0);
        lemma_small_mod(cut.start as nat, 0x1_0000_0000);
        assert(cut.segments.take(0) =~= Seq::<Seq<u8>>::empty());
        assert(order.to_set() =~= Set::<int>::empty());
        assert(cut.in_step(s, order.to_set(), 0));
        0
    } else {
        let earlier = order.drop_last();
        let k1 = lemma_yields_prefix(s, cut, earlier);
        let before = deliver_all(s, cut, earlier);
        let i = order.last();
        let k2 = cut.lemma_arrival(before.0, earlier.to_set(), k1, i);
        assert(order.to_set() =~= earlier.to_set().insert(i)) by {
            assert forall|x: int| order.to_set().contains(x) <==> earlier.to_set().insert(
                i,
            ).contains(x) by {
                if order.contains(x) {
                    let a = choose|a: int| 0 <= a < order.len() && order[a] == x;
                    if a < order.len() - 1 {
                        assert(earlier[a] == x);
                    }
                }
                if earlier.contains(x) {
                    let a = choose|a: int| 0 <= a < earlier.len() && earlier[a] == x;
                    assert(order[a] == x);
                }
                if x == i {
                    assert(order[order.len() - 1] == x);
                }
            }
        }
        k2
    }
}

/// A stream whose segments all arrive, in whatever order and however
/// often, is yielded whole: the bytes of the payloads that are yielded, put
/// together, are the bytes of the stream.
pub proof fn lemma_reassembly(s: StreamView, cut: Cut, order: Seq<int>)
    requires
        cut.wf(),
        starts(s, cut),
        forall|a: int| 0 <= a < order.len() ==> 0 <= #[trigger] order[a] < cut.segments.len(),
        forall|i: int| 0 <= i < cut.segments.len() ==> order.contains(i),
    ensures
        deliver_all(s, cut, order).1 == concat(cut.segments),
{
    let k = lemma_yields_prefix(s, cut, order);
    if k < cut.segments.len() {
        assert(order.contains(k));
        assert(order.to_set().contains(k));
    }
    assert(cut.segments.take(cut.segments.len() as int) =~= cut.segments);
}

} // verus!
