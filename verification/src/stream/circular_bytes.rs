//! A fixed-capacity byte queue that wraps around inside its storage.
use core::ops::Range;
use vstd::arithmetic::div_mod::{lemma_mod_add_multiples_vanish, lemma_small_mod};
use vstd::prelude::*;

use crate::bytes::copy_at;

verus! {

/// The place of index `i` on a ring of `s` places, for `i` within two rounds.
pub open spec fn wrap(i: int, s: int) -> int {
    if i < s {
        i
    } else {
        i - s
    }
}

/// The smaller of two lengths.
pub open spec fn least(a: int, b: int) -> int {
    if a <= b {
        a
    } else {
        b
    }
}

/// The `count` places from `first` on, on a ring of `s` places.
pub open spec fn ring_places(first: int, count: int, s: int) -> Seq<int> {
    Seq::new(count as nat, |i: int| wrap(first + i, s))
}

/// Every place of a ring belongs either to a run or to its inverse, which begins
/// where the run ends, and to neither twice.
pub proof fn law_inverse_is_the_rest(first: int, count: int, s: int, place: int)
    requires
        0 <= first < s,
        0 <= count <= s,
        0 <= place < s,
    ensures
        ({
            let run = ring_places(first, count, s);
            let inverse = ring_places(wrap(first + count, s), s - count, s);
            &&& run.contains(place) != inverse.contains(place)
            &&& run.no_duplicates()
            &&& inverse.no_duplicates()
        }),
{
    let run = ring_places(first, count, s);
    let from = wrap(first + count, s);
    let inverse = ring_places(from, s - count, s);
    let i = if place >= first {
        place - first
    } else {
        place - first + s
    };
    if i < count {
        assert(run[i] == place);
    } else {
        assert(inverse[i - count] == place);
    }
}

/// The places of a run follow each other, and the first place of the ring follows
/// its last.
pub proof fn law_places_follow_each_other(first: int, count: int, s: int, i: int)
    requires
        0 <= first < s,
        0 <= i < count <= s,
    ensures
        ring_places(first, count, s).len() == count,
        ring_places(first, count, s)[i] == (first + i) % s,
{
    law_ring_arithmetic(first + i, s, 0, 0);
}

/// A run of `count` places on a ring of `S` places, beginning at `start`.
#[derive(Debug)]
pub struct WrapRange<const S: usize> {
    start: usize,
    count: usize,
}

impl<const S: usize> WrapRange<S> {
    /// The run never covers a place twice and begins on the ring.
    #[verifier::type_invariant]
    pub closed spec fn wf(self) -> bool {
        &&& self.count <= S
        &&& self.start < S || self.start == 0
    }

    /// The first place of the run.
    pub closed spec fn first(self) -> int {
        self.start as int
    }

    /// How many places the run covers.
    pub closed spec fn covered(self) -> int {
        self.count as int
    }

    /// The places that the run covers, in order.
    pub open spec fn places(self) -> Seq<int> {
        ring_places(self.first(), self.covered(), S as int)
    }

    /// The empty run at the start of the ring.
    pub fn new() -> (r: Self)
        ensures
            r.first() == 0,
            r.covered() == 0,
    {
        WrapRange { start: 0, count: 0 }
    }

    /// The place that comes `offset` places after the start of the run.
    fn place_after(&self, offset: usize) -> (r: usize)
        requires
            0 < S,
            offset <= S,
            self.wf(),
        ensures
            r == wrap(self.first() + offset, S as int),
            r < S,
    {
        if offset < S - self.start {
            self.start + offset
        } else {
            offset - (S - self.start)
        }
    }

    /// The places that this run leaves free, from its end on.
    pub fn invert(&self) -> (r: Self)
        requires
            0 < S,
        ensures
            r.first() == wrap(self.first() + self.covered(), S as int),
            r.covered() == S - self.covered(),
    {
        proof {
            use_type_invariant(self);
        }
        WrapRange { start: self.place_after(self.count), count: S - self.count }
    }

    /// Gives up the first `count` places, or all of them if there are fewer.
    pub fn add_front(&mut self, count: usize)
        requires
            0 < S,
        ensures
            final(self).covered() == old(self).covered() - least(count as int, old(self).covered()),
            final(self).first() == wrap(
                old(self).first() + least(count as int, old(self).covered()),
                S as int,
            ),
            final(self).places() == old(self).places().skip(
                least(count as int, old(self).covered()),
            ),
    {
        proof {
            use_type_invariant(&*self);
        }
        let count_to_remove: usize = if count <= self.count {
            count
        } else {
            self.count
        };
        let start: usize = self.place_after(count_to_remove);
        self.start = start;
        self.count = self.count - count_to_remove;
        assert(self.places() =~= old(self).places().skip(
            least(count as int, old(self).covered()),
        ));
    }

    /// Covers `count` more places at the end, up to the whole ring.
    pub fn add_back(&mut self, count: usize)
        ensures
            final(self).covered() == least(old(self).covered() + count, S as int),
            final(self).first() == old(self).first(),
    {
        proof {
            use_type_invariant(&*self);
        }
        if count <= S - self.count {
            self.count = self.count + count;
        } else {
            self.count = S;
        }
    }

    /// Gives up the last `count` places, or all of them if there are fewer.
    pub fn sub_back(&mut self, count: usize)
        ensures
            final(self).covered() == old(self).covered() - least(
                count as int,
                old(self).covered(),
            ),
            final(self).first() == old(self).first(),
    {
        proof {
            use_type_invariant(&*self);
        }
        self.count = self.count.saturating_sub(count);
    }

    /// The run as two contiguous stretches of places that do not overlap. The
    /// second one is empty unless the run passes the end of the ring.
    pub fn parts(&self) -> (r: (Range<usize>, Range<usize>))
        ensures
            r.0.start == self.first(),
            r.0.end == least(self.first() + self.covered(), S as int),
            r.1.start == 0,
            r.1.end == self.covered() - (r.0.end - r.0.start),
            r.1.end <= r.0.start,
            r.0.start <= r.0.end <= S,
            self.places() == Seq::new((r.0.end - r.0.start) as nat, |i: int| r.0.start + i)
                + Seq::new(r.1.end as nat, |i: int| i),
    {
        proof {
            use_type_invariant(self);
        }
        let first_len: usize = if self.count <= S - self.start {
            self.count
        } else {
            S - self.start
        };
        let first = Range { start: self.start, end: self.start + first_len };
        let second = Range { start: 0usize, end: self.count - first_len };
        assert(self.places() =~= Seq::new(
            (first.end - first.start) as nat,
            |i: int| first.start + i,
        ) + Seq::new(second.end as nat, |i: int| i));
        (first, second)
    }

    /// How many places the run covers.
    pub fn len(&self) -> (r: usize)
        ensures
            r == self.covered(),
            r <= S,
    {
        proof {
            use_type_invariant(self);
        }
        self.count
    }
}

/// What a queue of `capacity` bytes holds after `data` was offered to it while
/// it held `held`: as many of the offered bytes as still fit are appended.
pub open spec fn extended(held: Seq<u8>, data: Seq<u8>, capacity: int) -> Seq<u8> {
    held + data.take(least(data.len() as int, capacity - held.len()))
}

/// Offering two pieces one after the other is offering them joined.
pub proof fn law_offers_join(held: Seq<u8>, a: Seq<u8>, b: Seq<u8>, capacity: int)
    requires
        held.len() <= capacity,
    ensures
        extended(extended(held, a, capacity), b, capacity) == extended(held, a + b, capacity),
{
    assert(extended(extended(held, a, capacity), b, capacity) =~= extended(
        held,
        a + b,
        capacity,
    ));
}

/// A queue holds what it held and what was offered, in order and without a gap,
/// up to its capacity; only bytes that do not fit are left out.
pub proof fn law_queue_keeps_what_fits(held: Seq<u8>, data: Seq<u8>, capacity: int)
    requires
        held.len() <= capacity,
    ensures
        held.len() + data.len() <= capacity ==> extended(held, data, capacity) == held + data,
        held.len() + data.len() > capacity ==> extended(held, data, capacity) == (held
            + data).subrange(0, capacity),
{
    assert(held.len() + data.len() <= capacity ==> extended(held, data, capacity) =~= held + data);
    assert(held.len() + data.len() > capacity ==> extended(held, data, capacity) =~= (held
        + data).subrange(0, capacity));
}

/// Places on the ring are counted modulo its size, and of two lengths the smaller
/// counts.
pub proof fn law_ring_arithmetic(i: int, s: int, a: int, b: int)
    requires
        0 <= i < 2 * s,
    ensures
        wrap(i, s) == i % s,
        least(a, b) <= a,
        least(a, b) <= b,
        least(a, b) == a || least(a, b) == b,
{
    if i < s {
        lemma_small_mod(i as nat, s as nat);
    } else {
        lemma_small_mod((i - s) as nat, s as nat);
        lemma_mod_add_multiples_vanish(i - s, s);
    }
}

/// First in, first out: bytes that fit come out unchanged and in order, after
/// those that were held before them.
pub proof fn law_first_in_first_out(held: Seq<u8>, data: Seq<u8>, capacity: int)
    requires
        held.len() + data.len() <= capacity,
    ensures
        extended(held, data, capacity).take(held.len() as int) == held,
        extended(held, data, capacity).skip(held.len() as int) == data,
{
    assert(extended(held, data, capacity).take(held.len() as int) =~= held);
    assert(extended(held, data, capacity).skip(held.len() as int) =~= data);
}

/// A byte queue of at most `S` bytes. Its view is the bytes it holds, oldest
/// first.
#[derive(Debug)]
pub struct CircularBytes<const S: usize> {
    data: [u8; S],
    initialized_range: WrapRange<S>,
}

impl<const S: usize> View for CircularBytes<S> {
    type V = Seq<u8>;

    closed spec fn view(&self) -> Seq<u8> {
        self.initialized_range.places().map_values(|p: int| self.data@[p])
    }
}

impl<const S: usize> CircularBytes<S> {
    /// Where in the storage the oldest byte stands.
    pub closed spec fn offset(self) -> int {
        self.initialized_range.first()
    }

    /// How many of the bytes stand before the end of the storage; the others
    /// continue at its beginning.
    pub open spec fn front_len(self) -> int {
        least(self@.len() as int, S - self.offset())
    }

    /// Whether the bytes and where they begin fit the storage, as they always do.
    pub open spec fn bounded(self) -> bool {
        &&& self@.len() <= S
        &&& 0 <= self.offset()
        &&& self.offset() < S || self.offset() == 0
    }

    /// An empty queue.
    pub fn new() -> (r: Self)
        ensures
            r@ == Seq::<u8>::empty(),
            r.offset() == 0,
    {
        let r = CircularBytes { data: [0u8; S], initialized_range: WrapRange::new() };
        assert(r@ =~= Seq::<u8>::empty());
        r
    }

    /// How many bytes the queue can hold.
    pub fn capacity(&self) -> (r: usize)
        ensures
            r == S,
    {
        S
    }

    /// How many bytes the queue holds.
    pub fn len(&self) -> (r: usize)
        ensures
            r == self@.len(),
            r <= S,
            self.bounded(),
    {
        proof {
            use_type_invariant(&self.initialized_range);
        }
        self.initialized_range.len()
    }

    /// Whether the queue holds no byte.
    pub fn is_empty(&self) -> (r: bool)
        ensures
            r <==> self@.len() == 0,
    {
        self.initialized_range.len() == 0
    }

    /// Drops every byte.
    pub fn clear(&mut self)
        ensures
            final(self)@ == Seq::<u8>::empty(),
            final(self).offset() == 0,
    {
        self.initialized_range = WrapRange::new();
        assert(self@ =~= Seq::<u8>::empty());
    }

    /// The bytes in two contiguous pieces, oldest first. The second piece is
    /// empty unless the bytes pass the end of the storage.
    pub fn as_slices(&self) -> (r: (&[u8], &[u8]))
        ensures
            r.0@ == self@.take(self.front_len()),
            r.1@ == self@.skip(self.front_len()),
            0 <= self.front_len() <= self@.len(),
            self@.len() > 0 ==> self.front_len() > 0,
    {
        proof {
            use_type_invariant(&self.initialized_range);
        }
        let (p1, p2) = self.initialized_range.parts();
        let data: &[u8] = &self.data;
        let s1: &[u8] = vstd::slice::slice_subrange(data, p1.start, p1.end);
        let s2: &[u8] = vstd::slice::slice_subrange(data, p2.start, p2.end);
        assert(s1@ =~= self@.take(self.front_len()));
        assert(s2@ =~= self@.skip(self.front_len()));
        (s1, s2)
    }

    /// Keeps only the newest `len` bytes.
    pub fn truncate_front(&mut self, len: usize)
        requires
            0 < S,
        ensures
            final(self)@ == old(self)@.skip(old(self)@.len() - least(len as int, old(self)@.len() as int)),
            final(self).offset() == wrap(
                old(self).offset() + old(self)@.len() - least(len as int, old(self)@.len() as int),
                S as int,
            ),
    {
        let surplus: usize = self.initialized_range.len().saturating_sub(len);
        self.initialized_range.add_front(surplus);
        assert(self@ =~= old(self)@.skip(
            old(self)@.len() - least(len as int, old(self)@.len() as int),
        ));
    }

    /// Keeps only the oldest `len` bytes.
    pub fn truncate_back(&mut self, len: usize)
        ensures
            final(self)@ == old(self)@.take(least(len as int, old(self)@.len() as int)),
            final(self).offset() == old(self).offset(),
    {
        let surplus: usize = self.initialized_range.len().saturating_sub(len);
        self.initialized_range.sub_back(surplus);
        assert(self@ =~= old(self)@.take(least(len as int, old(self)@.len() as int)));
    }

    /// The bytes in two contiguous pieces, oldest first, open to overwriting.
    pub fn as_mut_slices(&mut self) -> (r: (&mut [u8], &mut [u8]))
        ensures
            r.0@ == old(self)@.take(old(self).front_len()),
            r.1@ == old(self)@.skip(old(self).front_len()),
            0 <= old(self).front_len() <= old(self)@.len() <= S,
            final(self).offset() == old(self).offset(),
            (final(r.0)@.len() == r.0@.len() && final(r.1)@.len() == r.1@.len())
                ==> final(self)@ == final(r.0)@ + final(r.1)@,
    {
        proof {
            use_type_invariant(&self.initialized_range);
        }
        let (p1, p2) = self.initialized_range.parts();
        let data: &mut [u8] = &mut self.data;
        let (low, high) = data.split_at_mut(p1.start);
        let (s1, rest1) = high.split_at_mut(p1.end - p1.start);
        let (s2, rest2) = low.split_at_mut(p2.end);
        assert(s1@ =~= old(self)@.take(old(self).front_len()));
        assert(s2@ =~= old(self)@.skip(old(self).front_len()));
        (s1, s2)
    }

    /// Appends as much of `data` as still fits and ignores the rest.
    pub fn extend_from_slice(&mut self, data: &[u8])
        requires
            0 < S,
        ensures
            final(self)@ == extended(old(self)@, data@, S as int),
            old(self)@.len() <= final(self)@.len() <= S,
            final(self).offset() == old(self).offset(),
    {
        proof {
            use_type_invariant(&self.initialized_range);
        }
        let uninit_range = self.initialized_range.invert();
        let (p1, p2) = uninit_range.parts();

        let free: usize = uninit_range.len();
        let will_take: usize = if data.len() <= free {
            data.len()
        } else {
            free
        };
        let first_room: usize = p1.end - p1.start;
        let first_take: usize = if will_take <= first_room {
            will_take
        } else {
            first_room
        };

        let first_piece: &[u8] = vstd::slice::slice_subrange(data, 0, first_take);
        let second_piece: &[u8] = vstd::slice::slice_subrange(data, first_take, will_take);
        copy_at(&mut self.data, p1.start, first_piece);
        copy_at(&mut self.data, p2.start, second_piece);

        self.initialized_range.add_back(will_take);
        assert(self@ =~= extended(old(self)@, data@, S as int));
    }

    /// Makes the queue full, with every byte equal to `value`.
    pub fn fill(&mut self, value: u8)
        ensures
            final(self)@ == Seq::new(S as nat, |i: int| value),
            final(self).offset() == 0,
    {
        let mut i: usize = 0;
        while i < S
            invariant
                i <= S,
                forall|j: int| 0 <= j < i ==> #[trigger] self.data@[j] == value,
            decreases S - i,
        {
            self.data[i] = value;
            i = i + 1;
        }
        self.initialized_range = WrapRange { start: 0, count: S };
        assert(self@ =~= Seq::new(S as nat, |i: int| value));
    }

    /// Moves the oldest bytes into `slice`, as many as it has room for, and
    /// returns how many that were.
    pub fn consume_to(&mut self, slice: &mut [u8]) -> (r: usize)
        requires
            0 < S,
        ensures
            r == least(old(self)@.len() as int, old(slice)@.len() as int),
            final(slice)@ == old(self)@.take(r as int) + old(slice)@.skip(r as int),
            final(self)@ == old(self)@.skip(r as int),
            final(self).offset() == wrap(old(self).offset() + r, S as int),
    {
        let held: usize = self.len();
        let total_take: usize = if held <= slice.len() {
            held
        } else {
            slice.len()
        };

        let (s1, s2) = self.as_slices();
        let s1_take: usize = if s1.len() <= total_take {
            s1.len()
        } else {
            total_take
        };
        copy_at(slice, 0, vstd::slice::slice_subrange(s1, 0, s1_take));
        copy_at(slice, s1_take, vstd::slice::slice_subrange(s2, 0, total_take - s1_take));
        assert(slice@ =~= self@.take(total_take as int) + old(slice)@.skip(total_take as int));

        self.truncate_front(held - total_take);
        total_take
    }

    /// Fills all of `slice` with the oldest bytes, or changes nothing and
    /// returns `false` if there are too few of them.
    pub fn consume_to_exact(&mut self, slice: &mut [u8]) -> (r: bool)
        requires
            0 < S || 0 < old(slice)@.len(),
        ensures
            old(self).bounded(),
            r <==> old(slice)@.len() <= old(self)@.len(),
            !r ==> *final(self) == *old(self) && final(slice)@ == old(slice)@,
            r ==> final(slice)@ == old(self)@.take(old(slice)@.len() as int),
            r ==> final(self)@ == old(self)@.skip(old(slice)@.len() as int),
            r ==> final(self).offset() == wrap(
                old(self).offset() + old(slice)@.len(),
                S as int,
            ),
    {
        if self.len() < slice.len() {
            return false;
        }
        self.consume_to(slice);
        assert(slice@ =~= old(self)@.take(old(slice)@.len() as int));
        true
    }
}

/// The first piece of a queue holds all of it, unless the bytes pass the end of the
/// storage; then it reaches to that end.
pub proof fn law_front_reaches_the_end<const S: usize>(queue: CircularBytes<S>)
    requires
        queue.bounded(),
    ensures
        queue.offset() + queue@.len() <= S ==> queue.front_len() == queue@.len(),
        queue.offset() + queue@.len() > S ==> queue.front_len() == S - queue.offset(),
{
}

} // verus!
