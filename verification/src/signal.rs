//! A bounded series of readings of one quantity, with its highest reading.

use vstd::prelude::*;
use std::collections::VecDeque;

verus! {

/// The last `n` entries of `s`, oldest first; all of `s` where it holds no
/// more than `n`.
pub open spec fn last_n(s: Seq<u64>, n: nat) -> Seq<u64> {
    if s.len() <= n {
        s
    } else {
        s.subrange(s.len() - n, s.len() as int)
    }
}

/// The larger of two readings.
pub open spec fn higher(a: u64, b: u64) -> u64 {
    if a > b {
        a
    } else {
        b
    }
}

/// What a series is, mathematically.
pub struct Series {
    /// The readings that are kept, oldest first.
    pub points: Seq<u64>,
    /// The highest reading ever pushed, 0 before the first.
    pub peak: u64,
    /// The nominal maximum of the quantity, given at construction.
    pub max: u64,
    /// The largest number of readings that are kept.
    pub capacity: nat,
}

impl Series {
    /// The empty series.
    pub open spec fn fresh(capacity: nat, max: u64) -> Series {
        Series { points: Seq::empty(), peak: 0, max, capacity }
    }

    /// The series after one more reading: the peak rises to the reading if
    /// it is higher, and only the last `capacity` readings stay.
    pub open spec fn pushed(self, value: u64) -> Series {
        Series {
            points: last_n(self.points.push(value), self.capacity),
            peak: higher(self.peak, value),
            max: self.max,
            capacity: self.capacity,
        }
    }

    /// The series after `values` were pushed one by one.
    pub open spec fn pushed_all(self, values: Seq<u64>) -> Series
        decreases values.len(),
    {
        if values.len() == 0 {
            self
        } else {
            self.pushed_all(values.drop_last()).pushed(values.last())
        }
    }

    /// The last `n` kept readings, oldest first.
    pub open spec fn window(self, n: nat) -> Seq<u64> {
        last_n(self.points, n)
    }

    /// A series holds no more readings than its capacity.
    pub open spec fn bounded(self) -> bool {
        self.points.len() <= self.capacity
    }

    /// Bounded first-in first-out: after any run of pushes a bounded series
    /// holds the last `capacity` of all readings that it held or was given,
    /// in order of arrival, and it is still bounded.
    pub proof fn lemma_pushes_keep_last(self, values: Seq<u64>)
        requires
            self.bounded(),
        ensures
            self.pushed_all(values).points == last_n(self.points + values, self.capacity),
            self.pushed_all(values).capacity == self.capacity,
            self.pushed_all(values).max == self.max,
            self.pushed_all(values).bounded(),
        decreases values.len(),
    {
        if values.len() == 0 {
            assert(self.points + values =~= self.points);
        } else {
            let front = values.drop_last();
            self.lemma_pushes_keep_last(front);
            let before = last_n(self.points + front, self.capacity);
            assert((self.points + front).push(values.last()) =~= self.points + values);
            assert(last_n(before.push(values.last()), self.capacity) =~= last_n(
                self.points + values,
                self.capacity,
            ));
        }
    }

    /// After at least `capacity` pushes the series holds exactly the last
    /// `capacity` pushed readings.
    pub proof fn lemma_overflowing_pushes(self, values: Seq<u64>)
        requires
            self.bounded(),
            values.len() >= self.capacity,
        ensures
            self.pushed_all(values).points == values.subrange(
                values.len() - self.capacity,
                values.len() as int,
            ),
    {
        self.lemma_pushes_keep_last(values);
        assert(last_n(self.points + values, self.capacity) =~= values.subrange(
            values.len() - self.capacity,
            values.len() as int,
        ));
    }

    /// The peak is the maximum of the earlier peak and every reading pushed
    /// since, whether the reading is still kept or not: it is no lower than
    /// any of them, and it is one of them.
    pub proof fn lemma_peak_is_maximum(self, values: Seq<u64>)
        ensures
            self.pushed_all(values).peak >= self.peak,
            forall|i: int| 0 <= i < values.len() ==> self.pushed_all(values).peak >= values[i],
            self.pushed_all(values).peak == self.peak || exists|i: int|
                0 <= i < values.len() && values[i] == self.pushed_all(values).peak,
        decreases values.len(),
    {
        if values.len() > 0 {
            let front = values.drop_last();
            self.lemma_peak_is_maximum(front);
            let p = self.pushed_all(front).peak;
            let q = self.pushed_all(values).peak;
            assert forall|i: int| 0 <= i < values.len() implies q >= values[i] by {
                if i < front.len() {
                    assert(front[i] == values[i]);
                }
            }
            if q != self.peak {
                if values.last() > p {
                    assert(values[values.len() - 1] == q);
                } else {
                    let i = choose|i: int| 0 <= i < front.len() && front[i] == p;
                    assert(values[i] == q);
                }
            }
        }
    }

    /// The peak never falls.
    pub proof fn lemma_peak_monotone(self, values: Seq<u64>, more: Seq<u64>)
        ensures
            self.pushed_all(values + more).peak >= self.pushed_all(values).peak,
            self.pushed_all(values + more) == self.pushed_all(values).pushed_all(more),
        decreases more.len(),
    {
        if more.len() == 0 {
            assert(values + more =~= values);
        } else {
            self.lemma_peak_monotone(values, more.drop_last());
            assert((values + more).drop_last() =~= values + more.drop_last());
        }
    }

    /// A window wider than the series is the whole series, and a window is
    /// never longer than asked for.
    pub proof fn lemma_window_within_history(self, n: nat)
        ensures
            n >= self.points.len() ==> self.window(n) == self.points,
            self.window(n).len() == if n < self.points.len() { n } else { self.points.len() },
            forall|i: int|
                0 <= i < self.window(n).len() ==> self.window(n)[i] == self.points[self.points.len()
                    - self.window(n).len() + i],
    {
    }
}

/// A series of at most `capacity` readings in order of arrival, the highest
/// reading ever pushed, and the nominal maximum of the quantity.
pub struct Signal {
    peak: u64,
    max: u64,
    capacity: usize,
    points: VecDeque<u64>,
}

impl View for Signal {
    type V = Series;

    closed spec fn view(&self) -> Series {
        Series {
            points: self.points@,
            peak: self.peak,
            max: self.max,
            capacity: self.capacity as nat,
        }
    }
}

impl Signal {
    #[verifier::type_invariant]
    spec fn within_capacity(self) -> bool {
        self.points@.len() <= self.capacity
    }

    /// An empty series.
    pub fn with_capacity(capacity: usize, max: u64) -> (r: Self)
        ensures
            r@ == Series::fresh(capacity as nat, max),
    {
        Self { peak: 0, max, capacity, points: VecDeque::with_capacity(capacity) }
    }

    /// The highest reading pushed so far.
    pub fn peak(&self) -> (r: u64)
        ensures
            r == self@.peak,
    {
        self.peak
    }

    /// The nominal maximum of the quantity.
    pub fn max(&self) -> (r: u64)
        ensures
            r == self@.max,
    {
        self.max
    }

    /// The largest number of readings that are kept.
    pub fn capacity(&self) -> (r: usize)
        ensures
            r == self@.capacity,
    {
        self.capacity
    }

    /// The number of readings that are kept.
    pub fn len(&self) -> (r: usize)
        ensures
            r == self@.points.len(),
            self@.bounded(),
    {
        proof {
            use_type_invariant(self);
        }
        self.points.len()
    }

    /// Records a reading: the peak rises to it if it is higher, and the
    /// oldest reading leaves when the series is full.
    pub fn push(&mut self, value: u64)
        ensures
            final(self)@ == old(self)@.pushed(value),
            final(self)@.bounded(),
    {
        proof {
            use_type_invariant(&*self);
        }
        self.peak = if self.peak > value { self.peak } else { value };
        if self.capacity == 0 {
            assert(self.points@ =~= last_n(old(self)@.points.push(value), 0));
            return ;
        }
        let mut points: VecDeque<u64> = VecDeque::new();
        core::mem::swap(&mut points, &mut self.points);
        if points.len() == self.capacity {
            points.pop_front();
        }
        points.push_back(value);
        assert(points@ =~= last_n(old(self)@.points.push(value), self.capacity as nat));
        self.points = points;
    }

    /// All kept readings, oldest first.
    pub fn as_slice(&self) -> (r: Vec<u64>)
        ensures
            r@ == self@.points,
    {
        let n: usize = self.points.len();
        self.as_slice_last_n(n)
    }

    /// The last `n` kept readings, oldest first; all of them where fewer
    /// than `n` are kept.
    pub fn as_slice_last_n(&self, n: usize) -> (r: Vec<u64>)
        ensures
            r@ == self@.window(n as nat),
    {
        let len: usize = self.points.len();
        let start: usize = if len < n { 0 } else { len - n };
        let mut r: Vec<u64> = Vec::new();
        let mut i: usize = start;
        while i < len
            invariant
                start <= i <= len,
                len == self.points@.len(),
                r@ == self.points@.subrange(start as int, i as int),
            decreases len - i,
        {
            r.push(self.points[i]);
            i += 1;
        }
        assert(r@ =~= last_n(self.points@, n as nat));
        r
    }
}

} // verus!
