//! Microphone capture store: a fixed-capacity ring of samples that keeps the most
//! recent ones, and the queries the voice loop makes on it.
use vstd::prelude::*;

verus! {

/// Rate that captured audio is resampled to, in samples per second.
pub const TARGET_RATE: usize = 16000;

/// How many seconds of audio the capture ring retains.
pub const BUFFER_SECS: usize = 8;

/// The `n` last items of `s`, or all of `s` when it holds fewer.
pub open spec fn keep_last<T>(s: Seq<T>, n: nat) -> Seq<T> {
    if s.len() <= n {
        s
    } else {
        s.subrange(s.len() - n, s.len() as int)
    }
}

/// A ring of samples of fixed capacity. It remembers how many samples were ever
/// pushed (its position) and retains the latest `capacity` of them.
pub struct Ring<T> {
    buf: Vec<T>,
    head: usize,
    written: u64,
}

impl<T> View for Ring<T> {
    type V = Seq<T>;

    /// The retained samples, oldest first.
    closed spec fn view(&self) -> Seq<T> {
        Seq::new(self.avail(), |k: int| self.buf@[self.slot(k)])
    }
}

impl<T> Ring<T> {
    /// How many samples the ring can retain.
    pub closed spec fn capacity(&self) -> nat {
        self.buf@.len()
    }

    /// How many samples were pushed since the ring was made.
    pub closed spec fn total(&self) -> nat {
        self.written as nat
    }

    /// Number of samples currently retained.
    closed spec fn avail(&self) -> nat {
        if self.written < self.buf@.len() {
            self.written as nat
        } else {
            self.buf@.len()
        }
    }

    /// Where the `k`-th retained sample lives in the buffer.
    closed spec fn slot(&self, k: int) -> int {
        let x = self.head + (self.buf@.len() - self.avail()) + k;
        if x < self.buf@.len() {
            x
        } else {
            x - self.buf@.len()
        }
    }

    /// Well-formedness: the write cursor stays inside the buffer and, until the
    /// buffer has wrapped once, equals the number of samples written. Every ring
    /// is well formed.
    #[verifier::type_invariant]
    pub closed spec fn wf(&self) -> bool {
        &&& self.buf@.len() > 0 ==> self.head < self.buf@.len()
        &&& self.buf@.len() == 0 ==> self.head == 0
        &&& self.written < self.buf@.len() ==> self.head == self.written
    }

    /// What `last(n, ..)` hands out: the `n` latest retained samples.
    pub open spec fn last_view(&self, n: nat) -> Seq<T> {
        keep_last(self@, n)
    }

    /// Position of the oldest retained sample.
    pub open spec fn oldest(&self) -> nat {
        (self.total() - self@.len()) as nat
    }

    /// What `since(from, ..)` hands out: the retained samples whose position is
    /// `from` or later.
    pub open spec fn since_view(&self, from: nat) -> Seq<T> {
        if from <= self.oldest() {
            self@
        } else {
            self@.subrange(from - self.oldest(), self@.len() as int)
        }
    }

    proof fn lemma_view_len(&self)
        ensures
            self@.len() == self.avail(),
            self@.len() <= self.capacity(),
            self@.len() <= self.total(),
            self@.len() == self.capacity() || self@.len() == self.total(),
    {
    }
}

/// Keeping the last `n` of a sequence and then one more item, then the last `n`
/// again, keeps the last `n` of the whole.
proof fn lemma_keep_last_push<T>(s: Seq<T>, x: T, n: nat)
    requires
        n > 0,
    ensures
        keep_last(keep_last(s, n).push(x), n) == keep_last(s.push(x), n),
{
    let a = keep_last(keep_last(s, n).push(x), n);
    let b = keep_last(s.push(x), n);
    assert(a =~= b);
}

impl<T: Copy> Ring<T> {
    /// A ring that retains up to `cap` samples, its slots first filled with `fill`.
    pub fn new(cap: usize, fill: T) -> (r: Self)
        ensures
            r.capacity() == cap,
            r.total() == 0,
            r@ == Seq::<T>::empty(),
    {
        let mut buf: Vec<T> = Vec::new();
        let mut i: usize = 0;
        while i < cap
            invariant
                i <= cap,
                buf@.len() == i,
            decreases cap - i,
        {
            buf.push(fill);
            i = i + 1;
        }
        let r = Ring { buf, head: 0, written: 0 };
        assert(r@ =~= Seq::<T>::empty());
        r
    }

    /// Writes one sample at the cursor and advances it.
    fn push_one(&mut self, s: T)
        requires
            old(self).capacity() > 0,
            old(self).total() < u64::MAX,
        ensures
            final(self).capacity() == old(self).capacity(),
            final(self).total() == old(self).total() + 1,
            final(self)@ == keep_last(old(self)@.push(s), old(self).capacity()),
    {
        proof {
            use_type_invariant(&*self);
        }
        let ghost old_ring = *self;
        let mut taken = Ring { buf: Vec::new(), head: 0, written: 0 };
        std::mem::swap(self, &mut taken);
        assert(taken == old_ring);
        let Ring { mut buf, head, written } = taken;
        let ghost c = buf@.len();
        assert(head < buf.len());
        buf.set(head, s);
        let new_head = (head + 1) % buf.len();
        proof {
            if head + 1 < c {
                vstd::arithmetic::div_mod::lemma_small_mod((head + 1) as nat, c as nat);
            } else {
                vstd::arithmetic::div_mod::lemma_mod_self_0(c as int);
            }
        }
        let r = Ring { buf, head: new_head, written: written + 1 };
        proof {
            let expected = keep_last(old_ring@.push(s), c as nat);
            assert(r@.len() == expected.len());
            assert forall|k: int| 0 <= k < r@.len() implies r@[k] == expected[k] by {
                if old_ring.written < c {
                    assert(r.slot(k) == k);
                } else {
                    if k + 1 < c {
                        assert(r.slot(k) == old_ring.slot(k + 1));
                    } else {
                        assert(r.slot(k) == old_ring.head);
                    }
                }
            }
            assert(r@ =~= expected);
        }
        *self = r;
    }

    /// Appends `samples`, overwriting the oldest retained ones once full.
    pub fn push(&mut self, samples: &[T])
        requires
            samples@.len() > 0 ==> old(self).capacity() > 0,
            old(self).total() + samples@.len() <= u64::MAX,
        ensures
            final(self).capacity() == old(self).capacity(),
            final(self).total() == old(self).total() + samples@.len(),
            final(self)@ == keep_last(old(self)@ + samples@, old(self).capacity()),
    {
        proof {
            use_type_invariant(&*self);
        }
        let ghost start = *self;
        let mut i: usize = 0;
        proof {
            start.lemma_view_len();
            assert(start@ + samples@.subrange(0, 0) =~= start@);
        }
        while i < samples.len()
            invariant
                i <= samples@.len(),
                samples@.len() > 0 ==> start.capacity() > 0,
                start.total() + samples@.len() <= u64::MAX,
                self.capacity() == start.capacity(),
                self.total() == start.total() + i,
                self@ == keep_last(start@ + samples@.subrange(0, i as int), start.capacity()),
            decreases samples@.len() - i,
        {
            let ghost before = self@;
            let s = samples[i];
            self.push_one(s);
            proof {
                let c = start.capacity();
                let prefix = start@ + samples@.subrange(0, i as int);
                lemma_keep_last_push(prefix, s, c);
                assert(prefix.push(s) =~= start@ + samples@.subrange(0, i + 1));
            }
            i = i + 1;
        }
        proof {
            assert(samples@.subrange(0, samples@.len() as int) =~= samples@);
        }
    }

    /// The position: how many samples were ever pushed.
    pub fn pos(&self) -> (r: u64)
        ensures
            r == self.total(),
    {
        self.written
    }

    /// Number of samples currently retained.
    fn retained(&self) -> (r: usize)
        requires
            self.wf(),
        ensures
            r == self@.len(),
    {
        proof {
            self.lemma_view_len();
        }
        let len = self.buf.len();
        if self.written < len as u64 {
            self.written as usize
        } else {
            len
        }
    }

    /// Replaces the contents of `out` with the `n` latest retained samples.
    fn copy_latest(&self, n: usize, out: &mut Vec<T>)
        requires
            self.wf(),
            n <= self@.len(),
        ensures
            final(out)@ == self@.subrange(self@.len() - n, self@.len() as int),
    {
        proof {
            self.lemma_view_len();
        }
        let len = self.buf.len();
        out.clear();
        let mut i: usize = 0;
        while i < n
            invariant
                self.wf(),
                n <= self@.len(),
                self@.len() <= len,
                len == self.capacity(),
                i <= n,
                out@ =~= self@.subrange(self@.len() - n, self@.len() - n + i),
            decreases n - i,
        {
            // Slot `(head + len - n + i) % len`, computed without overflow.
            let x = len - n + i;
            let idx = if x >= len - self.head {
                x - (len - self.head)
            } else {
                self.head + x
            };
            proof {
                assert(idx == self.slot(self@.len() - n + i));
            }
            out.push(self.buf[idx]);
            i = i + 1;
        }
    }

    /// Puts the `n` latest retained samples (fewer if fewer are retained) into
    /// `out`, oldest first, and returns how many.
    pub fn last(&self, n: usize, out: &mut Vec<T>) -> (r: usize)
        ensures
            r == if n <= self@.len() { n as nat } else { self@.len() },
            final(out)@ == self.last_view(n as nat),
            final(out)@.len() == r,
    {
        proof {
            use_type_invariant(self);
        }
        let avail = self.retained();
        let m = if n < avail { n } else { avail };
        self.copy_latest(m, out);
        proof {
            assert(self@.subrange(self@.len() - m, self@.len() as int) =~= self.last_view(n as nat));
        }
        m
    }

    /// Puts the retained samples pushed at position `from` or later into `out`,
    /// oldest first, and returns how many. Samples older than the retained ones
    /// are lost and are not counted.
    pub fn since(&self, from: u64, out: &mut Vec<T>) -> (r: usize)
        requires
            from <= self.total(),
        ensures
            r == self.since_view(from as nat).len(),
            final(out)@ == self.since_view(from as nat),
    {
        proof {
            use_type_invariant(self);
            self.lemma_view_len();
        }
        let avail = self.retained();
        let start = self.written - avail as u64;
        let first = if from > start { from } else { start };
        let n = (self.written - first) as usize;
        self.copy_latest(n, out);
        proof {
            assert(self@.subrange(self@.len() - n, self@.len() as int) =~= self.since_view(from as nat));
        }
        n
    }
}

/// A ring never retains more than its capacity, nor more than was pushed; it
/// retains exactly the smaller of the two.
pub proof fn law_retains_min_of_total_and_capacity<T>(r: Ring<T>)
    ensures
        r@.len() <= r.capacity(),
        r@.len() <= r.total(),
        r@.len() == r.capacity() || r@.len() == r.total(),
{
    r.lemma_view_len();
}

/// After pushing `s`, asking for the `n` latest samples gives back the last `n`
/// of `s`, as long as `n` fits both in `s` and in the capacity.
pub proof fn law_last_after_push<T>(before: Ring<T>, after: Ring<T>, s: Seq<T>, n: nat)
    requires
        after.capacity() == before.capacity(),
        after.total() == before.total() + s.len(),
        after@ == keep_last(before@ + s, before.capacity()),
        n <= s.len(),
        n <= before.capacity(),
    ensures
        after.last_view(n) == keep_last(s, n),
{
    before.lemma_view_len();
    after.lemma_view_len();
    let c = before.capacity();
    let all = before@ + s;
    assert(keep_last(keep_last(all, c), n) =~= keep_last(s, n));
}

/// After pushing `s`, asking for the samples since the position read before the
/// push gives back `s`, less any of its samples that did not fit in the ring.
pub proof fn law_since_after_push<T>(before: Ring<T>, after: Ring<T>, s: Seq<T>)
    requires
        after.capacity() == before.capacity(),
        after.total() == before.total() + s.len(),
        after@ == keep_last(before@ + s, before.capacity()),
    ensures
        after.since_view(before.total()) == keep_last(s, before.capacity()),
{
    before.lemma_view_len();
    after.lemma_view_len();
    let c = before.capacity();
    let all = before@ + s;
    assert(after.since_view(before.total()) =~= keep_last(s, c));
}

/// Nothing was pushed since the current position.
pub proof fn law_since_now_is_empty<T>(r: Ring<T>)
    ensures
        r.since_view(r.total()) == Seq::<T>::empty(),
{
    r.lemma_view_len();
    assert(r.since_view(r.total()) =~= Seq::<T>::empty());
}

/// Pushing `a` and then `b` leaves the ring as pushing `a` followed by `b` at
/// once: the same retained samples and a position that grew by both lengths,
/// never going back.
pub proof fn law_two_pushes_are_one<T>(r0: Ring<T>, r1: Ring<T>, r2: Ring<T>, a: Seq<T>, b: Seq<T>)
    requires
        r1.capacity() == r0.capacity(),
        r1.total() == r0.total() + a.len(),
        r1@ == keep_last(r0@ + a, r0.capacity()),
        r2.capacity() == r1.capacity(),
        r2.total() == r1.total() + b.len(),
        r2@ == keep_last(r1@ + b, r1.capacity()),
    ensures
        r2@ == keep_last(r0@ + (a + b), r0.capacity()),
        r2.total() == r0.total() + (a + b).len(),
        r0.total() <= r1.total() <= r2.total(),
{
    let c = r0.capacity();
    let x = r0@ + a;
    let lhs = keep_last(keep_last(x, c) + b, c);
    let rhs = keep_last(r0@ + (a + b), c);
    assert(r0@ + (a + b) =~= x + b);
    assert(lhs =~= rhs);
}

/// Whether capture has started: a capture ring exists.
pub fn is_started<T>(capture: Option<&Ring<T>>) -> (r: bool)
    ensures
        r == capture.is_some(),
{
    capture.is_some()
}

/// The capture position, once capture has started.
pub fn pos<T: Copy>(capture: Option<&Ring<T>>) -> (r: Option<u64>)
    ensures
        r == match capture {
            Some(c) => Some(c.total() as u64),
            None => None::<u64>,
        },
{
    match capture {
        Some(c) => Some(c.pos()),
        None => None,
    }
}

/// Puts the `n` latest captured samples into `out` and returns how many; none
/// before capture has started (then `out` is left as it was).
pub fn window<T: Copy>(capture: Option<&Ring<T>>, n: usize, out: &mut Vec<T>) -> (r: usize)
    ensures
        match capture {
            Some(c) => {
                &&& final(out)@ == c.last_view(n as nat)
                &&& r == final(out)@.len()
            },
            None => r == 0 && final(out)@ == old(out)@,
        },
{
    match capture {
        Some(c) => c.last(n, out),
        None => 0,
    }
}

/// Puts the captured samples from position `from` on into `out` and returns how
/// many; none before capture has started (then `out` is left as it was).
pub fn since<T: Copy>(capture: Option<&Ring<T>>, from: u64, out: &mut Vec<T>) -> (r: usize)
    requires
        capture matches Some(c) ==> from <= c.total(),
    ensures
        match capture {
            Some(c) => {
                &&& final(out)@ == c.since_view(from as nat)
                &&& r == final(out)@.len()
            },
            None => r == 0 && final(out)@ == old(out)@,
        },
{
    match capture {
        Some(c) => c.since(from, out),
        None => 0,
    }
}

} // verus!
