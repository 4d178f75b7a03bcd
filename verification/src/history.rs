use vstd::prelude::*;

verus! {

/// `x` reduced into `0..cap`, for `x < 2 * cap`.
pub open spec fn wrap(x: int, cap: int) -> int {
    if x < cap {
        x
    } else {
        x - cap
    }
}

/// The contents of a buffer of capacity `cap` after `v` is pushed onto
/// contents `s`: `v` is appended and, when the buffer was full, the oldest
/// entry is dropped.
pub open spec fn ring_push<T>(s: Seq<T>, cap: nat, v: T) -> Seq<T> {
    if s.len() < cap {
        s.push(v)
    } else {
        s.push(v).drop_first()
    }
}

/// The most recent `min(len, cap)` entries of `s`.
pub open spec fn keep_recent<T>(s: Seq<T>, cap: nat) -> Seq<T> {
    if s.len() <= cap {
        s
    } else {
        s.subrange(s.len() - cap, s.len() as int)
    }
}

/// The capacity a buffer gets when `requested` entries are asked for: at least one.
pub open spec fn effective_capacity(requested: nat) -> nat {
    if requested == 0 {
        1
    } else {
        requested
    }
}

/// Fixed-size circular buffer for time-series graph data.
/// When full, the oldest entries are overwritten.
pub struct RingBuffer<T> {
    data: Vec<T>,
    capacity: usize,
    start: usize,
    len: usize,
}

impl<T> RingBuffer<T> {
    /// The buffer's internal consistency: the storage has exactly `capacity`
    /// slots, at least one, and the stored run starts inside it.
    pub closed spec fn wf(self) -> bool {
        &&& self.capacity >= 1
        &&& self.data@.len() == self.capacity
        &&& self.start < self.capacity
        &&& self.len <= self.capacity
    }

    /// The number of entries the buffer holds before it starts overwriting.
    pub closed spec fn max_len(self) -> nat {
        self.capacity as nat
    }

    /// The stored entries, oldest first.
    pub closed spec fn contents(self) -> Seq<T> {
        Seq::new(
            self.len as nat,
            |i: int| self.data@[wrap(self.start + i, self.capacity as int)],
        )
    }
}

impl<T> View for RingBuffer<T> {
    type V = Seq<T>;

    open spec fn view(&self) -> Seq<T> {
        self.contents()
    }
}

impl<T: Clone + Default> RingBuffer<T> {
    /// An empty buffer holding up to `capacity` entries (at least one).
    pub fn new(capacity: usize) -> (r: Self)
        ensures
            r.wf(),
            r@ == Seq::<T>::empty(),
            r.max_len() == effective_capacity(capacity as nat),
    {
        let cap = if capacity == 0 {
            1
        } else {
            capacity
        };
        let mut data: Vec<T> = Vec::new();
        while data.len() < cap
            invariant
                data@.len() <= cap,
            decreases cap - data@.len(),
        {
            data.push(T::default());
        }
        let r = RingBuffer { data, capacity: cap, start: 0, len: 0 };
        assert(r.contents() =~= Seq::<T>::empty());
        r
    }

    /// Appends `value`, overwriting the oldest entry when the buffer is full.
    pub fn push(&mut self, value: T)
        requires
            old(self).wf(),
        ensures
            final(self).wf(),
            final(self)@ == ring_push(old(self)@, old(self).max_len(), value),
            final(self).max_len() == old(self).max_len(),
    {
        let cap = self.capacity;
        let room = cap - self.start;
        let idx = if self.len < room {
            self.start + self.len
        } else {
            self.len - room
        };
        let ghost old_contents = self.contents();
        self.data.set(idx, value);
        if self.len < cap {
            self.len = self.len + 1;
        } else {
            self.start = if self.start < cap - 1 {
                self.start + 1
            } else {
                0
            };
        }
        proof {
            let s = ring_push(old_contents, cap as nat, value);
            assert(self.contents() =~= s);
        }
    }

    /// The entries, oldest first.
    pub fn iter_ordered(&self) -> (r: Vec<&T>)
        requires
            self.wf(),
        ensures
            r@.len() == self@.len(),
            forall|i: int| 0 <= i < r@.len() ==> *r@[i] == self@[i],
    {
        let mut out: Vec<&T> = Vec::new();
        let mut i: usize = 0;
        while i < self.len
            invariant
                i <= self.len,
                self.len <= self.capacity,
                self.start < self.capacity,
                self.data@.len() == self.capacity,
                out@.len() == i,
                forall|j: int| 0 <= j < i ==> *out@[j] == self@[j],
            decreases self.len - i,
        {
            let room = self.capacity - self.start;
            let idx = if i < room {
                self.start + i
            } else {
                i - room
            };
            out.push(&self.data[idx]);
            i = i + 1;
        }
        out
    }

    /// The most recently pushed entry, if any.
    pub fn latest(&self) -> (r: Option<&T>)
        requires
            self.wf(),
        ensures
            r is None <==> self@.len() == 0,
            r matches Some(x) ==> *x == self@.last(),
    {
        if self.len == 0 {
            None
        } else {
            let room = self.capacity - self.start;
            let back = self.len - 1;
            let idx = if back < room {
                self.start + back
            } else {
                back - room
            };
            Some(&self.data[idx])
        }
    }

    /// Number of stored entries.
    pub fn len(&self) -> (r: usize)
        ensures
            r == self@.len(),
    {
        self.len
    }

    /// Whether nothing is stored.
    pub fn is_empty(&self) -> (r: bool)
        ensures
            r == (self@.len() == 0),
    {
        self.len == 0
    }

    /// The number of entries held before the oldest is overwritten.
    pub fn capacity(&self) -> (r: usize)
        ensures
            r == self.max_len(),
    {
        self.capacity
    }

    /// Changes the capacity (to at least one), keeping the most recent entries that fit.
    pub fn resize(&mut self, new_capacity: usize)
        requires
            old(self).wf(),
        ensures
            final(self).wf(),
            final(self)@ == keep_recent(old(self)@, effective_capacity(new_capacity as nat)),
            final(self).max_len() == effective_capacity(new_capacity as nat),
    {
        let ghost before = self@;
        let cap = if new_capacity == 0 {
            1
        } else {
            new_capacity
        };
        let mut data: Vec<T> = Vec::new();
        std::mem::swap(&mut data, &mut self.data);
        let start = self.start;
        let len = self.len;
        let ghost slots = data@;
        let mut ordered = data.split_off(start);
        ordered.append(&mut data);
        assert forall|i: int| 0 <= i < len implies ordered@[i] == before[i] by {
            assert(before[i] == slots[wrap(start + i, slots.len() as int)]);
        }
        ordered.truncate(len);
        let skip = if len > cap {
            len - cap
        } else {
            0
        };
        let mut kept = ordered.split_off(skip);
        let n = kept.len();
        assert(kept@ =~= keep_recent(before, effective_capacity(new_capacity as nat)));
        let ghost recent = kept@;
        while kept.len() < cap
            invariant
                n <= kept@.len() <= cap,
                kept@.subrange(0, n as int) == recent,
                recent.len() == n,
            decreases cap - kept@.len(),
        {
            kept.push(T::default());
            assert(kept@.subrange(0, n as int) =~= recent);
        }
        self.data = kept;
        self.capacity = cap;
        self.start = 0;
        self.len = n;
        assert(self.contents() =~= recent);
    }
}

/// Keeps one history per core: when the number of histories differs from
/// the number of cores, every core gets a fresh empty history of `capacity`
/// entries; otherwise the histories stay as they are.
pub fn match_core_count<T: Clone + Default>(
    histories: &mut Vec<RingBuffer<T>>,
    cores: usize,
    capacity: usize,
)
    ensures
        old(histories)@.len() == cores ==> final(histories)@ == old(histories)@,
        old(histories)@.len() != cores ==> final(histories)@.len() == cores && forall|i: int|
            0 <= i < cores ==> (#[trigger] final(histories)@[i]).wf() && final(histories)@[i]@
                == Seq::<T>::empty() && final(histories)@[i].max_len() == effective_capacity(
                capacity as nat,
            ),
{
    if histories.len() == cores {
        return;
    }
    let mut fresh: Vec<RingBuffer<T>> = Vec::new();
    let mut i: usize = 0;
    while i < cores
        invariant
            i <= cores,
            fresh@.len() == i,
            forall|j: int|
                0 <= j < i ==> (#[trigger] fresh@[j]).wf() && fresh@[j]@ == Seq::<T>::empty()
                    && fresh@[j].max_len() == effective_capacity(capacity as nat),
        decreases cores - i,
    {
        fresh.push(RingBuffer::new(capacity));
        i = i + 1;
    }
    *histories = fresh;
}

/// Resizes every history to `capacity` (at least one), each keeping its most
/// recent entries.
pub fn resize_all<T: Clone + Default>(histories: &mut Vec<RingBuffer<T>>, capacity: usize)
    requires
        forall|i: int| 0 <= i < old(histories)@.len() ==> (#[trigger] old(histories)@[i]).wf(),
    ensures
        final(histories)@.len() == old(histories)@.len(),
        forall|i: int|
            0 <= i < final(histories)@.len() ==> (#[trigger] final(histories)@[i]).wf()
                && final(histories)@[i]@ == keep_recent(
                old(histories)@[i]@,
                effective_capacity(capacity as nat),
            ) && final(histories)@[i].max_len() == effective_capacity(capacity as nat),
{
    let ghost orig = histories@;
    let mut rest: Vec<RingBuffer<T>> = Vec::new();
    std::mem::swap(&mut rest, histories);
    let n = rest.len();
    let mut done: Vec<RingBuffer<T>> = Vec::new();
    let mut k: usize = 0;
    assert(orig.skip(0) =~= orig);
    while k < n
        invariant
            n == orig.len(),
            k <= n,
            rest@ == orig.skip(k as int),
            forall|i: int| 0 <= i < orig.len() ==> (#[trigger] orig[i]).wf(),
            done@.len() == k,
            forall|i: int|
                0 <= i < k ==> (#[trigger] done@[i]).wf() && done@[i]@ == keep_recent(
                    orig[i]@,
                    effective_capacity(capacity as nat),
                ) && done@[i].max_len() == effective_capacity(capacity as nat),
        decreases n - k,
    {
        assert(rest@.len() > 0);
        let mut h = rest.remove(0);
        assert(h == orig[k as int]);
        assert(rest@ =~= orig.skip(k + 1));
        h.resize(capacity);
        done.push(h);
        k = k + 1;
    }
    *histories = done;
}

/// Pushes `values[i]` onto history `i`, for every history.
pub fn push_each<T: Clone + Default>(histories: &mut Vec<RingBuffer<T>>, values: Vec<T>)
    requires
        values@.len() == old(histories)@.len(),
        forall|i: int| 0 <= i < old(histories)@.len() ==> (#[trigger] old(histories)@[i]).wf(),
    ensures
        final(histories)@.len() == old(histories)@.len(),
        forall|i: int|
            0 <= i < final(histories)@.len() ==> (#[trigger] final(histories)@[i]).wf()
                && final(histories)@[i]@ == ring_push(
                old(histories)@[i]@,
                old(histories)@[i].max_len(),
                values@[i],
            ) && final(histories)@[i].max_len() == old(histories)@[i].max_len(),
{
    let ghost orig = histories@;
    let ghost vals = values@;
    let mut rest: Vec<RingBuffer<T>> = Vec::new();
    std::mem::swap(&mut rest, histories);
    let mut vs = values;
    let n = rest.len();
    let mut done: Vec<RingBuffer<T>> = Vec::new();
    let mut k: usize = 0;
    assert(orig.skip(0) =~= orig);
    assert(vals.skip(0) =~= vals);
    while k < n
        invariant
            n == orig.len() == vals.len(),
            k <= n,
            rest@ == orig.skip(k as int),
            vs@ == vals.skip(k as int),
            forall|i: int| 0 <= i < orig.len() ==> (#[trigger] orig[i]).wf(),
            done@.len() == k,
            forall|i: int|
                0 <= i < k ==> (#[trigger] done@[i]).wf() && done@[i]@ == ring_push(
                    orig[i]@,
                    orig[i].max_len(),
                    vals[i],
                ) && done@[i].max_len() == orig[i].max_len(),
        decreases n - k,
    {
        assert(rest@.len() > 0 && vs@.len() > 0);
        let mut h = rest.remove(0);
        let v = vs.remove(0);
        assert(h == orig[k as int]);
        assert(v == vals[k as int]);
        assert(rest@ =~= orig.skip(k + 1));
        assert(vs@ =~= vals.skip(k + 1));
        h.push(v);
        done.push(h);
        k = k + 1;
    }
    *histories = done;
}

/// The contents after pushing each of `vs`, in order, onto contents `s`.
pub open spec fn ring_push_all<T>(s: Seq<T>, cap: nat, vs: Seq<T>) -> Seq<T>
    decreases vs.len(),
{
    if vs.len() == 0 {
        s
    } else {
        ring_push_all(ring_push(s, cap, vs[0]), cap, vs.drop_first())
    }
}

/// One push keeps the most recent entries that fit: pushing `v` onto
/// contents `s` of a buffer of capacity `cap` leaves the last `cap` entries
/// of `s` followed by `v`.
pub proof fn law_push_keeps_recent<T>(s: Seq<T>, cap: nat, v: T)
    requires
        cap >= 1,
        s.len() <= cap,
    ensures
        ring_push(s, cap, v) == keep_recent(s.push(v), cap),
        ring_push(s, cap, v).len() <= cap,
        ring_push(s, cap, v).last() == v,
{
    if s.len() < cap {
    } else {
        assert(s.push(v).drop_first() =~= s.push(v).subrange(s.push(v).len() - cap, s.push(v).len() as int));
    }
}

/// A buffer of capacity `cap` that starts empty and receives the values
/// `vs` holds exactly the last `min(|vs|, cap)` of them, oldest first.
pub proof fn law_history_holds_latest<T>(cap: nat, vs: Seq<T>)
    requires
        cap >= 1,
    ensures
        ring_push_all(Seq::<T>::empty(), cap, vs) == keep_recent(vs, cap),
{
    lemma_push_all_from(Seq::<T>::empty(), cap, vs);
    assert(Seq::<T>::empty() + vs =~= vs);
}

proof fn lemma_push_all_from<T>(s: Seq<T>, cap: nat, vs: Seq<T>)
    requires
        cap >= 1,
        s.len() <= cap,
    ensures
        ring_push_all(s, cap, vs) == keep_recent(s + vs, cap),
    decreases vs.len(),
{
    if vs.len() == 0 {
        assert(s + vs =~= s);
    } else {
        law_push_keeps_recent(s, cap, vs[0]);
        let s1 = ring_push(s, cap, vs[0]);
        lemma_push_all_from(s1, cap, vs.drop_first());
        let whole = s + vs;
        let t = s.push(vs[0]) + vs.drop_first();
        assert(t =~= whole);
        // keep_recent of a concatenation only depends on the kept part of the prefix.
        let u = keep_recent(s.push(vs[0]), cap);
        assert(keep_recent(u + vs.drop_first(), cap) =~= keep_recent(whole, cap)) by {
            let a = s.push(vs[0]);
            let r = vs.drop_first();
            if a.len() > cap {
                assert(u =~= a.subrange(a.len() - cap, a.len() as int));
            }
        }
    }
}

/// Resizing to the current capacity or more loses nothing; shrinking keeps
/// the most recent entries.
pub proof fn law_resize_keeps_recent<T>(s: Seq<T>, new_cap: nat)
    ensures
        s.len() <= effective_capacity(new_cap) ==> keep_recent(s, effective_capacity(new_cap)) == s,
        keep_recent(s, effective_capacity(new_cap)).len() <= effective_capacity(new_cap),
        forall|i: int|
            0 <= i < keep_recent(s, effective_capacity(new_cap)).len() ==> #[trigger] keep_recent(
                s,
                effective_capacity(new_cap),
            )[i] == s[s.len() - keep_recent(s, effective_capacity(new_cap)).len() + i],
{
}

/// A buffer never holds more entries than its capacity, and its capacity is at least one.
pub proof fn law_len_within_capacity<T>(rb: RingBuffer<T>)
    requires
        rb.wf(),
    ensures
        rb@.len() <= rb.max_len(),
        rb.max_len() >= 1,
{
}

} // verus!
