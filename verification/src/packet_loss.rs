//! The ring of the latest packet-loss samples of a neighbor.
use vstd::prelude::*;

verus! {

/// The last `window_size` samples, overwritten in turn once the window is
/// full.
pub struct PacketLossRing<T> {
    buffer: Vec<T>,
    cursor: usize,
    window_size: usize,
}

/// The ring after recording each of `values` in turn, from an empty ring of
/// the given window: its samples and its cursor.
pub open spec fn ring_after<T>(window: nat, values: Seq<T>) -> (Seq<T>, nat)
    decreases values.len(),
{
    if values.len() == 0 {
        (Seq::empty(), 0)
    } else {
        let (buf, cur) = ring_after(window, values.drop_last());
        let v = values.last();
        let buf2 = if buf.len() < window { buf.push(v) } else { buf.update(cur as int, v) };
        (buf2, ((cur as int + 1) % (window as int)) as nat)
    }
}

impl<T: Copy> PacketLossRing<T> {
    pub closed spec fn samples(&self) -> Seq<T> {
        self.buffer@
    }

    pub closed spec fn cursor(&self) -> nat {
        self.cursor as nat
    }

    pub closed spec fn window(&self) -> nat {
        self.window_size as nat
    }

    /// The ring is consistent: it never holds more than its window, and
    /// until the window is full the cursor is where the next sample goes.
    pub closed spec fn wf(&self) -> bool {
        &&& self.buffer@.len() <= self.window_size
        &&& self.window_size > 0 ==> self.cursor < self.window_size
        &&& self.window_size == 0 ==> self.cursor == 0
        &&& self.buffer@.len() < self.window_size ==> self.cursor == self.buffer@.len()
    }

    /// An empty ring holding at most `window_size` samples.
    pub fn new(window_size: usize) -> (r: Self)
        ensures
            r.wf(),
            r.samples() == Seq::<T>::empty(),
            r.cursor() == 0,
            r.window() == window_size,
    {
        PacketLossRing { buffer: Vec::new(), cursor: 0, window_size }
    }

    /// Record a sample: appended while the window is not full, else written
    /// over the oldest one.
    pub fn update(&mut self, value: T)
        requires
            old(self).wf(),
            old(self).window() > 0,
        ensures
            final(self).wf(),
            final(self).window() == old(self).window(),
            final(self).samples() == if old(self).samples().len() < old(self).window() {
                old(self).samples().push(value)
            } else {
                old(self).samples().update(old(self).cursor() as int, value)
            },
            final(self).cursor() as int == (old(self).cursor() as int + 1) % (old(self).window() as int),
    {
        if self.buffer.len() < self.window_size {
            self.buffer.push(value);
        } else {
            self.buffer.set(self.cursor, value);
        }
        let next = self.cursor + 1;
        assert(next as int % self.window_size as int == if next == self.window_size { 0 } else { next as int }) by (nonlinear_arith)
            requires
                1 <= next <= self.window_size,
        ;
        self.cursor = next % self.window_size;
    }

    /// The samples held, in the order of their slots.
    pub fn samples_held(&self) -> (r: &Vec<T>)
        ensures
            r@ == self.samples(),
    {
        &self.buffer
    }
}

/// After `n` samples the cursor is at `n` modulo the window, the ring holds
/// the smaller of `n` and the window, and each slot `p` holds the latest
/// sample whose position is `p` modulo the window.
pub proof fn law_ring_keeps_latest<T>(window: nat, values: Seq<T>)
    requires
        window > 0,
    ensures
        ring_after(window, values).1 as int == (values.len() as int) % (window as int),
        ring_after(window, values).0.len() == (if values.len() < window { values.len() } else { window }),
        forall|p: int| 0 <= p < ring_after(window, values).0.len() ==>
            #[trigger] ring_after(window, values).0[p] == values[p + (window as int) * ((values.len() - 1 - p) / (window as int))],
    decreases values.len(),
{
    if values.len() > 0 {
        let prev = values.drop_last();
        law_ring_keeps_latest(window, prev);
        let n = values.len() as int;
        let w = window as int;
        let (buf, cur) = ring_after(window, prev);
        let buf2 = ring_after(window, values).0;
        assert(cur as int == (n - 1) % w);
        assert((cur as int + 1) % w == n % w) by (nonlinear_arith)
            requires
                cur as int == (n - 1) % w,
                w > 0,
                n >= 1,
        ;
        if buf.len() < w {
            assert(prev.len() == buf.len());
            vstd::arithmetic::div_mod::lemma_small_mod((n - 1) as nat, w as nat);
            assert(cur as int == buf.len());
        }
        assert(cur < w) by {
            vstd::arithmetic::div_mod::lemma_mod_bound(n - 1, w);
        }
        assert(values.last() == values[n - 1]);
        assert forall|p: int| 0 <= p < buf2.len() implies #[trigger] buf2[p] == values[p + w * ((n - 1 - p) / w)] by {
            if p == cur as int {
                assert(p == (n - 1) % w);
                assert((n - 1 - p) % w == 0) by (nonlinear_arith)
                    requires
                        p == (n - 1) % w,
                        w > 0,
                ;
                assert(p + w * ((n - 1 - p) / w) == n - 1) by (nonlinear_arith)
                    requires
                        (n - 1 - p) % w == 0,
                        w > 0,
                ;
            } else {
                assert(p < buf.len());
                assert(buf2[p] == buf[p]);
                assert(p < n - 1);
                assert(p + w * ((n - 2 - p) / w) == p + w * ((n - 1 - p) / w)) by (nonlinear_arith)
                    requires
                        0 <= p < w,
                        p != (n - 1) % w,
                        n >= 1,
                        w > 0,
                ;
                assert(p + w * ((n - 2 - p) / w) < n - 1) by (nonlinear_arith)
                    requires
                        0 <= p < w,
                        p != (n - 1) % w,
                        n >= 1,
                        w > 0,
                        p < n - 1,
                ;
                assert(values[p + w * ((n - 1 - p) / w)] == prev[p + w * ((n - 2 - p) / w)]);
            }
        }
    }
}

} // verus!
