//! A hashed timer wheel: a ring of slots, each `resolution` cycles long,
//! holding the tokens whose timeout falls into it.
use vstd::prelude::*;

verus! {

pub struct TimerWheel<T> {
    slots: Vec<Vec<T>>,
    resolution: u64,
    start: u64,
    /// Absolute number of the next slot to expire; slot `k` lives at ring
    /// position `k % slots.len()`.
    next: u64,
}

/// The tokens of absolute slots `from..to` of the ring `s`, in slot order.
pub open spec fn collected<T>(s: Seq<Seq<T>>, from: int, to: int) -> Seq<T>
    decreases to - from,
{
    if to <= from {
        Seq::empty()
    } else {
        collected(s, from, to - 1) + s[(to - 1) % s.len() as int]
    }
}

/// The ring position of absolute slot `k` in a ring of `n` slots.
pub open spec fn ring_pos(k: int, n: int) -> int {
    k % n
}

impl<T> TimerWheel<T> {
    pub closed spec fn wf(&self) -> bool {
        &&& self.slots@.len() > 0
        &&& self.resolution > 0
        &&& self.next * self.resolution + self.start <= u64::MAX
    }

    /// The tokens held by each ring position.
    pub closed spec fn ring(&self) -> Seq<Seq<T>> {
        self.slots@.map_values(|v: Vec<T>| v@)
    }

    pub closed spec fn next_slot(&self) -> int {
        self.next as int
    }

    pub closed spec fn spec_resolution(&self) -> int {
        self.resolution as int
    }

    /// The cycle count at which absolute slot `k` expires.
    pub closed spec fn deadline(&self, k: int) -> int {
        self.start + (k + 1) * self.resolution
    }

    /// The cycle count at which the next slot expires; nothing is released before it.
    pub open spec fn next_deadline(&self) -> int {
        self.deadline(self.next_slot())
    }

    /// The absolute slot that covers `now + delay`, held between the next
    /// slot and one turn of the ring ahead.
    pub closed spec fn slot_for(&self, delay: u64, now: u64) -> int {
        let t = if now + delay > self.start {
            (now + delay - self.start) / self.resolution as int
        } else {
            0
        };
        if t < self.next {
            self.next as int
        } else if t >= self.next + self.slots@.len() {
            self.next + self.slots@.len() - 1
        } else {
            t
        }
    }

    fn deadline_at(&self, k: u64) -> (r: u128)
        ensures
            r == self.deadline(k as int),
    {
        let a: u128 = k as u128 + 1;
        let b: u128 = self.resolution as u128;
        assert(a * b <= 0x1_0000_0000_0000_0000 * 0xffff_ffff_ffff_ffffu128) by (nonlinear_arith)
            requires
                a <= 0x1_0000_0000_0000_0000,
                b <= 0xffff_ffff_ffff_ffff,
        ;
        a * b + self.start as u128
    }

    pub fn new(n_slots: usize, resolution: u64, now: u64) -> (r: TimerWheel<T>)
        requires
            n_slots > 0,
            n_slots < u64::MAX,
            resolution > 0,
        ensures
            r.wf(),
            r.ring().len() == n_slots,
            forall|i: int| 0 <= i < n_slots ==> #[trigger] r.ring()[i].len() == 0,
            r.next_slot() == 0,
            r.spec_resolution() == resolution,
            r.next_deadline() == now + resolution,
    {
        let mut slots: Vec<Vec<T>> = Vec::new();
        let mut i: usize = 0;
        while i < n_slots
            invariant
                i <= n_slots,
                slots@.len() == i,
                forall|k: int| 0 <= k < i ==> #[trigger] slots@[k]@.len() == 0,
            decreases n_slots - i,
        {
            slots.push(Vec::new());
            i = i + 1;
        }
        let r = TimerWheel { slots, resolution, start: now, next: 0 };
        assert forall|i: int| 0 <= i < n_slots implies #[trigger] r.ring()[i].len() == 0 by {}
        assert(r.deadline(0) == now + resolution);
        r
    }

    pub fn resolution(&self) -> (r: u64)
        ensures
            r == self.spec_resolution(),
    {
        self.resolution
    }

    /// Schedules `token` to expire `delay` cycles after `now`: in the slot
    /// that covers that instant, but no earlier than the next slot and no later
    /// than one turn of the ring ahead.
    pub fn schedule(&mut self, delay: u64, now: u64, token: T)
        requires
            old(self).wf(),
        ensures
            final(self).wf(),
            final(self).next_slot() == old(self).next_slot(),
            final(self).next_deadline() == old(self).next_deadline(),
            final(self).ring().len() == old(self).ring().len(),
            old(self).next_slot() <= old(self).slot_for(delay, now) < old(self).next_slot() + old(self).ring().len(),
            final(self).ring() == old(self).ring().update(
                old(self).slot_for(delay, now) % old(self).ring().len() as int,
                old(self).ring()[old(self).slot_for(delay, now) % old(self).ring().len() as int].push(token),
            ),
    {
        let n = self.slots.len() as u64;
        let at: u128 = now as u128 + delay as u128;
        let target: u128 = if at > self.start as u128 {
            (at - self.start as u128) / self.resolution as u128
        } else {
            0
        };
        let k: u128 = if target < self.next as u128 {
            self.next as u128
        } else if target >= self.next as u128 + n as u128 {
            self.next as u128 + n as u128 - 1
        } else {
            target
        };
        let pos: u128 = k % (n as u128);
        assert(n == self.slots.len());
        let i = pos as usize;
        let ghost ring = self.ring();
        let mut slot: Vec<T> = Vec::new();
        std::mem::swap(&mut self.slots[i], &mut slot);
        slot.push(token);
        std::mem::swap(&mut self.slots[i], &mut slot);
        assert(self.ring() =~= ring.update(k as int % ring.len() as int, ring[k as int % ring.len() as int].push(token)));
    }

    /// What `release(now)` does: `w0` becomes `w1` and hands out `r`.
    pub open spec fn released(w0: TimerWheel<T>, w1: TimerWheel<T>, now: u64, r: Seq<T>) -> bool {
        &&& w1.wf()
        &&& w1.ring().len() == w0.ring().len()
        &&& w0.next_slot() <= w1.next_slot() <= w0.next_slot() + w0.ring().len()
        &&& forall|k: int|
            w0.next_slot() <= k < w1.next_slot() ==> #[trigger] w0.deadline(k) <= now
        &&& w1.next_slot() < w0.next_slot() + w0.ring().len() ==> now < w1.next_deadline()
        &&& r == collected(w0.ring(), w0.next_slot(), w1.next_slot())
        &&& now < w0.next_deadline() ==> r.len() == 0 && w1.ring() == w0.ring()
            && w1.next_slot() == w0.next_slot()
        &&& w1.spec_resolution() == w0.spec_resolution()
        &&& forall|k: int| #![auto] w1.deadline(k) == w0.deadline(k)
        &&& forall|i: int|
            0 <= i < w0.ring().len() ==> #[trigger] w1.ring()[i] == (if exists|k: int|
                w0.next_slot() <= k < w1.next_slot() && #[trigger] ring_pos(k, w0.ring().len() as int) == i {
                Seq::empty()
            } else {
                w0.ring()[i]
            })
    }

    /// Removes and returns the tokens of every slot that has expired by
    /// `now`, oldest slot first, at most one turn of the ring.
    pub fn release(&mut self, now: u64) -> (r: Vec<T>)
        requires
            old(self).wf(),
        ensures
            TimerWheel::released(*old(self), *final(self), now, r@),
    {
        let n = self.slots.len() as u64;
        let ghost ring0 = self.ring();
        let ghost next0 = self.next as int;
        let mut r: Vec<T> = Vec::new();
        let mut drained: u64 = 0;
        while drained < n && self.deadline_at(self.next) <= now as u128
            invariant
                self.wf(),
                n == self.slots@.len(),
                ring0.len() == n,
                drained <= n,
                self.next == next0 + drained,
                self.start == old(self).start,
                self.resolution == old(self).resolution,
                forall|k: int| next0 <= k < self.next ==> #[trigger] old(self).deadline(k) <= now,
                drained > 0 ==> old(self).deadline(next0) <= now,
                r@ == collected(ring0, next0, self.next as int),
                forall|i: int|
                    0 <= i < n ==> #[trigger] self.ring()[i] == (if exists|k: int|
                        next0 <= k < self.next && #[trigger] ring_pos(k, n as int) == i {
                        Seq::empty()
                    } else {
                        ring0[i]
                    }),
            decreases n - drained,
        {
            let pos: u64 = self.next % n;
            assert(pos < n);
            assert(n == self.slots.len());
            let i = pos as usize;
            assert(i == ring_pos(self.next as int, n as int));
            let ghost before = self.ring();
            let mut slot: Vec<T> = Vec::new();
            std::mem::swap(&mut self.slots[i], &mut slot);
            assert(!exists|k: int| next0 <= k < self.next && #[trigger] ring_pos(k, n as int) == i) by {
                assert forall|k: int| next0 <= k < self.next implies #[trigger] ring_pos(k, n as int) != i by {
                    let nx = self.next as int;
                    let nn = n as int;
                    assert(k % nn != nx % nn) by (nonlinear_arith)
                        requires
                            nx - nn < k < nx,
                            nn > 0,
                    {
                        assert(k == nn * (k / nn) + k % nn);
                        assert(nx == nn * (nx / nn) + nx % nn);
                        if k % nn == nx % nn {
                            assert(nx - k == nn * (nx / nn - k / nn));
                        }
                    }
                }
            }
            assert(slot@ == before[i as int]);
            assert(slot@ == ring0[i as int]);
            assert(self.deadline(self.next as int) <= now);
            let ghost nx = self.next as int;
            let ghost rs = self.resolution as int;
            assert(nx + 1 <= (nx + 1) * rs) by (nonlinear_arith)
                requires
                    rs >= 1,
                    nx >= 0,
            ;
            r.append(&mut slot);
            self.next = self.next + 1;
            drained = drained + 1;
            assert forall|i2: int| 0 <= i2 < n implies #[trigger] self.ring()[i2] == (if exists|k: int|
                next0 <= k < self.next && #[trigger] ring_pos(k, n as int) == i2 {
                Seq::empty()
            } else {
                ring0[i2]
            }) by {
                if i2 == i {
                    assert(next0 <= self.next - 1 < self.next && ring_pos(self.next - 1, n as int) == i2);
                } else {
                    assert(self.ring()[i2] == before[i2]);
                    if exists|k: int| next0 <= k < self.next && #[trigger] ring_pos(k, n as int) == i2 {
                        let k = choose|k: int| next0 <= k < self.next && #[trigger] ring_pos(k, n as int) == i2;
                        assert(k != self.next - 1);
                    }
                }
            }
            assert(old(self).deadline(self.next - 1) <= now);
        }
        proof {
            if now < old(self).next_deadline() {
                assert(old(self).next_deadline() == old(self).deadline(next0));
                assert(drained == 0);
                assert(self.ring() =~= ring0);
            }
        }
        r
    }
}

} // verus!
