//! A bounded buffer of mono samples waiting to be played: pushing past the
//! capacity drops the oldest samples, and draining reads silence once the
//! buffer runs dry.

use vstd::prelude::*;
use std::collections::VecDeque;

verus! {

/// The buffer after appending one sample: when it already holds `cap` samples
/// or more, the oldest one is dropped first.
pub open spec fn push_one(buf: Seq<i16>, cap: nat, s: i16) -> Seq<i16> {
    if buf.len() >= cap && buf.len() > 0 {
        buf.drop_first().push(s)
    } else {
        buf.push(s)
    }
}

/// The buffer after appending the samples one by one.
pub open spec fn push_all(buf: Seq<i16>, cap: nat, samples: Seq<i16>) -> Seq<i16>
    decreases samples.len(),
{
    if samples.len() == 0 {
        buf
    } else {
        push_one(push_all(buf, cap, samples.drop_last()), cap, samples.last())
    }
}

/// The newest `cap` samples (all of them, when fewer) of `all`.
pub open spec fn newest(all: Seq<i16>, cap: nat) -> Seq<i16> {
    if all.len() > cap {
        all.subrange(all.len() - cap, all.len() as int)
    } else {
        all
    }
}

/// With a positive capacity the ring keeps the newest samples: after a push it
/// holds the newest `cap` samples of what it held followed by what was pushed,
/// in order.
pub proof fn lemma_ring_keeps_newest(buf: Seq<i16>, cap: nat, samples: Seq<i16>)
    requires
        cap > 0,
        buf.len() <= cap,
    ensures
        push_all(buf, cap, samples) == newest(buf + samples, cap),
        push_all(buf, cap, samples).len() <= cap,
    decreases samples.len(),
{
    if samples.len() == 0 {
        assert(buf + samples =~= buf);
    } else {
        let rest = samples.drop_last();
        let x = samples.last();
        lemma_ring_keeps_newest(buf, cap, rest);
        let prev_all = buf + rest;
        let all = buf + samples;
        assert(all =~= prev_all.push(x));
        let prev = push_all(buf, cap, rest);
        if prev_all.len() >= cap {
            assert(prev.len() == cap);
            assert(push_one(prev, cap, x) =~= all.subrange(all.len() - cap, all.len() as int));
        } else {
            assert(prev == prev_all);
            assert(push_one(prev, cap, x) =~= all);
        }
    }
}

/// The `n` samples read from the front of `buf`, silence past its end.
pub open spec fn drained(buf: Seq<i16>, n: nat) -> Seq<i16> {
    Seq::new(n, |i: int| if i < buf.len() { buf[i] } else { 0i16 })
}

/// What stays of `buf` after reading `n` samples from its front.
pub open spec fn after_drain(buf: Seq<i16>, n: nat) -> Seq<i16> {
    if n < buf.len() {
        buf.subrange(n as int, buf.len() as int)
    } else {
        Seq::empty()
    }
}

/// Within capacity the ring is first in, first out: draining as many samples
/// as it holds after a push gives back what it held followed by what was
/// pushed, and leaves it empty.
pub proof fn lemma_ring_fifo(buf: Seq<i16>, cap: nat, samples: Seq<i16>)
    requires
        buf.len() + samples.len() <= cap,
    ensures
        drained(push_all(buf, cap, samples), (buf + samples).len()) == buf + samples,
        after_drain(push_all(buf, cap, samples), (buf + samples).len()) == Seq::<i16>::empty(),
{
    if cap > 0 {
        lemma_ring_keeps_newest(buf, cap, samples);
    }
    let all = buf + samples;
    assert(push_all(buf, cap, samples) == all);
    assert(drained(all, all.len()) =~= all);
}

/// A bounded sample queue.
pub struct Ring {
    buf: VecDeque<i16>,
    cap: usize,
}

impl View for Ring {
    type V = Seq<i16>;

    closed spec fn view(&self) -> Seq<i16> {
        self.buf@
    }
}

impl Ring {
    /// The capacity the ring was made with.
    pub closed spec fn capacity(&self) -> nat {
        self.cap as nat
    }

    /// An empty ring holding at most `cap` samples (one, for a capacity of 0).
    pub fn new(cap: usize) -> (r: Ring)
        ensures
            r@ == Seq::<i16>::empty(),
            r.capacity() == cap,
    {
        Ring { buf: VecDeque::with_capacity(cap), cap }
    }

    /// Appends `samples`, dropping the oldest samples to stay within capacity.
    pub fn push(&mut self, samples: &[i16])
        ensures
            final(self)@ == push_all(old(self)@, old(self).capacity(), samples@),
            final(self).capacity() == old(self).capacity(),
    {
        let ghost start = self.buf@;
        let mut i: usize = 0;
        assert(samples@.subrange(0, 0) =~= Seq::<i16>::empty());
        while i < samples.len()
            invariant
                i <= samples@.len(),
                self.cap == old(self).cap,
                start == old(self)@,
                self.buf@ == push_all(start, self.cap as nat, samples@.subrange(0, i as int)),
            decreases samples@.len() - i,
        {
            let s = samples[i];
            if self.buf.len() >= self.cap {
                self.buf.pop_front();
            }
            self.buf.push_back(s);
            proof {
                let taken = samples@.subrange(0, i + 1);
                assert(taken.drop_last() =~= samples@.subrange(0, i as int));
                assert(taken.last() == s);
            }
            i = i + 1;
        }
        assert(samples@.subrange(0, samples@.len() as int) =~= samples@);
    }

    /// Fills `out` with the oldest samples, in order, removing them; slots past
    /// the buffered samples get silence (0).
    pub fn drain(&mut self, out: &mut [i16])
        ensures
            final(out)@ == drained(old(self)@, old(out)@.len()),
            final(self)@ == after_drain(old(self)@, old(out)@.len()),
            final(self).capacity() == old(self).capacity(),
    {
        let ghost start = self.buf@;
        let n = out.len();
        let mut i: usize = 0;
        while i < n
            invariant
                i <= n == out@.len() == old(out)@.len(),
                self.cap == old(self).cap,
                start == old(self)@,
                self.buf@ == after_drain(start, i as nat),
                forall|j: int| 0 <= j < i ==> out@[j] == drained(start, n as nat)[j],
            decreases n - i,
        {
            let v = match self.buf.pop_front() {
                Some(x) => x,
                None => 0,
            };
            out[i] = v;
            proof {
                if (i as int) < start.len() {
                    assert(after_drain(start, (i + 1) as nat) =~= after_drain(start, i as nat).subrange(
                        1,
                        after_drain(start, i as nat).len() as int,
                    ));
                }
            }
            i = i + 1;
        }
        assert(out@ =~= drained(start, n as nat));
    }

    /// An Opus packet arrives for playback: an empty packet means "drop what
    /// is queued" and clears the ring; any other packet is to be decoded, and
    /// the ring is left as it is.
    pub fn on_packet(&mut self, packet: &[u8]) -> (decode: bool)
        ensures
            decode == (packet@.len() > 0),
            packet@.len() == 0 ==> final(self)@ == Seq::<i16>::empty(),
            packet@.len() > 0 ==> final(self)@ == old(self)@,
            final(self).capacity() == old(self).capacity(),
    {
        if packet.len() == 0 {
            self.clear();
            false
        } else {
            true
        }
    }

    /// Removes every sample.
    pub fn clear(&mut self)
        ensures
            final(self)@ == Seq::<i16>::empty(),
            final(self).capacity() == old(self).capacity(),
    {
        self.buf.clear();
    }

    /// The number of buffered samples.
    pub fn len(&self) -> (n: usize)
        ensures
            n == self@.len(),
    {
        self.buf.len()
    }
}

} // verus!
