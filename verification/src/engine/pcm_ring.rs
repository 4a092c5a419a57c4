use std::collections::VecDeque;
use vstd::prelude::*;

verus! {

#[derive(Debug, Clone, Copy, PartialEq, Eq, Structural)]
pub enum PushResult {
    Stored,
    DroppedOldest,
}

/// A bounded FIFO of interleaved PCM samples that lives for the whole
/// session. When full, the oldest samples give way; when empty, reads are
/// answered with silence.
pub struct PcmRing {
    samples: VecDeque<i16>,
    capacity_samples: usize,
}

/// Abstract state of a [`PcmRing`]: the queued samples, oldest first, and the capacity.
pub struct PcmRingView {
    pub samples: Seq<i16>,
    pub capacity: nat,
}

/// The samples kept after appending `input` to `samples` in a ring of `capacity`:
/// the newest `capacity` samples of the concatenation.
pub open spec fn ring_after_push(samples: Seq<i16>, input: Seq<i16>, capacity: nat) -> Seq<i16> {
    let all = samples + input;
    if all.len() > capacity {
        all.subrange(all.len() - capacity, all.len() as int)
    } else {
        all
    }
}

/// Whether appending `input` pushes out samples that were queued or appended.
pub open spec fn push_drops(samples: Seq<i16>, input: Seq<i16>, capacity: nat) -> bool {
    samples.len() + input.len() > capacity
}

/// The number of queued samples that a read of `n` samples consumes.
pub open spec fn taken(samples: Seq<i16>, n: nat) -> nat {
    if n < samples.len() {
        n
    } else {
        samples.len()
    }
}

/// What a read of `n` samples returns: the oldest queued samples, then silence.
pub open spec fn read_or_silence(samples: Seq<i16>, n: nat) -> Seq<i16> {
    samples.subrange(0, taken(samples, n) as int) + Seq::new(
        (n - taken(samples, n)) as nat,
        |i: int| 0i16,
    )
}

/// A ring that holds no more samples than its (positive) capacity.
pub open spec fn ring_view_wf(v: PcmRingView) -> bool {
    v.capacity > 0 && v.samples.len() <= v.capacity
}

/// The ring is bounded: a new ring holds nothing, and neither a push nor a
/// read ever makes it hold more samples than its capacity.
pub proof fn law_ring_stays_bounded(v: PcmRingView, input: Seq<i16>, n: nat)
    requires
        ring_view_wf(v),
    ensures
        ring_view_wf(PcmRingView { samples: Seq::<i16>::empty(), capacity: v.capacity }),
        ring_view_wf(
            PcmRingView { samples: ring_after_push(v.samples, input, v.capacity), capacity: v.capacity },
        ),
        ring_view_wf(
            PcmRingView {
                samples: v.samples.subrange(taken(v.samples, n) as int, v.samples.len() as int),
                capacity: v.capacity,
            },
        ),
{
}

/// Starvation is silence, not end of stream: a read always returns exactly
/// the number of samples asked for, and a read from an empty ring is all zeros.
pub proof fn law_read_is_never_short(samples: Seq<i16>, n: nat)
    ensures
        read_or_silence(samples, n).len() == n,
        samples.len() == 0 ==> forall|i: int|
            0 <= i < n ==> #[trigger] read_or_silence(samples, n)[i] == 0i16,
        forall|i: int|
            samples.len() <= i < n ==> #[trigger] read_or_silence(samples, n)[i] == 0i16,
{
}

/// The ring is bounded and drops only the oldest samples: after a push it
/// holds at most `capacity` samples, and they are the newest ones of the old
/// contents followed by the input.
pub proof fn law_push_keeps_newest(samples: Seq<i16>, input: Seq<i16>, capacity: nat)
    requires
        capacity > 0,
        samples.len() <= capacity,
    ensures
        ring_after_push(samples, input, capacity).len() <= capacity,
        ({
            let all = samples + input;
            let kept = ring_after_push(samples, input, capacity);
            kept == all.subrange(all.len() - kept.len(), all.len() as int)
        }),
        !push_drops(samples, input, capacity) ==> ring_after_push(samples, input, capacity)
            == samples + input,
{
}

/// First in, first out: when the input fits, reading back everything queued
/// returns the old contents followed by the input, and leaves the ring empty.
pub proof fn law_read_returns_what_was_pushed(samples: Seq<i16>, input: Seq<i16>, capacity: nat)
    requires
        samples.len() + input.len() <= capacity,
    ensures
        ({
            let after = ring_after_push(samples, input, capacity);
            &&& read_or_silence(after, after.len()) == samples + input
            &&& after.subrange(taken(after, after.len()) as int, after.len() as int).len() == 0
        }),
{
    let after = ring_after_push(samples, input, capacity);
    assert(read_or_silence(after, after.len()) =~= samples + input);
}

/// A read consumes exactly the samples it returns from the ring: what it
/// returned from the ring followed by what stays is the old contents.
pub proof fn law_read_consumes_prefix(samples: Seq<i16>, n: nat)
    ensures
        read_or_silence(samples, n).subrange(0, taken(samples, n) as int) + samples.subrange(
            taken(samples, n) as int,
            samples.len() as int,
        ) == samples,
{
    assert(read_or_silence(samples, n).subrange(0, taken(samples, n) as int) + samples.subrange(
        taken(samples, n) as int,
        samples.len() as int,
    ) =~= samples);
}

impl View for PcmRing {
    type V = PcmRingView;

    closed spec fn view(&self) -> PcmRingView {
        PcmRingView { samples: self.samples@, capacity: self.capacity_samples as nat }
    }
}

impl PcmRing {
    #[verifier::type_invariant]
    closed spec fn inv(self) -> bool {
        &&& self.capacity_samples > 0
        &&& self.samples@.len() <= self.capacity_samples
    }

    pub fn new(capacity_samples: usize) -> (ring: Self)
        requires
            capacity_samples > 0,
        ensures
            ring@.samples == Seq::<i16>::empty(),
            ring@.capacity == capacity_samples,
    {
        PcmRing { samples: VecDeque::with_capacity(capacity_samples), capacity_samples }
    }

    pub fn len(&self) -> (n: usize)
        ensures
            n == self@.samples.len(),
            n <= self@.capacity,
            ring_view_wf(self@),
    {
        proof {
            use_type_invariant(self);
        }
        self.samples.len()
    }

    pub fn is_empty(&self) -> (b: bool)
        ensures
            b == (self@.samples.len() == 0),
    {
        self.samples.len() == 0
    }

    pub fn push(&mut self, input: &[i16]) -> (r: PushResult)
        ensures
            final(self)@.capacity == old(self)@.capacity,
            final(self)@.samples == ring_after_push(old(self)@.samples, input@, old(self)@.capacity),
            r == (if push_drops(old(self)@.samples, input@, old(self)@.capacity) {
                PushResult::DroppedOldest
            } else {
                PushResult::Stored
            }),
    {
        proof {
            use_type_invariant(&*self);
        }
        let ghost old_samples = self.samples@;
        let ghost cap = self.capacity_samples as nat;
        let mut result = PushResult::Stored;
        let mut i: usize = 0;
        let mut samples = VecDeque::new();
        std::mem::swap(&mut samples, &mut self.samples);
        while i < input.len()
            invariant
                i <= input@.len(),
                self.capacity_samples == cap,
                cap > 0,
                samples@ == ring_after_push(old_samples, input@.subrange(0, i as int), cap),
                samples@.len() <= cap,
                result == (if push_drops(old_samples, input@.subrange(0, i as int), cap) {
                    PushResult::DroppedOldest
                } else {
                    PushResult::Stored
                }),
            decreases input.len() - i,
        {
            let ghost before = samples@;
            let sample = input[i];
            if samples.len() == self.capacity_samples {
                samples.pop_front();
                result = PushResult::DroppedOldest;
            }
            samples.push_back(sample);
            proof {
                let prefix = input@.subrange(0, i as int);
                let next = input@.subrange(0, i + 1);
                assert(next == prefix.push(sample));
                assert(old_samples + next == (old_samples + prefix).push(sample));
                let all = old_samples + prefix;
                let all2 = old_samples + next;
                if all2.len() > cap {
                    if all.len() > cap {
                        assert(samples@ =~= all2.subrange(all2.len() - cap, all2.len() as int));
                    } else {
                        assert(samples@ =~= all2.subrange(all2.len() - cap, all2.len() as int));
                    }
                } else {
                    assert(samples@ =~= all2);
                }
            }
            i = i + 1;
        }
        proof {
            assert(input@.subrange(0, input@.len() as int) =~= input@);
        }
        self.samples = samples;
        result
    }

    pub fn pop_or_silence(&mut self, samples_needed: usize) -> (out: Vec<i16>)
        ensures
            final(self)@.capacity == old(self)@.capacity,
            out@ == read_or_silence(old(self)@.samples, samples_needed as nat),
            final(self)@.samples == old(self)@.samples.subrange(
                taken(old(self)@.samples, samples_needed as nat) as int,
                old(self)@.samples.len() as int,
            ),
    {
        proof {
            use_type_invariant(&*self);
        }
        let ghost old_samples = self.samples@;
        let ghost n = samples_needed as nat;
        let mut out: Vec<i16> = Vec::with_capacity(samples_needed);
        let mut samples = VecDeque::new();
        std::mem::swap(&mut samples, &mut self.samples);
        let mut k: usize = 0;
        while k < samples_needed
            invariant
                k <= samples_needed,
                n == samples_needed,
                out@ == read_or_silence(old_samples, k as nat),
                samples@ == old_samples.subrange(
                    taken(old_samples, k as nat) as int,
                    old_samples.len() as int,
                ),
            decreases samples_needed - k,
        {
            let s = samples.pop_front().unwrap_or(0);
            out.push(s);
            proof {
                let t0 = taken(old_samples, k as nat);
                let t1 = taken(old_samples, (k + 1) as nat);
                if k < old_samples.len() {
                    assert(t0 == k && t1 == k + 1);
                    assert(read_or_silence(old_samples, (k + 1) as nat) =~= read_or_silence(
                        old_samples,
                        k as nat,
                    ).push(old_samples[k as int]));
                } else {
                    assert(t0 == old_samples.len() && t1 == old_samples.len());
                    assert(read_or_silence(old_samples, (k + 1) as nat) =~= read_or_silence(
                        old_samples,
                        k as nat,
                    ).push(0i16));
                }
                assert(samples@ =~= old_samples.subrange(t1 as int, old_samples.len() as int));
            }
            k = k + 1;
        }
        self.samples = samples;
        out
    }

    /// A source or track change is a warm boundary: the ring keeps everything.
    pub fn source_changed(&mut self)
        ensures
            final(self)@ == old(self)@,
    {
    }
}

} // verus!
