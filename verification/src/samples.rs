//! A bounded history of per-frame samples.

use vstd::prelude::*;

verus! {

/// What is left of `samples` once the oldest one has gone, where there are
/// more than `limit` of them.
pub open spec fn trimmed<T>(samples: Seq<T>, limit: nat) -> Seq<T> {
    if samples.len() > limit {
        samples.drop_first()
    } else {
        samples
    }
}

/// With room for at least one sample, a history within its limit stays
/// within it when a sample is recorded, and always ends with that sample.
pub proof fn lemma_trimmed_keeps_newest<T>(samples: Seq<T>, sample: T, limit: nat)
    requires
        samples.len() <= limit,
        limit > 0,
    ensures
        trimmed(samples.push(sample), limit).len() == if samples.len() < limit {
            samples.len() + 1
        } else {
            limit
        },
        trimmed(samples.push(sample), limit).last() == sample,
        samples.len() == limit ==> trimmed(samples.push(sample), limit)
            == samples.drop_first().push(sample),
{
    if samples.len() == limit {
        assert(samples.push(sample).drop_first() =~= samples.drop_first().push(sample));
    }
}

/// The most recent samples of a running measurement, oldest first, together
/// with the number of samples recorded since the last reset.
///
/// The history never grows past its limit: recording into a full history
/// pushes the oldest sample out. The samples are stored and handed back
/// as they came; what they measure is the caller's business.
#[derive(Debug)]
pub struct FrameSamples<T> {
    samples: Vec<T>,
    max_samples: usize,
    frame_count: u32,
}

impl<T> View for FrameSamples<T> {
    type V = Seq<T>;

    /// The samples that are kept, oldest first.
    closed spec fn view(&self) -> Seq<T> {
        self.samples@
    }
}

impl<T> FrameSamples<T> {
    /// The largest number of samples that are kept.
    pub closed spec fn spec_max_samples(&self) -> usize {
        self.max_samples
    }

    /// The number of samples recorded since the start or the last reset.
    pub closed spec fn spec_frame_count(&self) -> u32 {
        self.frame_count
    }

    /// Whether the history is within its limit. It is from the start, and
    /// every operation keeps it so.
    pub open spec fn wf(&self) -> bool {
        self@.len() <= self.spec_max_samples()
    }

    /// An empty history that keeps at most `max_samples` samples.
    pub fn new(max_samples: usize) -> (history: Self)
        ensures
            history@ == Seq::<T>::empty(),
            history.spec_max_samples() == max_samples,
            history.spec_frame_count() == 0,
            history.wf(),
    {
        FrameSamples { samples: Vec::new(), max_samples, frame_count: 0 }
    }

    /// Records one more sample as the newest and counts it. Where that
    /// takes the history past its limit, the oldest sample is dropped; with
    /// a limit of zero nothing is ever kept.
    pub fn record(&mut self, sample: T)
        requires
            old(self).spec_frame_count() < u32::MAX,
        ensures
            final(self)@ == trimmed(old(self)@.push(sample), old(self).spec_max_samples() as nat),
            final(self).spec_max_samples() == old(self).spec_max_samples(),
            final(self).spec_frame_count() == old(self).spec_frame_count() + 1,
            old(self).wf() ==> final(self).wf(),
    {
        self.samples.push(sample);
        if self.samples.len() > self.max_samples {
            self.samples.remove(0);
            assert(self.samples@ =~= old(self).samples@.push(sample).drop_first());
        }
        self.frame_count = self.frame_count + 1;
    }

    /// The samples that are kept, oldest first.
    pub fn samples(&self) -> (samples: &Vec<T>)
        ensures
            samples@ == self@,
    {
        &self.samples
    }

    /// The largest number of samples that are kept.
    #[verifier::when_used_as_spec(spec_max_samples)]
    pub fn max_samples(&self) -> (limit: usize)
        ensures
            limit == self.spec_max_samples(),
    {
        self.max_samples
    }

    /// The number of samples recorded since the start or the last reset,
    /// whether or not they are still kept.
    #[verifier::when_used_as_spec(spec_frame_count)]
    pub fn frame_count(&self) -> (count: u32)
        ensures
            count == self.spec_frame_count(),
    {
        self.frame_count
    }

    /// Forgets every sample and starts counting again; the limit stays.
    pub fn reset(&mut self)
        ensures
            final(self)@ == Seq::<T>::empty(),
            final(self).spec_max_samples() == old(self).spec_max_samples(),
            final(self).spec_frame_count() == 0,
            final(self).wf(),
    {
        self.samples.clear();
        self.frame_count = 0;
    }
}

} // verus!
