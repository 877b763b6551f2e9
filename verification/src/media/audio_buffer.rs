//! A rolling window of mono samples addressed by session milliseconds.
use crate::media::streaming::{ms_to_sample_index, sample_index, sample_ms, samples_to_ms};
use vstd::prelude::*;

verus! {

/// Samples kept from `base_sample_index` on; older samples can be trimmed
/// away while indices keep counting from the session start.
#[derive(Debug)]
pub struct RollingAudioBuffer<T> {
    sample_rate: u32,
    base_sample_index: u64,
    samples: Vec<T>,
}

pub open spec fn clamp_index(x: int, lo: int, hi: int) -> int {
    if x < lo { lo } else if x > hi { hi } else { x }
}

impl<T> RollingAudioBuffer<T> {
    #[verifier::type_invariant]
    spec fn inv(self) -> bool {
        self.base_sample_index + self.samples@.len() <= u64::MAX
    }

    pub closed spec fn rate(&self) -> u32 {
        self.sample_rate
    }

    pub closed spec fn base(&self) -> u64 {
        self.base_sample_index
    }

    /// The samples kept, oldest first.
    pub closed spec fn kept(&self) -> Seq<T> {
        self.samples@
    }

    /// Index, from the session start, just past the last kept sample.
    pub open spec fn end_index(&self) -> int {
        self.base() + self.kept().len()
    }

    /// How many of the oldest samples lie before `ms`.
    pub open spec fn trimmed_count(&self, ms: u64) -> int {
        let target = sample_index(ms, self.rate()) as int;
        if target <= self.base() {
            0
        } else if target - self.base() < self.kept().len() {
            target - self.base()
        } else {
            self.kept().len() as int
        }
    }

    /// The samples between `start_ms` and `end_ms`, as far as they are kept.
    pub open spec fn slice_spec(&self, start_ms: u64, end_ms: u64) -> Seq<T> {
        if end_ms <= start_ms || self.kept().len() == 0 {
            Seq::empty()
        } else {
            let lo = self.base() as int;
            let hi = self.end_index();
            let start = clamp_index(sample_index(start_ms, self.rate()) as int, lo, hi);
            let end = clamp_index(sample_index(end_ms, self.rate()) as int, lo, hi);
            if end <= start { Seq::empty() } else { self.kept().subrange(start - lo, end - lo) }
        }
    }
}

impl<T: Copy> RollingAudioBuffer<T> {

    pub fn new(sample_rate: u32) -> (r: Self)
        ensures
            r.rate() == sample_rate,
            r.base() == 0,
            r.kept().len() == 0,
    {
        RollingAudioBuffer { sample_rate, base_sample_index: 0, samples: Vec::new() }
    }

    pub fn sample_rate(&self) -> (r: u32)
        ensures
            r == self.rate(),
    {
        self.sample_rate
    }

    pub fn base_sample_index(&self) -> (r: u64)
        ensures
            r == self.base(),
    {
        self.base_sample_index
    }

    /// Adds samples at the end.
    pub fn append(&mut self, samples: &[T])
        requires
            old(self).end_index() + samples.len() <= u64::MAX,
        ensures
            final(self).rate() == old(self).rate(),
            final(self).base() == old(self).base(),
            final(self).kept() == old(self).kept() + samples@,
    {
        proof {
            use_type_invariant(&*self);
        }
        let mut buf: Vec<T> = Vec::new();
        std::mem::swap(&mut buf, &mut self.samples);
        let ghost start = buf@;
        let mut i: usize = 0;
        while i < samples.len()
            invariant
                i <= samples.len(),
                buf@ == start + samples@.take(i as int),
            decreases samples.len() - i,
        {
            buf.push(samples[i]);
            assert(samples@.take(i + 1) =~= samples@.take(i as int).push(samples@[i as int]));
            i = i + 1;
        }
        assert(samples@.take(samples.len() as int) =~= samples@);
        self.samples = buf;
    }

    /// Copies the kept samples between `start_ms` and `end_ms`.
    pub fn slice(&self, start_ms: u64, end_ms: u64) -> (r: Vec<T>)
        ensures
            r@ == self.slice_spec(start_ms, end_ms),
    {
        proof {
            use_type_invariant(self);
        }
        if end_ms <= start_ms || self.samples.len() == 0 {
            return Vec::new();
        }
        let requested_start = ms_to_sample_index(start_ms, self.sample_rate);
        let requested_end = ms_to_sample_index(end_ms, self.sample_rate);
        let available_start = self.base_sample_index;
        let available_end = self.base_sample_index + self.samples.len() as u64;
        let start = if requested_start < available_start {
            available_start
        } else if requested_start > available_end {
            available_end
        } else {
            requested_start
        };
        let end = if requested_end < available_start {
            available_start
        } else if requested_end > available_end {
            available_end
        } else {
            requested_end
        };
        if end <= start {
            return Vec::new();
        }
        let offset = (start - self.base_sample_index) as usize;
        let stop = (end - self.base_sample_index) as usize;
        let mut out: Vec<T> = Vec::new();
        let mut i: usize = offset;
        while i < stop
            invariant
                offset <= i <= stop,
                stop <= self.samples@.len(),
                out@ == self.samples@.subrange(offset as int, i as int),
            decreases stop - i,
        {
            out.push(self.samples[i]);
            assert(self.samples@.subrange(offset as int, i + 1) =~= self.samples@.subrange(offset as int, i as int).push(self.samples@[i as int]));
            i = i + 1;
        }
        out
    }

    /// Forgets the samples before `ms`.
    pub fn trim_before(&mut self, ms: u64)
        ensures
            final(self).rate() == old(self).rate(),
            final(self).base() == old(self).base() + old(self).trimmed_count(ms),
            final(self).kept() == old(self).kept().skip(old(self).trimmed_count(ms)),
    {
        proof {
            use_type_invariant(&*self);
        }
        let target = ms_to_sample_index(ms, self.sample_rate);
        if target <= self.base_sample_index {
            assert(self.samples@.skip(0) =~= self.samples@);
            return;
        }
        let gap = target - self.base_sample_index;
        let remove: usize = if gap < self.samples.len() as u64 { gap as usize } else { self.samples.len() };
        let mut kept: Vec<T> = Vec::new();
        let mut i: usize = remove;
        while i < self.samples.len()
            invariant
                remove <= i <= self.samples.len(),
                kept@ == self.samples@.subrange(remove as int, i as int),
            decreases self.samples.len() - i,
        {
            kept.push(self.samples[i]);
            assert(self.samples@.subrange(remove as int, i + 1) =~= self.samples@.subrange(remove as int, i as int).push(self.samples@[i as int]));
            i = i + 1;
        }
        assert(self.samples@.subrange(remove as int, self.samples@.len() as int) =~= self.samples@.skip(remove as int));
        self.samples = kept;
        self.base_sample_index = self.base_sample_index + remove as u64;
    }

    /// Milliseconds of audio kept.
    pub fn duration_ms(&self) -> (r: u64)
        requires
            self.rate() > 0,
        ensures
            r == sample_ms(self.kept().len() as u64, self.rate()),
    {
        samples_to_ms(self.samples.len() as u64, self.sample_rate)
    }

    /// Session time just past the last kept sample.
    pub fn end_ms(&self) -> (r: u64)
        requires
            self.rate() > 0,
        ensures
            r == sample_ms(self.end_index() as u64, self.rate()),
    {
        proof {
            use_type_invariant(self);
        }
        samples_to_ms(self.base_sample_index + self.samples.len() as u64, self.sample_rate)
    }
}

impl<T: Copy> Clone for RollingAudioBuffer<T> {
    fn clone(&self) -> (r: Self)
        ensures
            r.rate() == self.rate(),
            r.base() == self.base(),
            r.kept() == self.kept(),
    {
        proof {
            use_type_invariant(self);
        }
        let mut samples: Vec<T> = Vec::new();
        let mut i: usize = 0;
        while i < self.samples.len()
            invariant
                i <= self.samples.len(),
                samples@ == self.samples@.take(i as int),
            decreases self.samples.len() - i,
        {
            samples.push(self.samples[i]);
            assert(self.samples@.take(i + 1) =~= self.samples@.take(i as int).push(self.samples@[i as int]));
            i = i + 1;
        }
        assert(self.samples@.take(self.samples.len() as int) =~= self.samples@);
        RollingAudioBuffer { sample_rate: self.sample_rate, base_sample_index: self.base_sample_index, samples }
    }
}

} // verus!
