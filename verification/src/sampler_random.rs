use vstd::prelude::*;

use crate::vector::Point2;

verus! {

#[verifier::external_type_specification]
#[verifier::external_body]
pub struct ExStdRng(rand::StdRng);

/// `Clone` of `rand::StdRng`, which derives `Copy` and `Clone`: the clone is
/// the same generator state.
pub assume_specification[ <rand::StdRng as Clone>::clone ](rng: &rand::StdRng) -> (r: rand::StdRng)
    ensures
        r == *rng,
;

/// `rand::StdRng::new`: a generator seeded from the operating system, or
/// `None` when no entropy source could be read (`new` then returns an
/// `io::Error`). Nothing is stated of the generator's state.
#[verifier::external_body]
fn std_rng_new() -> Option<rand::StdRng> {
    rand::StdRng::new().ok()
}

/// A sampler that draws every sample dimension independently at random.
pub struct RandomSampler {
    // General sampler
    samples_per_pixel: u32,
    current_pixel_sample_index: u32,
    // Random sampler
    rng: rand::StdRng,
}

impl RandomSampler {
    /// Number of samples taken in each pixel.
    pub closed spec fn spp(self) -> u32 {
        self.samples_per_pixel
    }

    /// Index of the current sample within the current pixel.
    pub closed spec fn index(self) -> u32 {
        self.current_pixel_sample_index
    }

    /// The generator that sample values are drawn from.
    pub closed spec fn generator(self) -> rand::StdRng {
        self.rng
    }

    /// A sampler taking `samples_per_pixel` samples per pixel, starting at
    /// the first sample, that draws from `rng`.
    pub fn with_rng(samples_per_pixel: u32, rng: rand::StdRng) -> (r: RandomSampler)
        ensures
            r.spp() == samples_per_pixel,
            r.index() == 0,
            r.generator() == rng,
    {
        RandomSampler { samples_per_pixel, current_pixel_sample_index: 0, rng }
    }

    /// A sampler taking `samples_per_pixel` samples per pixel, starting at
    /// the first sample, with a freshly seeded generator; `None` when the
    /// generator cannot be seeded.
    pub fn new(samples_per_pixel: u32) -> (r: Option<RandomSampler>)
        ensures
            r matches Some(s) ==> s.spp() == samples_per_pixel && s.index() == 0,
    {
        match std_rng_new() {
            Some(rng) => Some(RandomSampler::with_rng(samples_per_pixel, rng)),
            None => None,
        }
    }

    /// Number of samples taken in each pixel.
    pub fn samples_per_pixel(&self) -> (r: u32)
        ensures
            r == self.spp(),
    {
        self.samples_per_pixel
    }

    /// Index of the current sample within the current pixel.
    pub fn current_pixel_sample_index(&self) -> (r: u32)
        ensures
            r == self.index(),
    {
        self.current_pixel_sample_index
    }

    /// Set current pixel. Reset sample number.
    pub fn start_pixel(&mut self, _p: Point2<u32>)
        ensures
            final(self).index() == 0,
            final(self).spp() == old(self).spp(),
            final(self).generator() == old(self).generator(),
    {
        self.current_pixel_sample_index = 0;
    }

    /// Start next sample of current pixel.
    /// Return false if requested samples per pixel have been generated.
    pub fn start_next_sample(&mut self) -> (r: bool)
        requires
            old(self).index() < u32::MAX,
        ensures
            final(self).index() == old(self).index() + 1,
            final(self).spp() == old(self).spp(),
            final(self).generator() == old(self).generator(),
            r == (final(self).index() < final(self).spp()),
    {
        self.current_pixel_sample_index += 1;
        return self.current_pixel_sample_index < self.samples_per_pixel;
    }

    /// The generator that the sample values are drawn from.
    pub fn rng(&mut self) -> (r: &mut rand::StdRng)
        ensures
            *r == old(self).generator(),
            final(self).generator() == *final(r),
            final(self).index() == old(self).index(),
            final(self).spp() == old(self).spp(),
    {
        &mut self.rng
    }
}

impl Clone for RandomSampler {
    /// The same sampler: the same counts and the same generator state.
    fn clone(&self) -> (r: RandomSampler)
        ensures
            r == *self,
    {
        RandomSampler {
            samples_per_pixel: self.samples_per_pixel,
            current_pixel_sample_index: self.current_pixel_sample_index,
            rng: self.rng.clone(),
        }
    }
}

/// The states of a sampler along a run of `start_next_sample` calls after
/// `start_pixel`: each call counts one more sample and returns whether it is
/// below the number of samples per pixel.
pub open spec fn sample_run(states: Seq<RandomSampler>, results: Seq<bool>) -> bool {
    &&& states.len() == results.len() + 1
    &&& states[0].index() == 0
    &&& forall|k: int|
        0 <= k < results.len() ==> {
            &&& #[trigger] states[k + 1].index() == states[k].index() + 1
            &&& states[k + 1].spp() == states[k].spp()
            &&& results[k] == (states[k + 1].index() < states[k + 1].spp())
        }
}

/// Once a pixel is started, the `k`-th call of `start_next_sample` (counting
/// from one) returns `true` exactly when `k` is below the number of samples
/// per pixel: every pixel gets `samples_per_pixel` samples.
pub proof fn lemma_samples_per_pixel(states: Seq<RandomSampler>, results: Seq<bool>)
    requires
        sample_run(states, results),
    ensures
        forall|k: int| 0 <= k < results.len() ==> #[trigger] results[k] == (k + 1 < states[0].spp()),
{
    assert forall|k: int| 0 <= k < states.len() implies #[trigger] states[k].index() == k && states[k].spp()
        == states[0].spp() by {
        lemma_run_counts(states, results, k);
    }
    assert forall|k: int| 0 <= k < results.len() implies #[trigger] results[k] == (k + 1 < states[0].spp()) by {
        assert(states[k + 1].index() == k + 1);
    }
}

/// Along a run, the `k`-th state has counted `k` samples.
proof fn lemma_run_counts(states: Seq<RandomSampler>, results: Seq<bool>, k: int)
    requires
        sample_run(states, results),
        0 <= k < states.len(),
    ensures
        states[k].index() == k,
        states[k].spp() == states[0].spp(),
    decreases k,
{
    if k > 0 {
        lemma_run_counts(states, results, k - 1);
        assert(states[(k - 1) + 1].index() == states[k - 1].index() + 1);
    }
}

} // verus!
