//! The simulation's randomness: one trusted draw from `rand`, and the
//! per-frame bundle of uniform samples that one update step may consume.

use vstd::prelude::*;
use rand::distributions::Distribution;
use crate::fixed::SCALE;

verus! {

/// Relies on rand 0.8's `Uniform::new(lo, hi)` sampled with `thread_rng`:
/// a draw from the half-open range `[lo, hi)`; `Uniform::new` panics
/// unless `lo < hi`.
#[verifier::external_body]
fn sample_uniform(lo: i64, hi: i64) -> (r: i64)
    requires
        lo < hi,
    ensures
        lo <= r < hi,
{
    rand::distributions::Uniform::new(lo, hi).sample(&mut rand::thread_rng())
}

/// Model of a sample bundle: four integers, each in `[0, SCALE)`.
pub ghost struct SampleModel {
    pub bounce_first: int,
    pub bounce_second: int,
    pub serve_x: int,
    pub serve_y: int,
}

/// Every sample of the bundle lies in `[0, SCALE)`.
pub open spec fn sample_model_wf(s: SampleModel) -> bool {
    &&& 0 <= s.bounce_first < SCALE
    &&& 0 <= s.bounce_second < SCALE
    &&& 0 <= s.serve_x < SCALE
    &&& 0 <= s.serve_y < SCALE
}

/// The uniform samples one update step may consume: one per paddle for
/// the rebound heading, and two for the heading of a fresh serve.
#[derive(Clone, Copy, PartialEq, Eq, Structural, Debug)]
pub struct FrameSamples {
    pub bounce_first: i64,
    pub bounce_second: i64,
    pub serve_x: i64,
    pub serve_y: i64,
}

impl View for FrameSamples {
    type V = SampleModel;

    open spec fn view(&self) -> SampleModel {
        SampleModel {
            bounce_first: self.bounce_first as int,
            bounce_second: self.bounce_second as int,
            serve_x: self.serve_x as int,
            serve_y: self.serve_y as int,
        }
    }
}

impl FrameSamples {
    /// Every sample of the bundle lies in `[0, SCALE)`.
    pub open spec fn wf(self) -> bool {
        sample_model_wf(self@)
    }

    /// Draw a fresh bundle of uniform samples.
    pub fn draw() -> (s: Self)
        ensures
            s.wf(),
    {
        FrameSamples {
            bounce_first: sample_uniform(0, SCALE),
            bounce_second: sample_uniform(0, SCALE),
            serve_x: sample_uniform(0, SCALE),
            serve_y: sample_uniform(0, SCALE),
        }
    }
}

} // verus!
