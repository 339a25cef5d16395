use vstd::prelude::*;

use crate::sample::{Sample, Sampleable};

verus! {

/// A sequence of samples.
pub struct Track<S: Sampleable> {
    /// The samples of this track.
    samples: Vec<Sample<S>>,
}

impl<S: Sampleable> Track<S> {
    /// The samples of this track, in order.
    pub closed spec fn view_samples(&self) -> Seq<Sample<S>> {
        self.samples@
    }

    /// Create a track from its samples.
    pub fn new(samples: Vec<Sample<S>>) -> (r: Track<S>)
        ensures
            r.view_samples() == samples@,
    {
        Track { samples }
    }

    /// The samples of this track.
    pub fn samples(&self) -> (r: &Vec<Sample<S>>)
        ensures
            r@ == self.view_samples(),
    {
        &self.samples
    }
}

} // verus!
