use vstd::prelude::*;

use crate::activity::{frames_are_silent, is_silent_spec, SILENCE_THRESHOLD};

verus! {

/// The number of channels for a sample.
pub const CHANNELS: usize = 1;

/// The default sample rate, in Hz, of a sample made of silence.
pub const DEFAULT_SAMPLE_RATE: u32 = 48000;

/// A type that can hold one amplitude value.
///
/// Each value stands for a signed integer amplitude; the detector reads only
/// its magnitude.
pub trait Sampleable: Sized + Copy + Send {
    /// The amplitude this value stands for.
    spec fn amplitude(&self) -> int;

    /// The largest magnitude a value of this type can have.
    spec fn max_magnitude() -> int;

    /// The zero amplitude.
    fn zero() -> (r: Self)
        ensures
            r.amplitude() == 0,
    ;

    /// The absolute value of the amplitude.
    fn magnitude(&self) -> (r: u32)
        ensures
            r as int == abs(self.amplitude()),
            r <= Self::max_magnitude(),
    ;

    proof fn lemma_max_magnitude()
        ensures
            0 <= Self::max_magnitude() <= 0x8000_0000,
    ;

    proof fn lemma_amplitude_bound(x: Self)
        ensures
            abs(x.amplitude()) <= Self::max_magnitude(),
    ;
}

/// The absolute value of an integer.
pub open spec fn abs(x: int) -> int {
    if x < 0 {
        -x
    } else {
        x
    }
}

impl Sampleable for i16 {
    open spec fn amplitude(&self) -> int {
        *self as int
    }

    open spec fn max_magnitude() -> int {
        0x8000
    }

    fn zero() -> (r: i16) {
        0
    }

    fn magnitude(&self) -> (r: u32) {
        if *self < 0 {
            (-(*self as i32)) as u32
        } else {
            *self as u32
        }
    }

    proof fn lemma_max_magnitude() {
    }

    proof fn lemma_amplitude_bound(x: Self) {
    }
}

impl Sampleable for i32 {
    open spec fn amplitude(&self) -> int {
        *self as int
    }

    open spec fn max_magnitude() -> int {
        0x8000_0000
    }

    fn zero() -> (r: i32) {
        0
    }

    fn magnitude(&self) -> (r: u32) {
        if *self < 0 {
            (-(*self as i64)) as u32
        } else {
            *self as u32
        }
    }

    proof fn lemma_max_magnitude() {
    }

    proof fn lemma_amplitude_bound(x: Self) {
    }
}

/// A fixed-length buffer of single-channel frames at a fixed sample rate.
pub struct Sample<S: Sampleable> {
    data: Vec<[S; CHANNELS]>,
    sample_rate: u32,
}

impl<S: Sampleable> Sample<S> {
    /// The frames of this sample.
    pub closed spec fn frames(&self) -> Seq<[S; CHANNELS]> {
        self.data@
    }

    /// The sample rate, in Hz.
    pub closed spec fn rate(&self) -> u32 {
        self.sample_rate
    }

    /// Create a sample of `length` frames of silence at the default rate.
    pub fn silence(length: usize) -> (r: Sample<S>)
        ensures
            r.frames().len() == length,
            forall|i: int| 0 <= i < length ==> #[trigger] r.frames()[i]@[0].amplitude() == 0,
            r.rate() == DEFAULT_SAMPLE_RATE,
    {
        let mut buffer: Vec<[S; CHANNELS]> = Vec::with_capacity(length);
        let mut n: usize = 0;
        while n < length
            invariant
                n <= length,
                buffer@.len() == n,
                forall|i: int| 0 <= i < n ==> #[trigger] buffer@[i]@[0].amplitude() == 0,
            decreases length - n,
        {
            buffer.push([S::zero()]);
            n = n + 1;
        }
        Sample { data: buffer, sample_rate: DEFAULT_SAMPLE_RATE }
    }

    /// Create a sample from decoded frames and the rate they were recorded at.
    pub fn from_frames(frames: Vec<[S; CHANNELS]>, sample_rate: u32) -> (r: Sample<S>)
        ensures
            r.frames() == frames@,
            r.rate() == sample_rate,
    {
        Sample { data: frames, sample_rate }
    }

    /// The actual sample data.
    pub fn data(&self) -> (r: &[[S; CHANNELS]])
        ensures
            r@ == self.frames(),
    {
        self.data.as_slice()
    }

    /// The mutable sample data: its frames can be overwritten, but neither its
    /// length nor the sample rate can change.
    pub fn data_mut(&mut self) -> (r: &mut [[S; CHANNELS]])
        ensures
            r@ == old(self).frames(),
            final(self).frames() == final(r)@,
            final(self).rate() == old(self).rate(),
    {
        self.data.as_mut_slice()
    }

    /// The sample rate of this sample.
    pub fn sample_rate(&self) -> (r: u32)
        ensures
            r == self.rate(),
    {
        self.sample_rate
    }

    /// Whether this sample is silent for the default threshold.
    pub fn is_silent(&self) -> (r: bool)
        ensures
            r == is_silent_spec(self.frames(), SILENCE_THRESHOLD as int),
    {
        frames_are_silent(self.data.as_slice(), SILENCE_THRESHOLD)
    }

    /// Whether this sample is silent for `threshold`.
    pub fn is_silent_with(&self, threshold: u16) -> (r: bool)
        ensures
            r == is_silent_spec(self.frames(), threshold as int),
    {
        frames_are_silent(self.data.as_slice(), threshold)
    }
}

} // verus!
