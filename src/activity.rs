//! Classification of a run of frames as silent or active, from the spread of
//! a coarse energy envelope.
use vstd::prelude::*;

use crate::sample::{abs, Sampleable, CHANNELS};

verus! {

/// The number of frames in one window of the envelope.
pub const ENVELOPE_SIZE: usize = 4096;

/// The default threshold on the standard deviation of the envelope values
/// below which a buffer counts as silent.
pub const SILENCE_THRESHOLD: u16 = 64;

/// The magnitude of a frame's single channel.
pub open spec fn frame_magnitude<S: Sampleable>(f: [S; CHANNELS]) -> int {
    abs(f@[0].amplitude())
}

/// The sum of the magnitudes of a run of frames.
pub open spec fn magnitude_sum<S: Sampleable>(frames: Seq<[S; CHANNELS]>) -> int
    decreases frames.len(),
{
    if frames.len() == 0 {
        0
    } else {
        magnitude_sum(frames.drop_last()) + frame_magnitude(frames.last())
    }
}

/// The number of windows a run of `len` frames is cut into: the last one may
/// be shorter than the others.
pub open spec fn window_count(len: nat) -> nat {
    ((len + ENVELOPE_SIZE - 1) / (ENVELOPE_SIZE as int)) as nat
}

/// The frames of window `w`.
pub open spec fn window<S: Sampleable>(frames: Seq<[S; CHANNELS]>, w: int) -> Seq<[S; CHANNELS]> {
    let start = w * ENVELOPE_SIZE;
    let end = if (w + 1) * ENVELOPE_SIZE <= frames.len() {
        (w + 1) * ENVELOPE_SIZE
    } else {
        frames.len() as int
    };
    frames.subrange(start, end)
}

/// One envelope value per window: the window's magnitude sum divided by the
/// window size, rounded down.
pub open spec fn envelope_of<S: Sampleable>(frames: Seq<[S; CHANNELS]>) -> Seq<int> {
    Seq::new(
        window_count(frames.len()),
        |w: int| magnitude_sum(window(frames, w)) / (ENVELOPE_SIZE as int),
    )
}

/// The sum of a sequence of integers.
pub open spec fn total(v: Seq<int>) -> int
    decreases v.len(),
{
    if v.len() == 0 {
        0
    } else {
        total(v.drop_last()) + v.last()
    }
}

/// The sum of the squares of a sequence of integers.
pub open spec fn square_total(v: Seq<int>) -> int
    decreases v.len(),
{
    if v.len() == 0 {
        0
    } else {
        square_total(v.drop_last()) + v.last() * v.last()
    }
}

/// Whether an envelope counts as silent for threshold `t`.
///
/// With `n` values, the sample variance is
/// `(n * square_total(v) - total(v)^2) / (n * (n - 1))`; the envelope is
/// silent when that variance is below `t * t`, and an envelope of at most one
/// value has variance zero.
pub open spec fn envelope_is_silent(v: Seq<int>, t: int) -> bool {
    let n = v.len() as int;
    n <= 1 || n * square_total(v) < total(v) * total(v) + t * t * n * (n - 1)
}

/// Whether a run of frames counts as silent for threshold `t`.
pub open spec fn is_silent_spec<S: Sampleable>(frames: Seq<[S; CHANNELS]>, t: int) -> bool {
    envelope_is_silent(envelope_of(frames), t)
}

proof fn lemma_magnitude_sum_bound<S: Sampleable>(frames: Seq<[S; CHANNELS]>)
    ensures
        0 <= magnitude_sum(frames) <= frames.len() * S::max_magnitude(),
    decreases frames.len(),
{
    S::lemma_max_magnitude();
    if frames.len() > 0 {
        lemma_magnitude_sum_bound(frames.drop_last());
        S::lemma_amplitude_bound(frames.last()@[0]);
        assert(frames.len() * S::max_magnitude() == (frames.len() - 1) * S::max_magnitude()
            + S::max_magnitude()) by (nonlinear_arith);
    }
}

proof fn lemma_window_count(w: int, len: int)
    requires
        0 <= w,
        w * ENVELOPE_SIZE < len <= (w + 1) * ENVELOPE_SIZE,
    ensures
        window_count(len as nat) == w + 1,
{
}

/// The envelope of `frames`: one value per window of `ENVELOPE_SIZE` frames.
pub fn envelope<S: Sampleable>(frames: &[[S; CHANNELS]]) -> (r: Vec<u64>)
    ensures
        r@.len() == window_count(frames@.len()),
        forall|w: int| 0 <= w < r@.len() ==> #[trigger] r@[w] == envelope_of(frames@)[w],
        forall|w: int| 0 <= w < r@.len() ==> #[trigger] r@[w] <= 0x8000_0000,
{
    let len = frames.len();
    let mut r: Vec<u64> = Vec::new();
    let mut start: usize = 0;
    while start < len
        invariant
            len == frames@.len(),
            start <= len,
            start < len ==> start == r@.len() * ENVELOPE_SIZE,
            start == len ==> r@.len() == window_count(len as nat),
            forall|w: int| 0 <= w < r@.len() ==> #[trigger] r@[w] == envelope_of(frames@)[w],
            forall|w: int| 0 <= w < r@.len() ==> #[trigger] r@[w] <= 0x8000_0000,
        decreases len - start,
    {
        let end: usize = if len - start >= ENVELOPE_SIZE {
            start + ENVELOPE_SIZE
        } else {
            len
        };
        let ghost w = r@.len() as int;
        assert(window(frames@, w) == frames@.subrange(start as int, end as int));
        let mut acc: u64 = 0;
        let mut j: usize = start;
        while j < end
            invariant
                len == frames@.len(),
                start <= j <= end <= len,
                end - start <= ENVELOPE_SIZE,
                acc == magnitude_sum(frames@.subrange(start as int, j as int)),
            decreases end - j,
        {
            proof {
                let s = frames@.subrange(start as int, j as int + 1);
                assert(s.drop_last() == frames@.subrange(start as int, j as int));
                lemma_magnitude_sum_bound(s);
                S::lemma_max_magnitude();
                assert(s.len() * S::max_magnitude() <= ENVELOPE_SIZE * 0x8000_0000)
                    by (nonlinear_arith)
                    requires
                        s.len() <= ENVELOPE_SIZE,
                        0 <= S::max_magnitude() <= 0x8000_0000,
                ;
            }
            let m = frames[j][0].magnitude();
            acc = acc + m as u64;
            j = j + 1;
        }
        proof {
            lemma_magnitude_sum_bound(frames@.subrange(start as int, end as int));
            S::lemma_max_magnitude();
            let s = frames@.subrange(start as int, end as int);
            assert(s.len() * S::max_magnitude() <= ENVELOPE_SIZE * 0x8000_0000)
                by (nonlinear_arith)
                requires
                    s.len() <= ENVELOPE_SIZE,
                    0 <= S::max_magnitude() <= 0x8000_0000,
            ;
        }
        r.push(acc / (ENVELOPE_SIZE as u64));
        proof {
            if end == len {
                lemma_window_count(w, len as int);
            }
        }
        start = end;
    }
    r
}

/// Whether `frames` count as silent for threshold `threshold`: the sample
/// standard deviation of their envelope is below it.
pub fn frames_are_silent<S: Sampleable>(frames: &[[S; CHANNELS]], threshold: u16) -> (r: bool)
    ensures
        r == is_silent_spec(frames@, threshold as int),
{
    let len = frames.len();
    let env = envelope(frames);
    let ghost v = envelope_of(frames@);
    let n = env.len();
    if n <= 1 {
        return true;
    }
    assert(len <= 0xffff_ffff_ffff_ffff);
    assert(n <= 0x20_0000_0000_0001);
    let mut s1: u128 = 0;
    let mut s2: u128 = 0;
    let mut i: usize = 0;
    while i < n
        invariant
            n == env@.len() == v.len(),
            n <= 0x20_0000_0000_0001,
            i <= n,
            forall|w: int| 0 <= w < n ==> #[trigger] env@[w] == v[w],
            forall|w: int| 0 <= w < n ==> #[trigger] env@[w] <= 0x8000_0000,
            s1 == total(v.take(i as int)),
            s2 == square_total(v.take(i as int)),
            s1 <= i * 0x8000_0000,
            s2 <= i * 0x4000_0000_0000_0000,
        decreases n - i,
    {
        let e = env[i] as u128;
        proof {
            assert(v.take(i as int + 1).drop_last() == v.take(i as int));
            assert(e * e <= 0x4000_0000_0000_0000) by (nonlinear_arith)
                requires
                    e <= 0x8000_0000,
            ;
            assert(i * 0x4000_0000_0000_0000 <= 0x20_0000_0000_0001 * 0x4000_0000_0000_0000)
                by (nonlinear_arith)
                requires
                    i <= 0x20_0000_0000_0001,
            ;
        }
        s1 = s1 + e;
        s2 = s2 + e * e;
        i = i + 1;
    }
    assert(v.take(n as int) == v);
    let n2 = n as u128;
    let t = threshold as u128;
    // Write the total as q * n + r, so that every quantity below fits.
    let q = s1 / n2;
    let r = s1 % n2;
    proof {
        assert(q <= 0x8000_0000) by (nonlinear_arith)
            requires
                n2 > 0,
                q == s1 / n2,
                s1 <= n2 * 0x8000_0000,
        ;
        assert(q * q <= 0x4000_0000_0000_0000) by (nonlinear_arith)
            requires
                q <= 0x8000_0000,
        ;
        assert(q * q * n2 <= 0x4000_0000_0000_0000 * 0x20_0000_0000_0001) by (nonlinear_arith)
            requires
                q * q <= 0x4000_0000_0000_0000,
                n2 <= 0x20_0000_0000_0001,
        ;
        assert(2 * q * r <= 2 * 0x8000_0000 * 0x20_0000_0000_0001) by (nonlinear_arith)
            requires
                q <= 0x8000_0000,
                r < n2 <= 0x20_0000_0000_0001,
        ;
        assert(t * t <= 0x1_0000_0000) by (nonlinear_arith)
            requires
                t < 0x1_0000,
        ;
        assert(t * t * (n2 - 1) <= 0x1_0000_0000 * 0x20_0000_0000_0001) by (nonlinear_arith)
            requires
                t * t <= 0x1_0000_0000,
                1 < n2 <= 0x20_0000_0000_0001,
        ;
    }
    let x = s2;
    let y = q * q * n2 + 2 * q * r + t * t * (n2 - 1);
    let ghost ni = n as int;
    proof {
        assert(s1 == q * n2 + r) by (nonlinear_arith)
            requires
                n2 > 0,
                q == s1 / n2,
                r == s1 % n2,
        ;
        assert(ni * square_total(v) - (total(v) * total(v) + threshold * threshold * ni * (ni
            - 1)) == ni * (x - y) - r * r) by (nonlinear_arith)
            requires
                total(v) == q * ni + r,
                square_total(v) == x,
                y == q * q * ni + 2 * q * r + t * t * (ni - 1),
                t == threshold,
        ;
    }
    if x < y {
        proof {
            assert(n2 * (x - y) < 0) by (nonlinear_arith)
                requires
                    n2 > 0,
                    x < y,
            ;
            assert(r * r >= 0) by (nonlinear_arith);
            assert(is_silent_spec(frames@, threshold as int));
        }
        true
    } else if x == y {
        proof {
            assert(r * r > 0 <==> r > 0) by (nonlinear_arith)
                requires
                    r >= 0,
            ;
            assert(ni * (x - y) == 0) by (nonlinear_arith)
                requires
                    x == y,
            ;
            assert(is_silent_spec(frames@, threshold as int) == (r > 0));
        }
        r > 0
    } else {
        let e = x - y;
        if e >= n2 {
            proof {
                assert(n2 * e >= r * r) by (nonlinear_arith)
                    requires
                        e >= n2,
                        0 <= r < n2,
            ;
            }
            false
        } else {
            proof {
                assert(n2 * e < 0x20_0000_0000_0001 * 0x20_0000_0000_0001) by (nonlinear_arith)
                    requires
                        e < n2 <= 0x20_0000_0000_0001,
                ;
                assert(r * r < 0x20_0000_0000_0001 * 0x20_0000_0000_0001) by (nonlinear_arith)
                    requires
                        0 <= r < n2 <= 0x20_0000_0000_0001,
                ;
            }
            n2 * e < r * r
        }
    }
}

proof fn lemma_burst_totals(v: Seq<int>, k: int, a: int, i: int)
    requires
        0 <= i <= v.len(),
        forall|j: int| 0 <= j < v.len() ==> #[trigger] v[j] == (if j == k { a } else { 0 }),
    ensures
        total(v.take(i)) == (if 0 <= k < i { a } else { 0 }),
        square_total(v.take(i)) == (if 0 <= k < i { a * a } else { 0 }),
    decreases i,
{
    if i > 0 {
        assert(v.take(i).drop_last() == v.take(i - 1));
        lemma_burst_totals(v, k, a, i - 1);
    }
}

proof fn lemma_zero_magnitude_sum<S: Sampleable>(frames: Seq<[S; CHANNELS]>)
    requires
        forall|i: int| 0 <= i < frames.len() ==> #[trigger] frames[i]@[0].amplitude() == 0,
    ensures
        magnitude_sum(frames) == 0,
    decreases frames.len(),
{
    if frames.len() > 0 {
        let rest = frames.drop_last();
        assert forall|i: int| 0 <= i < rest.len() implies #[trigger] rest[i]@[0].amplitude()
            == 0 by {
            assert(rest[i] == frames[i]);
        }
        lemma_zero_magnitude_sum(rest);
        assert(frames.last() == frames[frames.len() - 1]);
    }
}

/// An envelope whose values are all zero is silent for every positive
/// threshold.
pub proof fn lemma_flat_envelope_is_silent(v: Seq<int>, t: int)
    requires
        t > 0,
        forall|j: int| 0 <= j < v.len() ==> #[trigger] v[j] == 0,
    ensures
        envelope_is_silent(v, t),
{
    let n = v.len() as int;
    if n > 1 {
        assert forall|j: int| 0 <= j < v.len() implies #[trigger] v[j] == (if j == 0 {
            0int
        } else {
            0int
        }) by {}
        lemma_burst_totals(v, 0, 0, n);
        assert(v.take(n) == v);
        assert(total(v) == 0 && square_total(v) == 0);
        assert(n * square_total(v) == 0 && total(v) * total(v) == 0) by (nonlinear_arith)
            requires
                total(v) == 0,
                square_total(v) == 0,
        ;
        assert(t * t * n * (n - 1) > 0) by (nonlinear_arith)
            requires
                t > 0,
                n > 1,
        ;
    }
}

/// A run of frames whose amplitudes are all zero is silent for every
/// positive threshold.
pub proof fn lemma_zero_frames_are_silent<S: Sampleable>(frames: Seq<[S; CHANNELS]>, t: int)
    requires
        t > 0,
        forall|i: int| 0 <= i < frames.len() ==> #[trigger] frames[i]@[0].amplitude() == 0,
    ensures
        is_silent_spec(frames, t),
{
    let v = envelope_of(frames);
    assert forall|w: int| 0 <= w < v.len() implies #[trigger] v[w] == 0 by {
        let win = window(frames, w);
        assert forall|i: int| 0 <= i < win.len() implies #[trigger] win[i]@[0].amplitude()
            == 0 by {
            assert(win[i] == frames[w * ENVELOPE_SIZE + i]);
        }
        lemma_zero_magnitude_sum(win);
    }
    lemma_flat_envelope_is_silent(v, t);
}

/// An envelope of two or more values that is zero but for one value `a` is
/// active as soon as `a * a >= t * t * n`: one loud window among quiet ones
/// raises the spread above the threshold.
pub proof fn lemma_single_burst_is_active(v: Seq<int>, k: int, a: int, t: int)
    requires
        v.len() >= 2,
        0 <= k < v.len(),
        forall|j: int| 0 <= j < v.len() ==> #[trigger] v[j] == (if j == k { a } else { 0 }),
        a * a >= t * t * v.len(),
    ensures
        !envelope_is_silent(v, t),
{
    let n = v.len() as int;
    lemma_burst_totals(v, k, a, n);
    assert(v.take(n) == v);
    assert(n * (a * a) >= a * a + t * t * n * (n - 1)) by (nonlinear_arith)
        requires
            n >= 2,
            a * a >= t * t * n,
    ;
}

} // verus!
