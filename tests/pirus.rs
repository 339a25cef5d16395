use pirus::{
    envelope, frames_are_silent, keep_playing, step, Action, Event, Phase, Sample, Sampleable,
    StopPoll, Track, CHANNELS, DEFAULT_SAMPLE_RATE, ENVELOPE_SIZE, SILENCE_THRESHOLD,
};

fn constant_frames(len: usize, value: i16) -> Vec<[i16; CHANNELS]> {
    vec![[value]; len]
}

/// A buffer of `windows` full windows, the window at `loud` holding `value`
/// and the others zero.
fn burst(windows: usize, loud: usize, value: i16) -> Vec<[i16; CHANNELS]> {
    let mut frames = Vec::new();
    for w in 0..windows {
        let v = if w == loud { value } else { 0 };
        frames.extend(constant_frames(ENVELOPE_SIZE, v));
    }
    frames
}

#[test]
fn it_works() {}

#[test]
fn silence_has_the_length_zeros_and_default_rate() {
    for len in [1usize, 2, 4096, 10_000] {
        let s: Sample<i16> = Sample::silence(len);
        assert_eq!(s.data().len(), len);
        assert!(s.data().iter().all(|f| f[0] == 0));
        assert_eq!(s.sample_rate(), 48000);
        assert_eq!(DEFAULT_SAMPLE_RATE, 48000);
    }
    let s: Sample<i32> = Sample::silence(0);
    assert!(s.data().is_empty());
}

#[test]
fn from_frames_keeps_frames_and_rate() {
    let s = Sample::from_frames(vec![[1i16], [-2], [3]], 44100);
    assert_eq!(s.data(), &[[1i16], [-2], [3]][..]);
    assert_eq!(s.sample_rate(), 44100);
}

#[test]
fn data_mut_overwrites_in_place() {
    let mut s: Sample<i16> = Sample::silence(4);
    for (i, f) in s.data_mut().iter_mut().enumerate() {
        f[0] = i as i16 * 10;
    }
    assert_eq!(s.data(), &[[0i16], [10], [20], [30]][..]);
    assert_eq!(s.data().len(), 4);
    assert_eq!(s.sample_rate(), 48000);
}

#[test]
fn magnitude_of_extreme_values() {
    assert_eq!(i16::MIN.magnitude(), 32768);
    assert_eq!(i16::MAX.magnitude(), 32767);
    assert_eq!((-5i16).magnitude(), 5);
    assert_eq!(i32::MIN.magnitude(), 2_147_483_648);
    assert_eq!((-7i32).magnitude(), 7);
    assert_eq!(i16::zero(), 0);
    assert_eq!(i32::zero(), 0);
}

#[test]
fn envelope_has_one_value_per_window() {
    for (len, windows) in [(1usize, 1usize), (4095, 1), (4096, 1), (4097, 2), (8192, 2), (16385, 5)] {
        assert_eq!(envelope(&constant_frames(len, 3)).len(), windows);
    }
    assert!(envelope::<i16>(&[]).is_empty());
}

#[test]
fn envelope_values_are_window_means() {
    let mut frames = constant_frames(ENVELOPE_SIZE, -100);
    frames.extend(constant_frames(ENVELOPE_SIZE / 2, 100));
    frames.push([7]);
    // the last window is normalised by the full window size
    assert_eq!(envelope(&frames), vec![100, (2048 * 100 + 7) / 4096]);
    assert_eq!(envelope(&frames), vec![100, 50]);
    let loud = constant_frames(ENVELOPE_SIZE, i16::MIN);
    assert_eq!(envelope(&loud), vec![32768]);
}

#[test]
fn all_zero_buffer_is_silent() {
    for len in [1usize, 4096, 4097, 5 * 4096] {
        let s: Sample<i16> = Sample::silence(len);
        assert!(s.is_silent());
        assert!(frames_are_silent(s.data(), 1));
    }
}

#[test]
fn one_loud_window_among_zeros_is_active() {
    let s = Sample::from_frames(burst(4, 1, 1000), 48000);
    assert!(!s.is_silent());
    let s = Sample::from_frames(burst(2, 0, 1000), 48000);
    assert!(!s.is_silent());
}

#[test]
fn single_window_has_no_spread() {
    let s = Sample::from_frames(constant_frames(100, i16::MAX), 48000);
    assert!(s.is_silent());
    assert!(s.is_silent_with(0));
}

#[test]
fn constant_loud_buffer_is_silent() {
    let s = Sample::from_frames(constant_frames(3 * ENVELOPE_SIZE, 20000), 48000);
    assert!(s.is_silent());
}

#[test]
fn threshold_sits_at_the_standard_deviation() {
    // values 0 and 100: sample variance 5000, standard deviation about 70.7
    let frames = burst(2, 1, 100);
    assert!(!frames_are_silent(&frames, 70));
    assert!(frames_are_silent(&frames, 71));
    let s = Sample::from_frames(frames, 48000);
    assert!(!s.is_silent_with(70));
    assert!(s.is_silent_with(71));
    assert_eq!(SILENCE_THRESHOLD, 64);
    assert!(!s.is_silent());
}

#[test]
fn deviation_equal_to_threshold_is_active() {
    // window values 0, 10 and 20: mean 10, sample variance exactly 100
    let mut frames = constant_frames(ENVELOPE_SIZE, 0);
    frames.extend(constant_frames(ENVELOPE_SIZE, 10));
    frames.extend(constant_frames(ENVELOPE_SIZE, -20));
    assert_eq!(envelope(&frames), vec![0, 10, 20]);
    assert!(!frames_are_silent(&frames, 10));
    assert!(frames_are_silent(&frames, 11));
    // window values 1, 0 and 0: the total does not divide evenly
    let mut frames = constant_frames(ENVELOPE_SIZE, 1);
    frames.extend(constant_frames(2 * ENVELOPE_SIZE, 0));
    assert!(!frames_are_silent(&frames, 0));
    assert!(frames_are_silent(&frames, 1));
}

#[test]
fn works_for_wide_samples() {
    let mut frames: Vec<[i32; CHANNELS]> = vec![[0]; ENVELOPE_SIZE];
    frames.extend(vec![[i32::MIN]; ENVELOPE_SIZE]);
    let s = Sample::from_frames(frames, 96000);
    assert_eq!(envelope(s.data()), vec![0, 2_147_483_648]);
    assert!(!s.is_silent());
}

#[test]
fn session_transitions() {
    let mut p = Phase::Idle;
    assert_eq!(step(&mut p, Event::Captured { silent: false }), Action::Ignore);
    assert_eq!(p, Phase::Idle);
    assert_eq!(step(&mut p, Event::BarrierReleased), Action::Capture);
    assert_eq!(p, Phase::WaitingForSound);
    assert_eq!(step(&mut p, Event::Captured { silent: true }), Action::Capture);
    assert_eq!(p, Phase::WaitingForSound);
    assert_eq!(step(&mut p, Event::Captured { silent: false }), Action::Write);
    assert_eq!(p, Phase::Recording);
    assert_eq!(step(&mut p, Event::Written { silent: false }), Action::Capture);
    assert_eq!(p, Phase::Recording);
    assert_eq!(step(&mut p, Event::Captured { silent: true }), Action::Write);
    assert_eq!(step(&mut p, Event::Written { silent: true }), Action::Cancel);
    assert_eq!(p, Phase::Stopping);
    assert_eq!(step(&mut p, Event::Written { silent: false }), Action::Ignore);
    assert_eq!(step(&mut p, Event::PlaybackJoined), Action::Finish);
    assert_eq!(p, Phase::Done);
    for e in [
        Event::BarrierReleased,
        Event::Captured { silent: false },
        Event::Written { silent: true },
        Event::PlaybackJoined,
    ] {
        assert_eq!(step(&mut p, e), Action::Ignore);
        assert_eq!(p, Phase::Done);
    }
}

#[test]
fn playback_stops_on_signal_or_disconnect() {
    assert!(keep_playing(StopPoll::Empty));
    assert!(!keep_playing(StopPoll::Signalled));
    assert!(!keep_playing(StopPoll::Disconnected));
}

#[test]
fn session_skips_leading_silence_and_cancels_once() {
    let len = 2 * ENVELOPE_SIZE;
    let quiet = constant_frames(len, 0);
    let loud_a = burst(2, 0, 1000);
    let loud_b = burst(2, 1, 2000);
    let device = vec![
        quiet.clone(),
        quiet.clone(),
        quiet.clone(),
        loud_a.clone(),
        loud_b.clone(),
        quiet.clone(),
    ];
    let mut reads = device.into_iter();
    let mut buffer: Sample<i16> = Sample::silence(len);
    let mut sink: Vec<i16> = Vec::new();
    let mut cancels = 0;
    let mut written_at_cancel = 0;
    let mut phase = Phase::Idle;
    let mut action = step(&mut phase, Event::BarrierReleased);
    loop {
        action = match action {
            Action::Capture => {
                let next = reads.next().expect("the session read past the device's buffers");
                buffer.data_mut().copy_from_slice(&next);
                let silent = buffer.is_silent();
                step(&mut phase, Event::Captured { silent })
            }
            Action::Write => {
                for f in buffer.data() {
                    sink.extend_from_slice(f);
                }
                let silent = buffer.is_silent();
                step(&mut phase, Event::Written { silent })
            }
            Action::Cancel => {
                cancels += 1;
                written_at_cancel = sink.len();
                step(&mut phase, Event::PlaybackJoined)
            }
            Action::Finish => break,
            Action::Ignore => panic!("unexpected event"),
        };
    }
    assert_eq!(phase, Phase::Done);
    assert_eq!(cancels, 1);
    assert_eq!(written_at_cancel, sink.len());
    assert!(reads.next().is_none());
    // the active buffers come first, then the silent one that ended the take
    let mut expected: Vec<i16> = Vec::new();
    for b in [&loud_a, &loud_b, &quiet] {
        expected.extend(b.iter().map(|f| f[0]));
    }
    assert_eq!(sink, expected);
    assert_eq!(&sink[..len], &loud_a.iter().map(|f| f[0]).collect::<Vec<_>>()[..]);
}

#[test]
fn track_keeps_its_samples() {
    let t = Track::new(vec![Sample::<i16>::silence(2), Sample::from_frames(vec![[4]], 8000)]);
    assert_eq!(t.samples().len(), 2);
    assert_eq!(t.samples()[1].sample_rate(), 8000);
    assert_eq!(t.samples()[0].data().len(), 2);
}
