//! Blocks of samples, tuning of the demodulator, and the spectrum's
//! bookkeeping.
use efd_station::dsp::audio_dsp::{AudioDsp, AudioDspFlags};
use efd_station::dsp::audio_if::{bandpass_for, mode_to_bandpass, Band};
use efd_station::dsp::blocks::{Decimated, Decimator, Framer, TapLine};
use efd_station::dsp::demod::{
    detector, outlet, retune, DemodConfig, DemodTuning, Detector, DropCounter, Outlet, Retune,
    Side, DRM_IF_BANDWIDTH,
};
use efd_station::dsp::nb::NoiseBlankerConfig;
use efd_station::dsp::spectrum::{bin_at, Averager, FftConfig};
use efd_station::proto::codec::F64;
use efd_station::proto::radio::Mode;

fn f64v(v: f64) -> F64 {
    F64 { bits: v.to_bits() }
}

fn windows<T: std::fmt::Debug>(d: Decimated<T>) -> Vec<Vec<T>> {
    match d {
        Decimated::Windows(w) => w,
        Decimated::Unfiltered(_) => panic!("expected windows, got {d:?}"),
    }
}

/// The moving average of the windows, as a filter with equal taps.
fn average(windows: Vec<Vec<f32>>) -> Vec<f32> {
    windows
        .iter()
        .map(|w| w.iter().sum::<f32>() / w.len() as f32)
        .collect()
}

#[test]
fn decimator_factor_4_length() {
    let mut dec = Decimator::new(4, 33, 0.0f32);
    // 1000 input samples at factor 4 → 250 output samples
    let input: Vec<f32> = vec![1.0; 1000];
    let output = average(windows(dec.process(&input)));
    assert_eq!(output.len(), 250);
}

#[test]
fn decimator_factor_1_passthrough() {
    let mut dec = Decimator::new(1, 1, 0.0f32);
    let input = vec![0.5, -0.3, 0.7];
    match dec.process(&input) {
        Decimated::Unfiltered(output) => assert_eq!(output, input),
        other => panic!("expected the input, got {other:?}"),
    }
}

#[test]
fn decimator_cross_block_continuity() {
    // Processing in two blocks should give the same result as one block
    let mut dec1 = Decimator::new(4, 33, 0.0f32);
    let mut dec2 = Decimator::new(4, 33, 0.0f32);

    let input: Vec<f32> = (0..800)
        .map(|i| (2.0 * std::f32::consts::PI * 0.05 * i as f32).sin())
        .collect();

    let out_one = average(windows(dec1.process(&input)));

    let out_a = average(windows(dec2.process(&input[..400])));
    let out_b = average(windows(dec2.process(&input[400..])));
    let out_two: Vec<f32> = out_a.into_iter().chain(out_b).collect();

    assert_eq!(out_one.len(), out_two.len());
    for (a, b) in out_one.iter().zip(out_two.iter()) {
        assert!((a - b).abs() < 1e-6, "cross-block mismatch: {a} vs {b}");
    }
}

#[test]
fn a_cut_in_a_period_leaves_no_trace() {
    let input: Vec<u32> = (1..=23).collect();
    let whole = windows(Decimator::new(5, 4, 0u32).process(&input));
    let mut dec = Decimator::new(5, 4, 0u32);
    let mut parts = windows(dec.process(&input[..7]));
    parts.extend(windows(dec.process(&input[7..8])));
    parts.extend(windows(dec.process(&input[8..])));
    assert_eq!(whole, parts);
    assert_eq!(whole[0], vec![1, 2, 3, 4, 5]);
    assert_eq!(whole[3], vec![16, 17, 18, 19, 20]);
    dec.reset(9);
    assert_eq!(
        windows(dec.process(&[1, 2, 3, 4, 5])),
        vec![vec![1, 2, 3, 4, 5]]
    );
}

#[test]
fn a_line_holds_an_odd_number_of_taps() {
    let mut line = TapLine::new(2, 0i32);
    assert_eq!(line.window(), &[0, 0, 0]);
    for x in 1..=4 {
        line.push(x);
    }
    assert_eq!(line.window(), &[2, 3, 4]);
    line.reset(7);
    assert_eq!(line.window(), &[7, 7, 7]);
    assert_eq!(TapLine::new(127, 0u8).window().len(), 127);
}

#[test]
fn frames_are_filled_across_blocks() {
    let mut framer = Framer::new(4);
    assert_eq!(framer.push(&[1, 2, 3]), Vec::<Vec<i32>>::new());
    assert_eq!(framer.push(&[4, 5, 6, 7, 8, 9]), vec![vec![1, 2, 3, 4], vec![5, 6, 7, 8]]);
    assert_eq!(framer.finish(), vec![9]);
    assert_eq!(framer.finish(), Vec::<i32>::new());
}

#[test]
fn the_decimation_follows_the_rates() {
    let d = DemodConfig::default().decimation();
    assert_eq!((d.factor, d.taps), (4, 33));
}

#[test]
fn only_what_changed_is_retuned() {
    let at = |mode, vfo, bw| DemodTuning {
        mode,
        vfo_offset_hz: f64v(vfo),
        filter_bw_hz: f64v(bw),
    };
    let a = at(Mode::USB, 0.0, 3000.0);
    let idle = Retune { shift: false, reset: false, filter: None };
    assert_eq!(retune(&a, &a), idle);
    assert_eq!(retune(&a, &at(Mode::USB, -0.0, 3000.0)), idle);
    assert!(retune(&a, &at(Mode::USB, 100.0, 3000.0)).shift);
    let narrower = retune(&a, &at(Mode::USB, 0.0, 500.0));
    assert!(!narrower.reset);
    assert_eq!(narrower.filter.unwrap().bandwidth, f64v(500.0));
    let drm = retune(&a, &at(Mode::DRM, 0.0, 3000.0));
    assert!(drm.reset);
    assert_eq!(drm.filter.unwrap().bandwidth, f64v(10_000.0));
    assert_eq!(drm.filter.unwrap().side, Side::Both);
    assert_eq!(f64::from_bits(DRM_IF_BANDWIDTH), 10_000.0);
    assert_eq!(f64::from_bits(DemodTuning::default().filter_bw_hz.bits), 3000.0);
    let nan = at(Mode::USB, f64::NAN, 3000.0);
    assert!(retune(&nan, &nan).shift);
}

#[test]
fn sidebands_are_selected_by_the_filter() {
    let side = |mode| {
        DemodTuning { mode, ..DemodTuning::default() }
            .channel()
            .side
    };
    assert_eq!(side(Mode::USB), Side::Upper);
    assert_eq!(side(Mode::CWR), Side::Lower);
    assert_eq!(side(Mode::AM), Side::Both);
    assert_eq!(side(Mode::FM), Side::Both);
}

#[test]
fn samples_go_where_the_mode_sends_them() {
    assert_eq!(outlet(Mode::DRM, true, 10), Outlet::DrmIf);
    assert_eq!(outlet(Mode::DRM, false, 10), Outlet::Nowhere);
    assert_eq!(outlet(Mode::USB, true, 0), Outlet::Nowhere);
    assert_eq!(outlet(Mode::LSB, false, 10), Outlet::Audio(Detector::RealPart));
    assert_eq!(detector(Mode::AM), Detector::Envelope);
    assert_eq!(detector(Mode::FM), Detector::Phase);
    assert_eq!(detector(Mode::DRM), Detector::Silence);
}

#[test]
fn drops_are_reported_at_powers_of_two() {
    let mut counter = DropCounter::new();
    let reported: Vec<u64> = (1..=20u64).filter(|_| counter.count()).collect();
    assert_eq!(reported, vec![1, 2, 4, 8, 16]);
    let mut full = DropCounter { dropped: u64::MAX };
    assert!(!full.count());
    assert_eq!(full.dropped, u64::MAX);
    let mut half = DropCounter { dropped: (1 << 63) - 1 };
    assert!(half.count());
}

#[test]
fn the_centre_stands_in_the_middle() {
    let order: Vec<usize> = (0..8).map(|j| bin_at(j, 8)).collect();
    assert_eq!(order, vec![4, 5, 6, 7, 0, 1, 2, 3]);
    let odd: Vec<usize> = (0..5).map(|j| bin_at(j, 5)).collect();
    assert_eq!(odd, vec![2, 3, 4, 0, 1]);
    assert_eq!(bin_at(0, 1), 0);
}

#[test]
fn a_picture_is_made_of_several_frames() {
    let mut a = Averager::new(3);
    let done: Vec<bool> = (0..7).map(|_| a.frame()).collect();
    assert_eq!(done, vec![false, false, true, false, false, true, false]);
    let mut one = Averager::new(0);
    assert_eq!(one.frames(), 1);
    assert!(one.frame());
    assert_eq!(f32::from_bits(FftConfig::default().ref_level_db.bits), -20.0);
    assert_eq!(FftConfig::default().fft_size, 4096);
}

#[test]
fn audio_passes_through_every_stage() {
    let mut dsp = AudioDsp::new();
    assert_eq!(dsp.flags(), AudioDspFlags::default());
    let all = AudioDspFlags { dnb: true, dnr: true, dnf: true, apf: true };
    dsp.set_flags(all);
    assert_eq!(dsp.flags(), all);
    let mut samples = [0.5f32, -0.5];
    dsp.process(&mut samples);
    assert_eq!(samples, [0.5, -0.5]);
    assert!(!NoiseBlankerConfig::default().enabled);
}

#[test]
fn narrow_modes_have_a_band() {
    assert_eq!(
        mode_to_bandpass(Mode::CW),
        Some(Band { center_hz: 800, bandwidth_hz: 500 })
    );
    assert_eq!(
        bandpass_for(Some(Mode::LSB)),
        Some(Band { center_hz: 1500, bandwidth_hz: 2400 })
    );
    assert_eq!(bandpass_for(Some(Mode::AM)), None);
    assert_eq!(bandpass_for(None), None);
}

#[test]
fn tunings_compare_as_numbers() {
    let at = |hz: f64| DemodTuning { vfo_offset_hz: f64v(hz), ..DemodTuning::default() };
    assert!(at(0.0) == at(-0.0));
    assert!(at(f64::NAN) != at(f64::NAN));
    assert!(at(100.0) != at(200.0));
    let idle = retune(&at(0.0), &at(-0.0));
    assert_eq!((idle.shift, idle.reset, idle.filter), (false, false, None));
    assert!(retune(&at(f64::NAN), &at(f64::NAN)).shift);
}
