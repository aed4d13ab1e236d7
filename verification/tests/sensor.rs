use devil_arm::bus::{emit, EmitOutcome, SampleBus, BUS_CAPACITY};
use devil_arm::sensor::{
    concat_spectra, feature_range, plan_normalization, power_of_two, Normalization, PushOutcome,
    ReadAction, SampleHold, SpectralFeatureExtractor, WindowError,
};
use emg_filter_rs::{EMGFilters, NotchFrequency, SampleFrequency};

#[test]
fn powers_of_two() {
    assert!(power_of_two(1));
    assert!(power_of_two(2));
    assert!(power_of_two(64));
    assert!(power_of_two(1 << 40));
    assert!(!power_of_two(0));
    assert!(!power_of_two(3));
    assert!(!power_of_two(96));
    assert!(!power_of_two(usize::MAX));
}

#[test]
fn extractor_sizes_are_checked() {
    assert!(SpectralFeatureExtractor::<f32>::new(3, 64).is_some());
    assert!(SpectralFeatureExtractor::<f32>::new(1, 2).is_some());
    assert!(SpectralFeatureExtractor::<f32>::new(0, 64).is_none());
    assert!(SpectralFeatureExtractor::<f32>::new(3, 1).is_none());
    assert!(SpectralFeatureExtractor::<f32>::new(3, 0).is_none());
    assert!(SpectralFeatureExtractor::<f32>::new(3, 48).is_none());
}

#[test]
fn extractor_must_fit_the_model() {
    assert!(SpectralFeatureExtractor::<f32>::for_model(3, 64, 96).is_ok());
    assert_eq!(
        SpectralFeatureExtractor::<f32>::for_model(3, 64, 192).err(),
        Some(WindowError::ModelMismatch)
    );
    assert_eq!(
        SpectralFeatureExtractor::<f32>::for_model(0, 64, 0).err(),
        Some(WindowError::NoChannel)
    );
    assert_eq!(
        SpectralFeatureExtractor::<f32>::for_model(3, 60, 90).err(),
        Some(WindowError::WindowLength)
    );
    assert_eq!(
        SpectralFeatureExtractor::<f32>::for_model(0, 60, 90).err(),
        Some(WindowError::NoChannel)
    );
}

#[test]
fn one_window_per_round_of_pushes() {
    let mut extractor = SpectralFeatureExtractor::<u32>::new(3, 4).unwrap();
    assert_eq!(extractor.channel_count(), 3);
    assert_eq!(extractor.window_size(), 4);
    let mut emitted = 0;
    for tick in 0..4u32 {
        for channel in 0..3usize {
            assert_eq!(extractor.due_channel(), channel);
            match extractor.push(tick * 10 + channel as u32, channel) {
                PushOutcome::Buffered => assert!(tick < 3 || channel < 2),
                PushOutcome::Full(windows) => {
                    assert_eq!((tick, channel), (3, 2));
                    emitted += 1;
                    assert_eq!(
                        windows,
                        vec![vec![0, 10, 20, 30], vec![1, 11, 21, 31], vec![2, 12, 22, 32]]
                    );
                }
                PushOutcome::OutOfTurn(_) => panic!("in turn"),
            }
        }
    }
    assert_eq!(emitted, 1);
    // the next push is the first sample of the next window
    assert!(matches!(extractor.push(40, 0), PushOutcome::Buffered));
    assert_eq!(extractor.due_channel(), 1);
    for tick in 0..4u32 {
        for channel in 0..3usize {
            if tick == 0 && channel == 0 {
                continue;
            }
            match extractor.push(100 + tick, channel) {
                PushOutcome::Full(windows) => {
                    emitted += 1;
                    assert_eq!(windows[0], vec![40, 101, 102, 103]);
                    assert_eq!(windows[2], vec![100, 101, 102, 103]);
                }
                PushOutcome::Buffered => {}
                PushOutcome::OutOfTurn(_) => panic!("in turn"),
            }
        }
    }
    assert_eq!(emitted, 2);
}

#[test]
fn a_sample_out_of_turn_is_handed_back() {
    let mut extractor = SpectralFeatureExtractor::<u32>::new(2, 2).unwrap();
    assert!(matches!(extractor.push(7, 1), PushOutcome::OutOfTurn(7)));
    assert!(matches!(extractor.push(7, 2), PushOutcome::OutOfTurn(7)));
    assert_eq!(extractor.due_channel(), 0);
    assert!(matches!(extractor.push(1, 0), PushOutcome::Buffered));
    assert!(matches!(extractor.push(2, 0), PushOutcome::OutOfTurn(2)));
    assert!(matches!(extractor.push(2, 1), PushOutcome::Buffered));
    assert!(matches!(extractor.push(3, 0), PushOutcome::Buffered));
    match extractor.push(4, 1) {
        PushOutcome::Full(windows) => assert_eq!(windows, vec![vec![1, 3], vec![2, 4]]),
        _ => panic!("the window is complete"),
    }
}

#[test]
fn spectra_are_joined_in_channel_order() {
    let spectra = vec![vec![1, 2], vec![3, 4], vec![5, 6]];
    assert_eq!(concat_spectra(&spectra, 2), Some(vec![1, 2, 3, 4, 5, 6]));
    assert_eq!(concat_spectra(&vec![], 2), Some(vec![]));
    assert_eq!(concat_spectra(&vec![vec![], vec![]], 0), Some(vec![]));
}

#[test]
fn spectra_of_another_length_give_no_features() {
    assert_eq!(concat_spectra(&vec![vec![1, 2], vec![3]], 2), None);
    assert_eq!(concat_spectra(&vec![vec![1, 2], vec![3, 4]], 3), None);
}

#[test]
fn range_of_features() {
    assert_eq!(feature_range(&vec![4, 9, 2, 7]), Some((2, 9)));
    assert_eq!(feature_range(&vec![5]), Some((5, 5)));
    assert_eq!(feature_range(&vec![]), None);
    assert_eq!(feature_range(&vec![0, u32::MAX]), Some((0, u32::MAX)));
}

#[test]
fn normalization_by_least_value_and_spread() {
    assert_eq!(
        plan_normalization(&vec![1310, 22, 31, 0]),
        Normalization::Scale { min: 0, span: 1310 }
    );
    assert_eq!(plan_normalization(&vec![10, 30]), Normalization::Scale { min: 10, span: 20 });
}

#[test]
fn constant_features_are_flat() {
    assert_eq!(plan_normalization(&vec![7, 7, 7]), Normalization::Flat);
    assert_eq!(plan_normalization(&vec![0]), Normalization::Flat);
    assert_eq!(plan_normalization(&vec![]), Normalization::Flat);
}

#[test]
fn a_failed_reading_is_retried_once_then_held() {
    let mut hold = SampleHold::new();
    assert_eq!(hold.accept(None), ReadAction::Retry);
    assert_eq!(hold.accept(None), ReadAction::Use(0));
    assert_eq!(hold.accept(Some(812)), ReadAction::Use(812));
    assert_eq!(hold.accept(None), ReadAction::Retry);
    assert_eq!(hold.accept(Some(900)), ReadAction::Use(900));
    assert_eq!(hold.accept(None), ReadAction::Retry);
    assert_eq!(hold.accept(None), ReadAction::Use(900));
    assert_eq!(hold.accept(None), ReadAction::Retry);
}

#[test]
fn bus_is_first_in_first_out() {
    let mut bus = SampleBus::new();
    assert!(bus.is_empty());
    assert_eq!(bus.try_receive(), None);
    assert_eq!(bus.try_send(vec![1, 2]), Ok(()));
    assert_eq!(bus.try_send(vec![3]), Ok(()));
    assert_eq!(bus.len(), 2);
    assert_eq!(bus.try_receive(), Some(vec![1, 2]));
    assert_eq!(bus.try_receive(), Some(vec![3]));
    assert_eq!(bus.try_receive(), None);
    assert!(bus.is_empty());
}

#[test]
fn a_full_bus_hands_the_features_back() {
    let mut bus = SampleBus::new();
    assert_eq!(BUS_CAPACITY, 64);
    for i in 0..64u32 {
        assert!(!bus.is_full());
        assert_eq!(bus.try_send(vec![i]), Ok(()));
    }
    assert!(bus.is_full());
    assert_eq!(bus.len(), 64);
    assert_eq!(bus.try_send(vec![64]), Err(vec![64]));
    assert_eq!(bus.len(), 64);
    // a receive frees a place, and nothing was lost
    assert_eq!(bus.try_receive(), Some(vec![0]));
    assert_eq!(bus.try_send(vec![64]), Ok(()));
    for i in 1..=64u32 {
        assert_eq!(bus.try_receive(), Some(vec![i]));
    }
    assert_eq!(bus.try_receive(), None);
}

#[test]
fn emit_sends_the_joined_spectra() {
    let mut bus = SampleBus::new();
    let spectra = vec![vec![1, 2], vec![3, 4]];
    assert!(matches!(emit(&mut bus, &spectra, 2), EmitOutcome::Sent));
    assert!(matches!(emit(&mut bus, &spectra, 3), EmitOutcome::Malformed));
    assert_eq!(bus.len(), 1);
    assert_eq!(bus.try_receive(), Some(vec![1, 2, 3, 4]));
}

#[test]
fn emit_on_a_full_bus_hands_the_features_out() {
    let mut bus = SampleBus::new();
    for i in 0..64u32 {
        assert_eq!(bus.try_send(vec![i]), Ok(()));
    }
    match emit(&mut bus, &vec![vec![9], vec![8]], 1) {
        EmitOutcome::BusFull(features) => assert_eq!(features, vec![9, 8]),
        _ => panic!("the bus is full"),
    }
    assert_eq!(bus.len(), 64);
}

fn features_of_constant_input(value: u16) -> Vec<u32> {
    let mut filters: Vec<EMGFilters> = (0..3)
        .map(|_| EMGFilters::new(SampleFrequency::Hz1000, NotchFrequency::Hz60, true, true, true))
        .collect();
    let mut extractor = SpectralFeatureExtractor::<f32>::for_model(3, 64, 96).ok().unwrap();
    let mut emitted: Vec<Vec<u32>> = Vec::new();
    for _tick in 0..64 {
        for channel in 0..3 {
            let filtered = filters[channel].update(f32::from(value));
            if let PushOutcome::Full(windows) = extractor.push(filtered, channel) {
                let mut spectra: Vec<Vec<u32>> = Vec::new();
                for window in windows {
                    let mut samples = [0f32; 64];
                    samples.copy_from_slice(&window);
                    let spectrum = microfft::real::rfft_64(&mut samples);
                    spectrum[0].im = 0.0;
                    spectra.push(spectrum.iter().map(|c| c.l1_norm() as u32).collect());
                }
                emitted.push(concat_spectra(&spectra, 32).unwrap());
            }
        }
    }
    assert_eq!(emitted.len(), 1);
    emitted.pop().unwrap()
}

#[test]
fn constant_input_gives_one_deterministic_feature_vector() {
    let first = features_of_constant_input(1000);
    let second = features_of_constant_input(1000);
    assert_eq!(first.len(), 96);
    assert_eq!(first, second);
    // the three channels saw the same samples
    assert_eq!(first[0..32], first[32..64]);
    assert_eq!(first[0..32], first[64..96]);
}
