use waves::effects::{Channel, Zero};
use waves::mipmap::{MipMapChannel, PlotDataError, SamplePlotData};
use waves::player::{
    handle_command, on_buffer_rendered, AudioCommand, AudioUpdate, PlayerAction, PlayerState,
};
use waves::sample::{larger, louder, smaller, SILENCE};
use waves::track::Track;

fn bits(v: &[f32]) -> Vec<u32> {
    v.iter().map(|x| x.to_bits()).collect()
}

fn ramp(n: usize) -> Vec<f32> {
    (0..n).map(|i| i as f32).collect()
}

fn track(left: &[f32], right: &[f32]) -> Track {
    Track::new(
        None,
        left.len() as u64,
        48000,
        MipMapChannel::new(bits(left), 10),
        MipMapChannel::new(bits(right), 10),
    )
}

#[test]
fn zero_writes_silence() {
    for (start, channels) in [(0usize, 1usize), (12345, 2), (usize::MAX, 7)] {
        let mut buf = bits(&[0.25, -1.0, 3.0, 7.5, -0.0]);
        Zero.apply(&mut buf, start, channels);
        assert_eq!(buf.len(), 5);
        assert!(buf.iter().all(|&b| f32::from_bits(b) == 0.0 && b == SILENCE));
    }
}

#[test]
fn track_mono_and_stereo() {
    let t = track(&[1.0, 2.0, 3.0], &[-1.0, -2.0, -3.0]);
    let mut mono = vec![9u32; 4];
    t.apply(&mut mono, 1, 1);
    assert_eq!(mono, bits(&[2.0, 3.0, 0.0, 0.0]));
    let mut stereo = vec![9u32; 6];
    t.apply(&mut stereo, 0, 2);
    assert_eq!(stereo, bits(&[1.0, -1.0, 2.0, -2.0, 3.0, -3.0]));
    // An odd stereo buffer ends in a half frame.
    let mut odd = vec![9u32; 3];
    t.apply(&mut odd, 2, 2);
    assert_eq!(odd, bits(&[3.0, -3.0, 0.0]));
    // Slots past the second of a wider frame are left as they were.
    let mut wide = vec![9u32; 6];
    t.apply(&mut wide, 0, 3);
    assert_eq!(wide, vec![1.0f32.to_bits(), 9, 9, 2.0f32.to_bits(), 9, 9]);
}

#[test]
fn track_past_its_end_is_silent() {
    let t = track(&[0.5; 4], &[0.5; 4]);
    let mut buf = vec![7u32; 8];
    t.apply(&mut buf, usize::MAX, 2);
    assert_eq!(buf, vec![0u32; 8]);
    let mut none = vec![7u32; 3];
    t.apply(&mut none, 0, 0);
    assert_eq!(none, vec![7u32; 3]);
    assert_eq!(t.length(), 4);
    assert_eq!(t.sample_rate(), 48000);
    let (l, r) = t.sample_data();
    assert_eq!(l.len(), 4);
    assert_eq!(r.len(), 4);
}

#[test]
fn track_keeps_its_path() {
    let t = Track::new(
        Some("mp3s/C_major.mp3".to_string()),
        0,
        44100,
        MipMapChannel::new(vec![], 10),
        MipMapChannel::new(vec![], 10),
    );
    assert_eq!(t.file_path().as_deref(), Some("mp3s/C_major.mp3"));
    assert_eq!(t.file_data_left().get_full_data().len(), 0);
    assert_eq!(t.file_data_right().get_full_data().len(), 0);
}

#[test]
fn test_power_of_two_fail() {
    let mut vec = vec![0.0; 100];
    for i in 0..100 {
        vec[i] = i as f32;
    }
    let m = MipMapChannel::new(bits(&vec), 10);
    let mut d = SamplePlotData::new(3, 5, 20);
    let v = m.get_presampled_data_from_step_and_start(&mut d);
    assert!(matches!(v, Err(PlotDataError::StepNotPowerOfTwo(3))));
    assert_eq!(d.data[0], vec![0u32; 20]);
}

#[test]
fn test_power_of_two_overflow() {
    let mut vec = vec![0.0; 100];
    for i in 0..100 {
        vec[i] = i as f32;
    }
    let m = MipMapChannel::new(bits(&vec), 10);
    let mut d = SamplePlotData::new(16, 5, 20);
    let v = m.get_presampled_data_from_step_and_start(&mut d);
    assert!(matches!(v, Err(PlotDataError::StepBeyondPyramid(16))));
}

#[test]
fn unit_step_reproduces_samples() {
    let data: Vec<f32> = (0..5000).map(|i| ((i * 37) % 101) as f32 - 50.0).collect();
    let m = MipMapChannel::new(bits(&data), 10);
    let mut d = SamplePlotData::new(1, 0, data.len());
    assert!(matches!(m.get_presampled_data_from_step_and_start(&mut d), Ok(false)));
    assert_eq!(d.data[0], bits(&data));
    assert!(!d.is_min_max);
    assert_eq!(m.get_full_data(), &bits(&data)[..]);
}

#[test]
fn pyramid_levels_hold_pair_summaries() {
    // 4096 samples: levels of 4096, 2048, 1024 samples.
    let data: Vec<f32> = (0..4096).map(|i| if i % 2 == 0 { i as f32 } else { -(i as f32) - 0.5 }).collect();
    let m = MipMapChannel::new(bits(&data), 1);
    let mut d = SamplePlotData::new(2, 4, 3);
    assert!(matches!(m.get_presampled_data_from_step_and_start(&mut d), Ok(true)));
    assert!(d.is_min_max);
    // pairs (4, -5.5), (6, -7.5), (8, -9.5)
    assert_eq!(d.data[0], bits(&[-5.5, -7.5, -9.5]));
    assert_eq!(d.data[1], bits(&[4.0, 6.0, 8.0]));
    let m = MipMapChannel::new(bits(&data), 5);
    let mut d = SamplePlotData::new(4, 0, 2);
    assert!(matches!(m.get_presampled_data_from_step_and_start(&mut d), Ok(false)));
    // quads (0, -1.5, 2, -3.5) -> -3.5 ; (4, -5.5, 6, -7.5) -> -7.5
    assert_eq!(d.data[0], bits(&[-3.5, -7.5]));
    let mut d = SamplePlotData::new(8, 0, 2);
    assert!(matches!(m.get_presampled_data_from_step_and_start(&mut d), Err(PlotDataError::StepBeyondPyramid(8))));
}

#[test]
fn window_past_the_end_is_silent() {
    let data = ramp(2100);
    let m = MipMapChannel::new(bits(&data), 0);
    let mut d = SamplePlotData::new(2, 2096, 4);
    assert!(matches!(m.get_presampled_data_from_step_and_start(&mut d), Ok(true)));
    assert_eq!(d.data[0], bits(&[2096.0, 2098.0, 0.0, 0.0]));
    assert_eq!(d.data[1], bits(&[2097.0, 2099.0, 0.0, 0.0]));
    let t = Track::new(None, 2100, 48000, MipMapChannel::new(bits(&data), 0), MipMapChannel::new(vec![], 0));
    let mut d = SamplePlotData::new(1, 2099, 2);
    assert!(matches!(t.get_waveform_plot_data(&mut d, Channel::Left), Ok(true)));
    assert_eq!(d.data[0], bits(&[2099.0, 0.0]));
    let mut d = SamplePlotData::new(1, 0, 2);
    assert!(matches!(t.get_waveform_plot_data(&mut d, Channel::Right), Ok(true)));
    assert_eq!(d.data[0], vec![0u32, 0]);
}

#[test]
fn sample_order_follows_the_values() {
    let v = |x: f32| x.to_bits();
    assert_eq!(louder(v(-3.0), v(2.0)), v(-3.0));
    assert_eq!(louder(v(2.0), v(-2.0)), v(-2.0));
    assert_eq!(larger(v(-3.0), v(-2.0)), v(-2.0));
    assert_eq!(larger(v(1.5), v(-20.0)), v(1.5));
    assert_eq!(smaller(v(-3.0), v(-2.0)), v(-3.0));
    assert_eq!(smaller(v(0.0), v(-0.0)), v(-0.0));
    assert_eq!(larger(v(-0.0), v(0.0)), v(0.0));
}

#[test]
fn play_then_stop_sends_nothing_more() {
    let (s, a) = handle_command(PlayerState::Idle, AudioCommand::PlayFrom(1, 0));
    assert_eq!(a, PlayerAction::OpenStream { root: 1, start: 0 });
    let (s, u) = on_buffer_rendered(s, 512, 2);
    assert_eq!(u, Some(AudioUpdate::CurrentSample(256)));
    let (s, a) = handle_command(s, AudioCommand::Stop);
    assert_eq!(a, PlayerAction::CloseStream);
    assert_eq!(s, PlayerState::Idle);
    let (s, u) = on_buffer_rendered(s, 512, 2);
    assert_eq!(u, None);
    let (_, u) = on_buffer_rendered(s, 1024, 1);
    assert_eq!(u, None);
}

#[test]
fn relocate_restarts_or_reports() {
    let (s, a) = handle_command(PlayerState::Idle, AudioCommand::RelocateTo(1, 480));
    assert_eq!(s, PlayerState::Idle);
    assert_eq!(a, PlayerAction::Report(AudioUpdate::CurrentSample(480)));
    let playing = PlayerState::Playing { root: 1, sample_clock: 10 };
    let (s, a) = handle_command(playing, AudioCommand::RelocateTo(1, 96000));
    assert_eq!(s, PlayerState::Playing { root: 1, sample_clock: 96000 });
    assert_eq!(a, PlayerAction::OpenStream { root: 1, start: 96000 });
    let (s, u) = on_buffer_rendered(s, 7, 2);
    assert_eq!(s, PlayerState::Playing { root: 1, sample_clock: 96003 });
    assert_eq!(u, Some(AudioUpdate::CurrentSample(96003)));
    let end = PlayerState::Playing { root: 1, sample_clock: usize::MAX - 1 };
    let (_, u) = on_buffer_rendered(end, 8, 1);
    assert_eq!(u, Some(AudioUpdate::CurrentSample(usize::MAX)));
}
