use otoa_input::controller::{vad_step, LevelStatus, VadAction, VadControl, VadInput};
use otoa_input::level::LevelMeter;

#[test]
fn the_peak_is_the_loudest_sample_of_the_latest_frame() {
    let mut meter = LevelMeter::new();
    meter.record_frame(&[100, -20_000, 3], 0);
    meter.record_frame(&[5_000, -4_000], 10);
    assert_eq!(meter.peak, 5_000);
    let (peak, status) = meter.report(20);
    assert_eq!(peak, 5_000);
    assert_eq!(status, LevelStatus::Normal);
    assert_eq!(meter.peak, 0);
}

#[test]
fn i16_min_counts_as_full_scale() {
    let mut meter = LevelMeter::new();
    meter.record_frame(&[i16::MIN], 0);
    assert_eq!(meter.peak, i16::MAX);
}

#[test]
fn clipping_within_the_last_second_warns() {
    let mut meter = LevelMeter::new();
    let mut frame = vec![10_000i16; 512];
    frame[0] = 32_000;
    meter.record_frame(&frame, 0);
    assert_eq!(meter.report(100).1, LevelStatus::Clipped);
}

#[test]
fn clipping_older_than_a_second_is_forgotten() {
    let mut meter = LevelMeter::new();
    let mut frame = vec![10_000i16; 512];
    frame[0] = -32_768;
    meter.record_frame(&frame, 0);
    meter.record_frame(&vec![10_000i16; 512], 900);
    meter.record_frame(&vec![10_000i16; 512], 1001);
    assert_eq!(meter.window.len(), 2);
    assert_eq!(meter.report(1001).1, LevelStatus::Normal);
}

#[test]
fn a_quiet_frame_is_too_quiet() {
    let mut meter = LevelMeter::new();
    meter.record_frame(&[983, -983], 0);
    assert_eq!(meter.report(0).1, LevelStatus::TooQuiet);
    meter.record_frame(&[984], 0);
    assert_eq!(meter.report(0).1, LevelStatus::Normal);
}

#[test]
fn clearing_forgets_the_clip_counts() {
    let mut meter = LevelMeter::new();
    meter.record_frame(&[32_767], 0);
    meter.clear();
    assert!(meter.window.is_empty());
}

#[test]
fn the_vad_runs_only_after_resume() {
    assert_eq!(vad_step(false, VadInput::Audio { closed: false }), (false, vec![]));
    assert_eq!(
        vad_step(false, VadInput::Control(Some(VadControl::Resume))),
        (true, vec![VadAction::ResetModel])
    );
    assert_eq!(
        vad_step(true, VadInput::Audio { closed: false }),
        (true, vec![VadAction::RunModel])
    );
}

#[test]
fn suspending_the_vad_drops_the_waiting_audio() {
    assert_eq!(
        vad_step(true, VadInput::Control(Some(VadControl::Suspend))),
        (false, vec![VadAction::ResetModel, VadAction::DrainAudio])
    );
    assert_eq!(
        vad_step(false, VadInput::Control(Some(VadControl::Suspend))),
        (false, vec![VadAction::ResetModel, VadAction::DrainAudio])
    );
}

#[test]
fn the_vad_thread_ends_on_shutdown_or_a_closed_channel() {
    assert_eq!(vad_step(true, VadInput::Control(Some(VadControl::Shutdown))).1, vec![VadAction::Exit]);
    assert_eq!(vad_step(false, VadInput::Control(None)).1, vec![VadAction::Exit]);
    assert_eq!(vad_step(true, VadInput::Audio { closed: true }).1, vec![VadAction::Exit]);
}
