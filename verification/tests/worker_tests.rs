use marconio::preset::AudioFxPreset;
use marconio::worker::DecodeEvent;
use marconio::worker::PlaybackModel;
use marconio::worker::SINK_QUEUE_LIMIT;
use marconio::worker::WorkerAction;
use marconio::worker::WorkerState;
use marconio::worker::is_success_status;
use marconio::worker::run_session;
use marconio::worker::should_apply_backpressure;

fn frame() -> DecodeEvent {
    DecodeEvent::Frame { sample_rate: 44_100, channels: 2, sample_count: 1152 }
}

#[test]
fn only_2xx_statuses_open_a_session() {
    assert!(is_success_status(200));
    assert!(is_success_status(204));
    assert!(is_success_status(299));
    assert!(!is_success_status(101));
    assert!(!is_success_status(300));
    assert!(!is_success_status(404));
    assert!(!is_success_status(500));
}

#[test]
fn backpressure_engages_above_the_queue_limit() {
    assert!(!should_apply_backpressure(0));
    assert!(!should_apply_backpressure(SINK_QUEUE_LIMIT));
    assert!(should_apply_backpressure(SINK_QUEUE_LIMIT + 1));
}

#[test]
fn cancellation_wins_over_any_decoder_outcome() {
    let mut s = WorkerState::new();
    assert_eq!(s.step(true, &frame()), WorkerAction::FinishStream);
    assert!(s.finished);
    assert_eq!(s.frames_played, 0);
}

#[test]
fn transient_outcomes_pause_and_retry() {
    let mut s = WorkerState::new();
    assert_eq!(s.step(false, &DecodeEvent::InsufficientData), WorkerAction::PauseAndRetry);
    assert_eq!(s.step(false, &DecodeEvent::CorruptFrame), WorkerAction::PauseAndRetry);
    assert!(!s.finished);
    assert_eq!(s.frames_played, 0);
}

#[test]
fn frames_are_counted_and_eof_finishes() {
    let mut s = WorkerState::new();
    assert_eq!(s.step(false, &frame()), WorkerAction::ProcessFrame);
    assert_eq!(s.step(false, &frame()), WorkerAction::ProcessFrame);
    assert_eq!(s.frames_played, 2);
    assert_eq!(s.step(false, &DecodeEvent::Eof), WorkerAction::FinishStream);
    assert!(s.finished);
    assert_eq!(s.frames_played, 2);
}

#[test]
fn decoder_error_every_third_frame_still_completes() {
    // Nine frames where every third decode fails, then end-of-stream:
    // the session runs to completion and plays exactly the good frames.
    let mut events: Vec<DecodeEvent> = Vec::new();
    let mut good: u64 = 0;
    for i in 0..9 {
        if i % 3 == 2 {
            events.push(DecodeEvent::CorruptFrame);
        } else {
            events.push(frame());
            good += 1;
        }
    }
    events.push(DecodeEvent::Eof);
    let (played, completed) = run_session(&events);
    assert!(completed);
    assert_eq!(played, good);
    assert_eq!(played, 6);
}

#[test]
fn frames_after_eof_are_never_played() {
    let events = vec![frame(), DecodeEvent::Eof, frame(), frame()];
    let (played, completed) = run_session(&events);
    assert!(completed);
    assert_eq!(played, 1);
}

#[test]
fn a_session_without_eof_never_completes() {
    let events = vec![frame(), DecodeEvent::InsufficientData, frame()];
    let (played, completed) = run_session(&events);
    assert!(!completed);
    assert_eq!(played, 2);
}

#[test]
fn stop_immediately_after_start_leaves_a_clean_manager() {
    let mut m = PlaybackModel::new();
    m.start_stream();
    m.stop_stream();
    assert!(!m.session_active);
    // A new start succeeds and is the only observable session.
    m.start_stream();
    assert!(m.session_active);
    assert_eq!(m.sessions_started, 2);
}

#[test]
fn stopping_is_idempotent() {
    let mut m = PlaybackModel::new();
    m.stop_stream();
    m.stop_stream();
    assert!(!m.session_active);
    assert_eq!(m.sessions_started, 0);
}

#[test]
fn starting_supersedes_the_running_session() {
    let mut m = PlaybackModel::new();
    m.start_stream();
    m.start_stream();
    assert!(m.session_active);
    assert_eq!(m.sessions_started, 2);
}

#[test]
fn preset_publishing_touches_only_the_cell() {
    let mut m = PlaybackModel::new();
    m.start_stream();
    m.set_preset(AudioFxPreset::Radio);
    assert_eq!(m.preset_code, AudioFxPreset::Radio.as_u8());
    assert!(m.session_active);
    assert_eq!(m.sessions_started, 1);
}
