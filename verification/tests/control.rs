use voicechat_core::beep::BeepCoordinator;
use voicechat_core::beep::BeepStep;
use voicechat_core::errors::CoreError;
use voicechat_core::errors::check_upstream_status;
use voicechat_core::generation::Gate;
use voicechat_core::generation::GenerationCounter;
use voicechat_core::playback::continue_playback;
use voicechat_core::playback::plan_speak;
use voicechat_core::recording::Recorder;
use voicechat_core::telemetry::AWAITING_RESULT_BITS;
use voicechat_core::telemetry::AtomicF32;
use voicechat_core::telemetry::SILENCE_BITS;
use voicechat_core::tokens::TokenCountCache;
use voicechat_core::tokens::chat_format_token_total;

#[test]
fn last_begin_holds_sole_authority() {
    let mut counter = GenerationCounter::new();
    let t1 = counter.begin();
    assert_eq!(t1, 1);
    counter.force_stop();
    let t3 = counter.begin();
    assert_eq!(t3, 3);
    assert!(!counter.is_current(t1));
    assert!(counter.is_current(t3));
    counter.force_stop();
    assert!(!counter.is_current(t1));
    assert!(!counter.is_current(t3));
}

#[test]
fn ungated_playback_never_loses_authority() {
    let mut counter = GenerationCounter::new();
    let gate = Gate::Ungated;
    counter.begin();
    counter.force_stop();
    assert!(gate.passes(&counter));
    assert!(continue_playback(true, &gate, &counter));
    assert!(!continue_playback(false, &gate, &counter));
}

#[test]
fn stop_audio_supersedes_playing_sound() {
    let mut counter = GenerationCounter::new();
    let gate = Gate::Token(counter.begin());
    assert!(continue_playback(true, &gate, &counter));
    counter.force_stop();
    assert!(!continue_playback(true, &gate, &counter));
}

#[test]
fn speak_plan_prefetch_is_ungated_and_silent() {
    let mut counter = GenerationCounter::new();
    let plan = plan_speak(&mut counter, true, false);
    assert!(!plan.skip_entirely);
    assert!(!plan.play_after_fetch);
    assert!(matches!(plan.gate, Gate::Ungated));
    assert!(counter.is_current(0));

    let plan = plan_speak(&mut counter, true, true);
    assert!(plan.skip_entirely);

    let plan = plan_speak(&mut counter, false, false);
    assert!(plan.play_after_fetch);
    assert!(matches!(plan.gate, Gate::Token(1)));
    assert!(counter.is_current(1));
}

#[test]
fn cancel_skips_only_the_canceled_session() {
    let mut recorder = Recorder::new();
    let t1 = recorder.begin_session();
    recorder.cancel();
    assert!(recorder.finish_capture(t1));
    let t2 = recorder.begin_session();
    assert!(t2 > t1);
    assert!(!recorder.should_skip(t2));
    recorder.stop();
    assert!(!recorder.finish_capture(t2));
}

#[test]
fn stale_marker_never_short_circuits_newer_session() {
    let mut recorder = Recorder::new();
    let t1 = recorder.begin_session();
    // a force stop and a cancel race over the same generation
    recorder.stop();
    recorder.cancel();
    assert!(recorder.should_skip(t1));
    let t2 = recorder.begin_session();
    assert!(!recorder.should_skip(t2));
    recorder.stop();
    assert!(!recorder.finish_capture(t2));
}

#[test]
fn loudness_reports_processing_after_stop() {
    let mut recorder = Recorder::new();
    let t = recorder.begin_session();
    assert_eq!(recorder.load_loudness(), SILENCE_BITS);

    let amp = 0.5f32.to_bits();
    recorder.capture_frame(t, amp);
    assert_eq!(f32::from_bits(recorder.load_loudness()), 0.5);

    recorder.stop();
    // the superseded worker can no longer write telemetry
    recorder.capture_frame(t, 0.25f32.to_bits());
    assert_eq!(f32::from_bits(recorder.load_loudness()), 0.5);

    // finalizing shows the awaiting sentinel before any transcript exists
    assert!(!recorder.finish_capture(t));
    assert_eq!(f32::from_bits(recorder.load_loudness()), -1.0);

    // and only a new session returns the cell to an amplitude
    recorder.begin_session();
    assert_eq!(f32::from_bits(recorder.load_loudness()), 0.0);
}

#[test]
fn capture_worker_polls_its_token() {
    let mut recorder = Recorder::new();
    let t = recorder.begin_session();
    assert!(recorder.poll_continue(t));
    recorder.stop();
    assert!(!recorder.poll_continue(t));
}

#[test]
fn awaiting_sentinel_is_minus_one() {
    assert_eq!(AWAITING_RESULT_BITS, (-1.0f32).to_bits());
    assert_eq!(SILENCE_BITS, 0.0f32.to_bits());
}

#[test]
fn float_cell_round_trips_bit_patterns() {
    let mut cell = AtomicF32::new(0.0f32.to_bits());
    assert_eq!(f32::from_bits(cell.load()), 0.0);
    cell.store(0.75f32.to_bits());
    assert_eq!(f32::from_bits(cell.load()), 0.75);
}

#[test]
fn beep_gain_follows_duty_cycle_until_signal() {
    let mut beep = BeepCoordinator::new();
    for tick in 0..10u64 {
        match beep.step(false) {
            BeepStep::Gain { on } => assert_eq!(on, tick % 5 == 0),
            BeepStep::Stop => panic!("stopped without a signal"),
        }
    }
    assert!(matches!(beep.step(true), BeepStep::Stop));
}

#[test]
fn upstream_status_gate() {
    assert!(check_upstream_status(200, String::new()).is_ok());
    match check_upstream_status(404, "not found".to_string()) {
        Err(CoreError::UpstreamFailure { status, body }) => {
            assert_eq!(status, 404);
            assert_eq!(body, "not found");
        },
        _ => panic!("a non-success status must surface as an upstream failure"),
    }
}

#[test]
fn token_cache_returns_remembered_counts() {
    let mut cache = TokenCountCache::new();
    assert_eq!(cache.lookup(b"hello"), None);
    cache.insert(b"hello".to_vec(), 3);
    assert_eq!(cache.lookup(b"hello"), Some(3));
    assert_eq!(cache.lookup(b"other"), None);
}

#[test]
fn token_cache_drops_oldest_over_capacity() {
    let mut cache = TokenCountCache::new();
    for i in 0..101u32 {
        cache.insert(i.to_le_bytes().to_vec(), i as usize);
    }
    assert_eq!(cache.lookup(&0u32.to_le_bytes()), None);
    assert_eq!(cache.lookup(&1u32.to_le_bytes()), Some(1));
    assert_eq!(cache.lookup(&100u32.to_le_bytes()), Some(100));
}

#[test]
fn chat_format_total_charges_overheads() {
    assert_eq!(chat_format_token_total(&vec![]), Some(2));
    assert_eq!(chat_format_token_total(&vec![(1, 2)]), Some(9));
    assert_eq!(chat_format_token_total(&vec![(0, 0), (3, 4)]), Some(17));
}

#[test]
fn chat_format_total_reports_overflow() {
    assert_eq!(chat_format_token_total(&vec![(usize::MAX, 0)]), None);
}
