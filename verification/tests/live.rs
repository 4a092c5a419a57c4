use solyan_airplay::airplay::live::{
    capture_retry_delay_ms, os_major, plan_stream, poll_window_ms, remember_last_samples, should_follow_receiver_clock,
    startup_prime_chunks, transition_frames, validate_capture_format, CaptureFormatError,
    FeedbackHealth, FeedbackOutcome, LatencyWindow, LiveProducer, LiveStreamMode, PtpRole,
    RtpHeartbeat, SilenceAction, MAX_SYNTHETIC_QUEUE_CHUNKS, SILENCE_GRACE_NS,
};
use solyan_airplay::airplay::targets::TargetDevice;
use solyan_airplay::capture::AudioFormat;
use std::time::Duration;

fn target(model: &str, os: Option<&str>) -> TargetDevice {
    TargetDevice {
        id: "AA:BB:CC:DD:EE:FF".into(),
        name: "Living Room".into(),
        model: model.into(),
        addresses: vec!["192.168.1.20".into()],
        supports_audio: true,
        supports_airplay2: true,
        supports_ptp: true,
        os_version: os.map(|s| s.to_string()),
        is_group_leader: true,
        parent_group_id: None,
        tight_sync_id: None,
    }
}

#[test]
fn synthetic_silence_is_paced_at_source_audio_time() {
    let source_rate = 48_000u32;
    let source_block_frames = 1024usize;
    let period = Duration::from_secs_f64(source_block_frames as f64 / source_rate as f64);

    assert!(period >= Duration::from_millis(21));
    assert!(period <= Duration::from_millis(22));
    assert!(MAX_SYNTHETIC_QUEUE_CHUNKS <= 4);
}

#[test]
fn os_major_reads_the_first_number() {
    assert_eq!(os_major(Some("27.1")), Some(27));
    assert_eq!(os_major(Some("iOS 18.4")), Some(18));
    assert_eq!(os_major(Some("v")), None);
    assert_eq!(os_major(Some("")), None);
    assert_eq!(os_major(None), None);
    assert_eq!(os_major(Some("4294967295.0")), Some(u32::MAX));
    assert_eq!(os_major(Some("4294967296.0")), None);
}

#[test]
fn only_new_standalone_homepods_lead_the_clock() {
    assert!(should_follow_receiver_clock(&target("AudioAccessory6,1", Some("27.0"))));
    assert!(!should_follow_receiver_clock(&target("AudioAccessory6,1", Some("26.4"))));
    assert!(!should_follow_receiver_clock(&target("AudioAccessory6,1", None)));
    assert!(!should_follow_receiver_clock(&target("AppleTV14,1", Some("27.0"))));
    let mut grouped = target("audioaccessory5,1", Some("28"));
    assert!(should_follow_receiver_clock(&grouped));
    grouped.tight_sync_id = Some("PAIR".into());
    assert!(!should_follow_receiver_clock(&grouped));
    let mut member = target("AudioAccessory5,1", Some("27.0"));
    member.is_group_leader = false;
    assert!(!should_follow_receiver_clock(&member));
}

#[test]
fn stream_plan_follows_profile_and_mode() {
    let homepod = target("AudioAccessory6,1", Some("27.0"));
    let p = plan_stream(0, LiveStreamMode::Single, &homepod);
    assert_eq!(
        p.latency_window,
        Some(LatencyWindow { min_samples: 3087, max_samples: 11025 })
    );
    assert_eq!(p.ptp_role, Some(PtpRole::FollowReceiver));
    assert_eq!(p.connect_timeout_secs, 20);

    let tv = target("AppleTV14,1", Some("18.0"));
    let p = plan_stream(120, LiveStreamMode::Single, &tv);
    assert_eq!(p.latency_window, None);
    assert_eq!(p.ptp_role, Some(PtpRole::SenderGrandmaster));

    let p = plan_stream(120, LiveStreamMode::MultiroomExperimental, &tv);
    assert_eq!(p.ptp_role, None);
    assert_eq!(p.connect_timeout_secs, 45);
}

#[test]
fn capture_format_must_be_stereo_16_bit_and_keep_its_rate() {
    let ok = AudioFormat { sample_rate: 48_000, channels: 2, bits_per_sample: 16 };
    assert_eq!(validate_capture_format(&ok, None), Ok(()));
    assert_eq!(validate_capture_format(&ok, Some(48_000)), Ok(()));
    assert_eq!(
        validate_capture_format(&ok, Some(44_100)),
        Err(CaptureFormatError::RateChanged { expected: 44_100, actual: 48_000 })
    );
    let mono = AudioFormat { sample_rate: 48_000, channels: 1, bits_per_sample: 16 };
    assert_eq!(
        validate_capture_format(&mono, None),
        Err(CaptureFormatError::UnexpectedFormat {
            sample_rate: 48_000,
            channels: 1,
            bits_per_sample: 16
        })
    );
    let float = AudioFormat { sample_rate: 44_100, channels: 2, bits_per_sample: 32 };
    assert!(matches!(
        validate_capture_format(&float, Some(48_000)),
        Err(CaptureFormatError::UnexpectedFormat { .. })
    ));
}

#[test]
fn startup_priming_and_transitions_follow_source_time() {
    // 450 ms of 48 kHz audio is 21600 frames: 22 blocks of 1024 frames.
    assert_eq!(startup_prime_chunks(48_000, 1024), 22);
    // 19845 frames at 44.1 kHz: 20 blocks of 1024 frames.
    assert_eq!(startup_prime_chunks(44_100, 1024), 20);
    assert_eq!(startup_prime_chunks(1000, 450), 1);
    assert_eq!(startup_prime_chunks(0, 1024), 0);
    assert_eq!(transition_frames(48_000), 96);
    assert_eq!(transition_frames(44_100), 88);
    assert_eq!(transition_frames(100), 1);
}

#[test]
fn producer_primes_then_fades_to_paced_silence() {
    let period = 21_333_333u64;
    let mut p = LiveProducer::new(period, 0);
    assert!(p.priming(2));
    assert!(p.prime_wants_silence(0));
    assert!(!p.prime_silence_sent(true, 0));
    assert_eq!(p.startup_chunks, 1);
    assert_eq!(p.silence_chunks, 1);
    assert!(!p.prime_wants_silence(period - 1));

    assert!(p.chunk_arrived());
    assert!(!p.chunk_arrived());
    p.prime_chunk_sent(true, 1000, 10);
    assert_eq!(p.startup_chunks, 2);
    assert_eq!(p.signal_chunks, 1);
    assert_eq!(p.signal_peak, 1000);
    assert!(!p.priming(2));

    p.start_live(20);
    assert_eq!(p.first_signal_baseline, Some(0));

    // Within the grace window nothing synthetic is produced.
    assert_eq!(p.live_poll_timeout(100, 0), SilenceAction::Wait);
    assert_eq!(p.late_polls, 1);
    // After it, one ramp block, but not into a full queue.
    let late = 10 + SILENCE_GRACE_NS;
    assert_eq!(p.live_poll_timeout(late, 4), SilenceAction::Wait);
    assert_eq!(p.live_poll_timeout(late, 3), SilenceAction::RampToSilence);
    p.ramp_sent(true, late);
    assert!(p.in_silence);
    assert_eq!(p.silence_transitions, 2);

    // Silence is paced: due one period after the ramp.
    assert_eq!(p.live_poll_timeout(late + period - 1, 0), SilenceAction::Wait);
    assert_eq!(p.live_poll_timeout(late + period, 0), SilenceAction::Silence);
    p.silence_sent(true);
    assert_eq!(p.live_poll_timeout(late + period + 1, 0), SilenceAction::Wait);
    assert_eq!(p.silence_chunks, 3);
    assert_eq!(p.captured_chunks, 1);
}

#[test]
fn producer_counts_drops_restarts_and_confirms_signal() {
    let mut p = LiveProducer::new(1_000_000, 0);
    p.start_live(0);
    assert_eq!(p.first_signal_baseline, None);
    assert!(p.chunk_arrived());
    assert!(!p.live_chunk_sent(true, 10, 5));
    assert!(p.live_chunk_sent(true, 500, 6));
    p.set_signal_baseline(40);
    assert!(!p.live_chunk_sent(true, 600, 7));
    assert!(!p.live_chunk_sent(false, 600, 8));
    assert_eq!(p.dropped_chunks, 1);
    assert_eq!(p.captured_chunks, 3);
    assert_eq!(p.signal_chunks, 2);

    p.check_signal(159);
    assert!(!p.signal_confirmed);
    p.check_signal(160);
    assert!(p.signal_confirmed);

    p.capture_restarted(9);
    assert_eq!(p.capture_restarts, 1);
    assert!(p.in_silence);
    assert_eq!(p.last_real_at_ns, None);
    assert_eq!(p.next_silence_at_ns, 1_000_009);
    assert_eq!(p.captured_chunks, 3);
    assert!(p.signal_confirmed);
    // The stream goes on with silence one block after the restart.
    assert_eq!(p.live_poll_timeout(1_000_008, 0), SilenceAction::Wait);
    assert_eq!(p.live_poll_timeout(1_000_009, 0), SilenceAction::Silence);
}

#[test]
fn heartbeat_reports_a_stall_after_three_seconds_without_packets() {
    let mut h = RtpHeartbeat::new(0);
    assert!(!h.observe(0, 10_000_000_000));
    assert!(!h.observe(5, 1_000_000_000));
    assert!(!h.observe(5, 3_999_999_999));
    assert!(h.observe(5, 4_000_000_000));
    assert!(!h.observe(6, 4_500_000_000));
    assert_eq!(h.last_progress_at_ns, 4_500_000_000);
}

#[test]
fn feedback_misses_degrade_and_failures_stop() {
    let mut h = FeedbackHealth::new();
    assert!(!h.record(FeedbackOutcome::Missed));
    assert!(!h.record(FeedbackOutcome::Missed));
    assert!(!h.degraded);
    assert!(!h.record(FeedbackOutcome::Missed));
    assert!(h.degraded);
    assert_eq!(h.consecutive_misses, 3);
    assert!(!h.record(FeedbackOutcome::Answered));
    assert!(!h.degraded);
    assert_eq!(h.consecutive_misses, 0);
    assert!(h.record(FeedbackOutcome::Failed));
    assert!(h.fatal);
}

#[test]
fn last_frame_is_remembered_per_channel() {
    let mut last = vec![0i16, 0];
    remember_last_samples(&[1, 2, 3, 4, 5, 6], 2, &mut last);
    assert_eq!(last, vec![5, 6]);
    remember_last_samples(&[7], 2, &mut last);
    assert_eq!(last, vec![5, 6]);
    remember_last_samples(&[], 2, &mut last);
    assert_eq!(last, vec![5, 6]);
    remember_last_samples(&[9, 8, 7], 0, &mut last);
    assert_eq!(last, vec![5, 6]);
    let mut short = vec![0i16];
    remember_last_samples(&[1, 2, 3, 4], 2, &mut short);
    assert_eq!(short, vec![3]);
}

#[test]
fn capture_polling_and_recovery_pacing() {
    assert_eq!(poll_window_ms(true), 8);
    assert_eq!(poll_window_ms(false), 35);
    assert_eq!(capture_retry_delay_ms(1), 250);
    assert_eq!(capture_retry_delay_ms(3), 750);
    assert_eq!(capture_retry_delay_ms(4), 1000);
    assert_eq!(capture_retry_delay_ms(6), 1000);
}
