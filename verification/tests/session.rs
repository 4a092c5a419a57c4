use solyan_airplay::airplay::live::{CaptureFormatError, LiveStreamMode};
use solyan_airplay::airplay::session::{
    audio_choices, check_test_format, select_audio_device, session_result, stream_verdict,
    SelectError, StreamTestCounts, StreamVerdict, TEST_PREBUFFER_CHUNKS,
};
use solyan_airplay::airplay::targets::{choose_targets, TargetDevice, TargetError};
use solyan_airplay::capture::{
    append_and_take_blocks, chunk_peak, convert_s16_to_stereo, native_sample_kind, probe_peak,
    AudioFormat, NativeFormatError, NativeSampleKind, OUTPUT_BLOCK_SAMPLES,
};
use std::collections::VecDeque;

fn dev(id: &str, name: &str, model: &str, addresses: &[&str], audio: bool) -> TargetDevice {
    TargetDevice {
        id: id.into(),
        name: name.into(),
        model: model.into(),
        addresses: addresses.iter().map(|a| a.to_string()).collect(),
        supports_audio: audio,
        supports_airplay2: true,
        supports_ptp: false,
        os_version: None,
        is_group_leader: false,
        parent_group_id: None,
        tight_sync_id: None,
    }
}

fn sample_devices() -> Vec<TargetDevice> {
    vec![
        dev("AA:00", "Kitchen TV", "AppleTV14,1", &["fe80::1", "10.0.0.2"], true),
        dev("BB:00", "Bedroom", "AudioAccessory5,1", &["10.0.0.3"], true),
        dev("CC:00", "Printer", "Printer1,1", &["10.0.0.4"], false),
        dev("DD:00", "Office", "Speaker1,1", &["10.0.0.5"], true),
    ]
}

fn sels(v: &[&str]) -> Vec<String> {
    v.iter().map(|s| s.to_string()).collect()
}

#[test]
fn targets_without_selectors() {
    let devices = sample_devices();
    // Several audio receivers, one HomePod: the HomePod.
    assert_eq!(choose_targets(&devices, &vec![], LiveStreamMode::Single), Ok(vec![1]));
    assert_eq!(
        choose_targets(&devices, &vec![], LiveStreamMode::MultiroomExperimental),
        Err(TargetError::MultiroomNeedsSelection)
    );
    let only = vec![devices[2].clone(), devices[3].clone()];
    assert_eq!(choose_targets(&only, &vec![], LiveStreamMode::Single), Ok(vec![1]));
    let two_tvs = vec![devices[0].clone(), devices[3].clone()];
    assert_eq!(
        choose_targets(&two_tvs, &vec![], LiveStreamMode::Single),
        Err(TargetError::SelectOneReceiver)
    );
    let silent = vec![devices[2].clone()];
    assert_eq!(
        choose_targets(&silent, &sels(&["Printer"]), LiveStreamMode::Single),
        Err(TargetError::NoAudioReceivers)
    );
}

#[test]
fn targets_named_by_selectors() {
    let devices = sample_devices();
    assert_eq!(choose_targets(&devices, &sels(&["kitchen"]), LiveStreamMode::Single), Ok(vec![0]));
    assert_eq!(choose_targets(&devices, &sels(&["bb:00"]), LiveStreamMode::Single), Ok(vec![1]));
    assert_eq!(choose_targets(&devices, &sels(&["10.0.0.5"]), LiveStreamMode::Single), Ok(vec![3]));
    assert_eq!(
        choose_targets(&devices, &sels(&["Office", "bedroom", "OFFICE"]), LiveStreamMode::MultiroomExperimental),
        Ok(vec![3, 1])
    );
    assert_eq!(
        choose_targets(&devices, &sels(&["Office", "Office"]), LiveStreamMode::MultiroomExperimental),
        Err(TargetError::MultiroomNeedsTwo)
    );
    assert_eq!(
        choose_targets(&devices, &sels(&["Office", "Bedroom"]), LiveStreamMode::Single),
        Err(TargetError::SingleNeedsOne)
    );
    assert_eq!(
        choose_targets(&devices, &sels(&["Office", "Garage"]), LiveStreamMode::MultiroomExperimental),
        Err(TargetError::NotFound(1))
    );
    // Receivers without audio are never chosen.
    assert_eq!(
        choose_targets(&devices, &sels(&["Printer"]), LiveStreamMode::Single),
        Err(TargetError::NotFound(0))
    );
}

#[test]
fn test_device_selection() {
    let devices = sample_devices();
    assert_eq!(select_audio_device(&devices, None), Ok(1));
    assert_eq!(select_audio_device(&devices, Some("appletv")), Ok(0));
    assert_eq!(select_audio_device(&devices, Some("OFF")), Ok(3));
    assert_eq!(select_audio_device(&devices, Some("10.0.0.3")), Ok(1));
    assert_eq!(select_audio_device(&devices, Some("printer")), Err(SelectError::NoMatch));
    let two = vec![devices[0].clone(), devices[3].clone()];
    assert_eq!(select_audio_device(&two, None), Err(SelectError::Ambiguous));
    let none: Vec<TargetDevice> = vec![devices[2].clone()];
    assert_eq!(select_audio_device(&none, None), Err(SelectError::NoAudioReceivers));
    assert_eq!(
        audio_choices(&devices),
        "Kitchen TV (AppleTV14,1), Bedroom (AudioAccessory5,1), Office (Speaker1,1)"
    );
    assert_eq!(audio_choices(&none), "");
}

#[test]
fn session_report_prefers_ipv4() {
    let devices = sample_devices();
    let r = session_result(&devices[0]);
    assert_eq!(r.name, "Kitchen TV");
    assert_eq!(r.model, "AppleTV14,1");
    assert_eq!(r.address, "10.0.0.2");
    assert!(r.supports_airplay2);
    assert!(!r.supports_ptp);
    let v6 = dev("EE:00", "Den", "X", &["fe80::9"], true);
    assert_eq!(session_result(&v6).address, "fe80::9");
    let bare = dev("FF:00", "Attic", "X", &[], true);
    assert_eq!(session_result(&bare).address, "<unknown>");
}

#[test]
fn stream_test_format_and_verdict() {
    assert_eq!(check_test_format(&AudioFormat::default()), Ok(()));
    let f = AudioFormat { sample_rate: 48_000, channels: 2, bits_per_sample: 16 };
    assert_eq!(
        check_test_format(&f),
        Err(CaptureFormatError::UnexpectedFormat {
            sample_rate: 48_000,
            channels: 2,
            bits_per_sample: 16
        })
    );
    assert_eq!(TEST_PREBUFFER_CHUNKS, 25);
    assert_eq!(stream_verdict(0, 0), StreamVerdict::NothingSent);
    assert_eq!(stream_verdict(0, 7), StreamVerdict::NothingSent);
    assert_eq!(stream_verdict(10, 0), StreamVerdict::Clean);
    assert_eq!(stream_verdict(10, 2), StreamVerdict::WithDrops);
}

#[test]
fn native_pcm_is_made_stereo() {
    // Two stereo frames: (1, -2), (256, 32767).
    let raw = [1u8, 0, 0xfe, 0xff, 0, 1, 0xff, 0x7f];
    assert_eq!(convert_s16_to_stereo(&raw, 2, 2), vec![1, -2, 256, 32767]);
    // Mono is doubled.
    let mono = [5u8, 0, 6, 0];
    assert_eq!(convert_s16_to_stereo(&mono, 2, 1), vec![5, 5, 6, 6]);
    // Extra channels are dropped.
    let quad = [1u8, 0, 2, 0, 3, 0, 4, 0];
    assert_eq!(convert_s16_to_stereo(&quad, 1, 4), vec![1, 2]);
    // A short buffer reads silence.
    assert_eq!(convert_s16_to_stereo(&mono, 3, 1), vec![5, 5, 6, 6, 0, 0]);
    assert_eq!(convert_s16_to_stereo(&[1, 0, 2, 0], 2, 2), vec![1, 2, 0, 0]);
    // No frames: nothing, whatever the channel count.
    assert_eq!(convert_s16_to_stereo(&[], 0, usize::MAX), Vec::<i16>::new());
    // One frame of a very wide source reads only its first two channels.
    assert_eq!(convert_s16_to_stereo(&[7, 0, 8, 0], 1, usize::MAX / 2), vec![7, 8]);
}

#[test]
fn peaks_of_chunks() {
    assert_eq!(chunk_peak(&[]), 0);
    assert_eq!(chunk_peak(&[3, -700, 12]), 700);
    assert_eq!(chunk_peak(&[i16::MIN, 5]), 32768);
    assert_eq!(probe_peak(&[]), None);
    assert_eq!(probe_peak(&[3, -700, 12]), Some(700));
    assert_eq!(probe_peak(&[i16::MIN]), Some(i16::MAX));
}

#[test]
fn native_formats_that_can_be_captured() {
    assert_eq!(native_sample_kind(true, 32, 2, 48_000), Ok(NativeSampleKind::F32));
    assert_eq!(native_sample_kind(false, 16, 6, 44_100), Ok(NativeSampleKind::S16));
    assert_eq!(native_sample_kind(true, 32, 0, 48_000), Err(NativeFormatError::NoChannels));
    assert_eq!(
        native_sample_kind(false, 24, 2, 96_000),
        Err(NativeFormatError::Unsupported {
            is_float: false,
            bits_per_sample: 24,
            channels: 2,
            sample_rate: 96_000
        })
    );
    assert!(matches!(
        native_sample_kind(true, 16, 0, 48_000),
        Err(NativeFormatError::Unsupported { .. })
    ));
}

#[test]
fn capture_blocks_keep_every_sample_in_order() {
    let mut pending: VecDeque<i16> = VecDeque::new();
    let first: Vec<i16> = (0..5).collect();
    let blocks = append_and_take_blocks(&mut pending, &first, 4);
    assert_eq!(blocks, vec![vec![0, 1, 2, 3]]);
    assert_eq!(pending.iter().copied().collect::<Vec<_>>(), vec![4]);
    let second: Vec<i16> = (5..14).collect();
    let blocks = append_and_take_blocks(&mut pending, &second, 4);
    assert_eq!(blocks, vec![vec![4, 5, 6, 7], vec![8, 9, 10, 11]]);
    assert_eq!(pending.iter().copied().collect::<Vec<_>>(), vec![12, 13]);
    let none = append_and_take_blocks(&mut pending, &vec![], 4);
    assert!(none.is_empty());
    assert_eq!(pending.len(), 2);
    assert_eq!(OUTPUT_BLOCK_SAMPLES, 2048);
}

#[test]
fn stream_test_counts_primed_sent_and_dropped_blocks() {
    let mut c = StreamTestCounts::new();
    for _ in 0..TEST_PREBUFFER_CHUNKS {
        assert!(c.priming());
        c.prebuffer_offered(true);
        c.prebuffer_offered(false);
    }
    assert!(!c.priming());
    assert_eq!(c.prebuffered, 25);
    c.live_offered(true);
    c.live_offered(true);
    c.live_offered(false);
    assert_eq!((c.sent, c.dropped), (2, 1));
}
