use solyan_airplay::airplay::device_profile::DeviceKind;
use solyan_airplay::airplay::discovery::AirPlayReceiver;
use solyan_airplay::airplay::live::LiveStreamMode;
use solyan_airplay::gui::{
    can_start, choose_stream_mode, count_receivers, multiroom_switched, device_sort_rank, effective_render_delay_ms,
    protocol_label, push_log, reconcile_selection, selected_name_list, set_selected,
    sort_receivers, yes_no, Activity, StartError, MAX_LOG_LINES,
};
use solyan_airplay::assets::embedded_logo_png;
use std::collections::VecDeque;

fn rx(id: &str, name: &str, model: &str) -> AirPlayReceiver {
    AirPlayReceiver {
        id: id.into(),
        name: name.into(),
        model: model.into(),
        port: 7000,
        addresses: vec!["10.0.0.9".into()],
        source_version: "400.0.0".into(),
        features_raw: 0,
        supports_audio: true,
        supports_airplay2: true,
        supports_ptp: true,
        supports_buffered_audio: true,
        supports_transient_pairing: true,
        requires_password: false,
        group_id: None,
        is_group_leader: false,
        group_public_name: None,
        group_contains_discoverable_leader: false,
        parent_group_id: None,
        tight_sync_id: None,
    }
}

fn ids(v: &[&str]) -> Vec<String> {
    v.iter().map(|s| s.to_string()).collect()
}

#[test]
fn activity_labels_and_states() {
    assert_eq!(Activity::Idle.label(), "Ready");
    assert_eq!(Activity::ConnectionTest.label(), "Testing AirPlay");
    assert_eq!(Activity::Stopping.label(), "Stopping");
    assert!(Activity::Streaming.is_streaming());
    assert!(Activity::Stopping.is_streaming());
    assert!(!Activity::Scanning.is_streaming());
    assert!(!Activity::Idle.is_busy());
    assert!(Activity::AudioTest.is_busy());
    assert_eq!(yes_no(true), "YES");
    assert_eq!(yes_no(false), "NO");
}

#[test]
fn receivers_are_listed_homepods_first_stably() {
    assert_eq!(device_sort_rank(DeviceKind::HomePodMini), 0);
    assert_eq!(device_sort_rank(DeviceKind::AppleTv4K3), 10);
    assert_eq!(device_sort_rank(DeviceKind::AirPlaySpeaker), 30);
    let mut devices = vec![
        rx("1", "Speaker A", "Speaker1,1"),
        rx("2", "TV", "AppleTV14,1"),
        rx("3", "Mini", "AudioAccessory5,1"),
        rx("4", "Speaker B", "Speaker2,1"),
        rx("5", "Old TV", "AppleTV3,2"),
        rx("6", "Mini 2", "AudioAccessory5,1"),
    ];
    sort_receivers(&mut devices);
    let order: Vec<&str> = devices.iter().map(|d| d.id.as_str()).collect();
    assert_eq!(order, vec!["3", "6", "2", "5", "1", "4"]);
    assert_eq!(count_receivers(&devices, true), 2);
    assert_eq!(count_receivers(&devices, false), 2);
    let mut empty: Vec<AirPlayReceiver> = vec![];
    sort_receivers(&mut empty);
    assert!(empty.is_empty());
}

#[test]
fn scan_keeps_discovered_selection() {
    let devices = vec![rx("A", "Kitchen", "X"), rx("B", "Den", "Y")];
    let mut sel = ids(&["Z", "B", "A"]);
    reconcile_selection(&mut sel, &devices, &None, true);
    assert_eq!(sel, ids(&["B", "A"]));
    let mut sel = ids(&["B", "A"]);
    reconcile_selection(&mut sel, &devices, &None, false);
    assert_eq!(sel, ids(&["B"]));
    let mut sel = ids(&["gone"]);
    reconcile_selection(&mut sel, &devices, &Some("A".to_string()), false);
    assert_eq!(sel, ids(&["A"]));
    let mut sel = ids(&[]);
    reconcile_selection(&mut sel, &devices, &Some("gone".to_string()), false);
    assert!(sel.is_empty());
    let one = vec![rx("Q", "Only", "X")];
    let mut sel = ids(&[]);
    reconcile_selection(&mut sel, &one, &None, false);
    assert_eq!(sel, ids(&["Q"]));
}

#[test]
fn clicks_toggle_in_multiroom_and_replace_in_single_mode() {
    let mut sel = ids(&[]);
    assert_eq!(set_selected(&mut sel, "A".into(), true), Some("A".to_string()));
    assert_eq!(set_selected(&mut sel, "B".into(), true), Some("A".to_string()));
    assert_eq!(sel, ids(&["A", "B"]));
    assert_eq!(set_selected(&mut sel, "A".into(), true), Some("B".to_string()));
    assert_eq!(sel, ids(&["B"]));
    assert_eq!(set_selected(&mut sel, "B".into(), true), None);
    assert!(sel.is_empty());
    let mut sel = ids(&["A", "B"]);
    assert_eq!(set_selected(&mut sel, "C".into(), false), Some("C".to_string()));
    assert_eq!(sel, ids(&["C"]));

    let devices = vec![rx("A", "Kitchen", "X"), rx("B", "Den", "Y")];
    assert_eq!(selected_name_list(&ids(&["B", "gone", "A"]), &devices), ids(&["Den", "Kitchen"]));
}

#[test]
fn stream_start_rules() {
    assert_eq!(choose_stream_mode(false, 0), Err(StartError::NoSelection));
    assert_eq!(choose_stream_mode(true, 0), Err(StartError::NoSelection));
    assert_eq!(choose_stream_mode(false, 1), Ok(LiveStreamMode::Single));
    assert_eq!(choose_stream_mode(true, 1), Ok(LiveStreamMode::Single));
    assert_eq!(choose_stream_mode(false, 2), Err(StartError::SingleNeedsOne));
    assert_eq!(choose_stream_mode(true, 3), Ok(LiveStreamMode::MultiroomExperimental));
    assert_eq!(effective_render_delay_ms(true, 200), 0);
    assert_eq!(effective_render_delay_ms(false, 200), 200);
    assert_eq!(protocol_label(true, 2), "ALAC / PTP");
    assert_eq!(protocol_label(true, 1), "ALAC / NTP");
    assert_eq!(protocol_label(false, 2), "ALAC / NTP");
    assert!(can_start(Activity::Idle, 1, false));
    assert!(!can_start(Activity::Idle, 0, true));
    assert!(!can_start(Activity::Scanning, 1, false));
}

#[test]
fn log_keeps_the_newest_lines() {
    let mut logs: VecDeque<String> = VecDeque::new();
    for i in 0..(MAX_LOG_LINES + 5) {
        push_log(&mut logs, format!("line {i}"));
    }
    assert_eq!(logs.len(), MAX_LOG_LINES);
    assert_eq!(logs.front().map(|s| s.as_str()), Some("line 5"));
    assert_eq!(logs.back().map(|s| s.as_str()), Some("line 254"));
}

#[test]
fn embedded_logo_decodes_from_base64() {
    assert_eq!(embedded_logo_png("  iVBORw0K\n"), Some(vec![0x89, b'P', b'N', b'G', 0x0d, 0x0a]));
    assert_eq!(embedded_logo_png("aGVsbG8="), Some(b"hello".to_vec()));
    assert_eq!(embedded_logo_png(""), Some(vec![]));
    assert_eq!(embedded_logo_png("not base64!"), None);
}

#[test]
fn multiroom_double_click_restores_the_selection() {
    let mut sel = ids(&["A", "C"]);
    set_selected(&mut sel, "B".into(), true);
    assert_eq!(sel, ids(&["A", "C", "B"]));
    set_selected(&mut sel, "B".into(), true);
    assert_eq!(sel, ids(&["A", "C"]));
}

#[test]
fn turning_multiroom_off_keeps_the_first_selection() {
    let mut sel = ids(&["A", "B", "C"]);
    multiroom_switched(&mut sel, true, true);
    assert_eq!(sel, ids(&["A", "B", "C"]));
    multiroom_switched(&mut sel, false, false);
    assert_eq!(sel, ids(&["A", "B", "C"]));
    multiroom_switched(&mut sel, true, false);
    assert_eq!(sel, ids(&["A"]));
    let mut none = ids(&[]);
    multiroom_switched(&mut none, true, false);
    assert!(none.is_empty());
}
