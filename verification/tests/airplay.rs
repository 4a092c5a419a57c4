use solyan_airplay::airplay::device_profile::DeviceKind;
use solyan_airplay::airplay::discovery::{
    decode_dns_sd_name, detect_homepod_pairs, is_ipv4_address, unescape_dns_sd_bytes,
    AirPlayReceiver,
};
use solyan_airplay::airplay::{ReceiverCapabilities, StreamMode};

#[test]
fn maps_known_apple_receivers() {
    assert_eq!(DeviceKind::from_model("AudioAccessory5,1"), DeviceKind::HomePodMini);
    assert_eq!(DeviceKind::from_model("AudioAccessory6,1"), DeviceKind::HomePod2);
    assert_eq!(DeviceKind::from_model("AppleTV3,2"), DeviceKind::AppleTv3);
    assert_eq!(DeviceKind::from_model("AppleTV5,3"), DeviceKind::AppleTvHd4);
    assert_eq!(DeviceKind::from_model("AppleTV14,1"), DeviceKind::AppleTv4K3);
}

#[test]
fn model_families_fall_back_by_prefix_and_ignore_whitespace() {
    assert_eq!(DeviceKind::from_model("  AudioAccessory5,1\t"), DeviceKind::HomePodMini);
    assert_eq!(DeviceKind::from_model("AudioAccessorySingle5,1"), DeviceKind::HomePodMini);
    assert_eq!(DeviceKind::from_model("AudioAccessory1,2"), DeviceKind::HomePod1);
    assert_eq!(DeviceKind::from_model("AudioAccessory9,9"), DeviceKind::HomePodOther);
    assert_eq!(DeviceKind::from_model("AppleTV99,1"), DeviceKind::AppleTvOther);
    assert_eq!(DeviceKind::from_model("AppleTV11,1"), DeviceKind::AppleTv4K2);
    assert_eq!(DeviceKind::from_model("AppleTV6,2"), DeviceKind::AppleTv4K1);
    assert_eq!(DeviceKind::from_model("AppleTV2,1"), DeviceKind::AppleTv2);
    assert_eq!(DeviceKind::from_model("appletv3,1"), DeviceKind::AirPlaySpeaker);
    assert_eq!(DeviceKind::from_model("Sonos One"), DeviceKind::AirPlaySpeaker);
    assert_eq!(DeviceKind::from_model(""), DeviceKind::AirPlaySpeaker);
    assert_eq!(DeviceKind::from_model(" AppleTV9,1\n"), DeviceKind::from_model("AppleTV9,1"));
    assert_eq!(DeviceKind::from_model("\tAudioAccessory"), DeviceKind::HomePodOther);
}

#[test]
fn names_icons_and_families_of_kinds() {
    assert_eq!(DeviceKind::HomePodMini.friendly_name(), "HomePod mini");
    assert_eq!(DeviceKind::AppleTv4K3.friendly_name(), "Apple TV 4K (3rd generation)");
    assert_eq!(DeviceKind::AirPlaySpeaker.friendly_name(), "AirPlay speaker");
    assert_eq!(DeviceKind::HomePod2.icon_text(), "HP2");
    assert_eq!(DeviceKind::AppleTvHd4.icon_text(), "TV4");
    assert!(DeviceKind::HomePodOther.is_homepod());
    assert!(!DeviceKind::HomePodOther.is_apple_tv());
    assert!(DeviceKind::AppleTvOther.is_apple_tv());
    assert!(!DeviceKind::AirPlaySpeaker.is_homepod());
    assert!(!DeviceKind::AirPlaySpeaker.is_apple_tv());
}

#[test]
fn preserves_native_utf8_vietnamese() {
    assert_eq!(decode_dns_sd_name("Phòng Khách"), "Phòng Khách");
}

#[test]
fn decodes_dns_sd_escaped_utf8_bytes() {
    assert_eq!(
        decode_dns_sd_name(r"Ph\195\178ng Kh\195\161ch"),
        "Phòng Khách"
    );
}

#[test]
fn decodes_escaped_punctuation() {
    assert_eq!(decode_dns_sd_name(r"Phòng\.Khách"), "Phòng.Khách");
}

#[test]
fn dns_sd_escape_edge_cases() {
    // A value above 255 is not a byte escape: the backslash escapes the '3'.
    assert_eq!(decode_dns_sd_name(r"a\300b"), "a300b");
    // A trailing backslash stays.
    assert_eq!(decode_dns_sd_name("tail\\"), "tail\\");
    // An escaped backslash.
    assert_eq!(decode_dns_sd_name(r"x\\y"), "x\\y");
    // Too few digits: the backslash escapes the first one.
    assert_eq!(decode_dns_sd_name(r"\12"), "12");
    // An escaped byte that is not valid UTF-8 on its own is replaced.
    assert_eq!(decode_dns_sd_name(r"\255"), "\u{FFFD}");
    assert_eq!(unescape_dns_sd_bytes(br"\065\066"), b"AB".to_vec());
}

#[test]
fn ipv4_addresses_are_recognized() {
    assert!(is_ipv4_address("192.168.1.10"));
    assert!(is_ipv4_address("0.0.0.0"));
    assert!(is_ipv4_address("255.255.255.255"));
    assert!(!is_ipv4_address("256.1.1.1"));
    assert!(!is_ipv4_address("01.2.3.4"));
    assert!(!is_ipv4_address("1.2.3"));
    assert!(!is_ipv4_address("1.2.3.4.5"));
    assert!(!is_ipv4_address("fe80::1"));
    assert!(!is_ipv4_address(""));
    assert!(!is_ipv4_address("1..2.3"));
    assert!(!is_ipv4_address("1.2.3.4 "));
    assert!(is_ipv4_address("10.0.0.1"));
    assert!(!is_ipv4_address("300.1.1.1"));
    assert!(!is_ipv4_address("::1"));
    assert!(!is_ipv4_address("1.2.3.04"));
}

fn receiver(id: &str, name: &str, model: &str, addresses: &[&str]) -> AirPlayReceiver {
    AirPlayReceiver {
        id: id.into(),
        name: name.into(),
        model: model.into(),
        port: 7000,
        addresses: addresses.iter().map(|a| a.to_string()).collect(),
        source_version: "400.0.0".into(),
        features_raw: 0,
        supports_audio: true,
        supports_airplay2: true,
        supports_ptp: true,
        supports_buffered_audio: true,
        supports_transient_pairing: true,
        requires_password: false,
        group_id: None,
        is_group_leader: false,
        group_public_name: None,
        group_contains_discoverable_leader: false,
        parent_group_id: None,
        tight_sync_id: None,
    }
}

#[test]
fn receiver_kind_and_preferred_address() {
    let r = receiver("A", "Kitchen", "AppleTV14,1", &["fe80::1", "10.0.0.7", "10.0.0.8"]);
    assert_eq!(r.device_kind(), DeviceKind::AppleTv4K3);
    assert_eq!(r.friendly_model_name(), "Apple TV 4K (3rd generation)");
    assert_eq!(r.preferred_address(), Some("10.0.0.7"));
    let v6 = receiver("B", "Den", "AudioAccessory6,1", &["fe80::2"]);
    assert_eq!(v6.preferred_address(), Some("fe80::2"));
    let none = receiver("C", "Attic", "X", &[]);
    assert_eq!(none.preferred_address(), None);
}

fn hp(id: &str, name: &str, tsid: Option<&str>, gid: Option<&str>, leader: bool) -> AirPlayReceiver {
    AirPlayReceiver {
        id: id.into(),
        name: name.into(),
        model: "AudioAccessory5,1".into(),
        port: 7000,
        addresses: vec!["192.168.1.10".into()],
        source_version: "400.0.0".into(),
        features_raw: 0,
        supports_audio: true,
        supports_airplay2: true,
        supports_ptp: true,
        supports_buffered_audio: true,
        supports_transient_pairing: true,
        requires_password: false,
        group_id: gid.map(str::to_string),
        is_group_leader: leader,
        group_public_name: Some("Phòng ngủ".into()),
        group_contains_discoverable_leader: leader,
        parent_group_id: None,
        tight_sync_id: tsid.map(str::to_string),
    }
}

#[test]
fn detects_tight_sync_pair() {
    let devices = vec![
        hp("A", "Left", Some("PAIR-1"), Some("G1"), true),
        hp("B", "Right", Some("PAIR-1"), Some("G1"), false),
    ];
    let pairs = detect_homepod_pairs(&devices);
    assert_eq!(pairs.len(), 1);
    assert_eq!(pairs[0].name, "Phòng ngủ");
    assert_eq!(pairs[0].leader_id, "A");
    assert_eq!(pairs[0].member_ids.len(), 2);
}

#[test]
fn pair_details_follow_leader_and_member_order() {
    let devices = vec![
        hp("B", "Right", Some("P"), None, false),
        hp("A", "Left", Some("P"), None, true),
    ];
    let pairs = detect_homepod_pairs(&devices);
    assert_eq!(pairs.len(), 1);
    assert_eq!(pairs[0].id, "tsid:P");
    assert_eq!(pairs[0].leader_id, "A");
    assert_eq!(pairs[0].member_ids, vec!["A".to_string(), "B".to_string()]);
    assert_eq!(pairs[0].member_names, vec!["Left".to_string(), "Right".to_string()]);
    assert_eq!(pairs[0].tight_sync_id.as_deref(), Some("P"));
    assert_eq!(pairs[0].group_id, None);
}

#[test]
fn blank_group_name_falls_back_to_member_names() {
    let mut a = hp("A", "Bravo", Some("T"), None, false);
    let mut b = hp("B", "alpha", Some("T"), None, false);
    a.group_public_name = Some("   ".into());
    b.group_public_name = Some("Named".into());
    let pairs = detect_homepod_pairs(&[a, b]);
    assert_eq!(pairs.len(), 1);
    // Without a leader, members are ordered by lowercased name.
    assert_eq!(pairs[0].member_names, vec!["alpha".to_string(), "Bravo".to_string()]);
    assert_eq!(pairs[0].name, "Named");
    let mut c = hp("C", "One", Some("U"), None, false);
    let mut d = hp("D", "Two", Some("U"), None, false);
    c.group_public_name = Some(" ".into());
    d.group_public_name = None;
    let pairs = detect_homepod_pairs(&[c, d]);
    assert_eq!(pairs[0].name, "One + Two");
}

#[test]
fn group_id_pairs_need_confident_metadata_and_unpaired_members() {
    let mut a = hp("A", "Left", None, Some("G"), false);
    let mut b = hp("B", "Right", None, Some("G"), false);
    a.group_public_name = None;
    b.group_public_name = None;
    assert!(detect_homepod_pairs(&[a.clone(), b.clone()]).is_empty());
    a.is_group_leader = true;
    let pairs = detect_homepod_pairs(&[a.clone(), b.clone()]);
    assert_eq!(pairs.len(), 1);
    assert_eq!(pairs[0].id, "gid:G");
    assert_eq!(pairs[0].group_id.as_deref(), Some("G"));
    // Both already in a tight-sync pair: the group id adds nothing.
    let devices = vec![
        hp("A", "Left", Some("T"), Some("G"), true),
        hp("B", "Right", Some("T"), Some("G"), false),
    ];
    let pairs = detect_homepod_pairs(&devices);
    assert_eq!(pairs.len(), 1);
    assert_eq!(pairs[0].id, "tsid:T");
    assert_eq!(pairs[0].group_id.as_deref(), Some("G"));
}

#[test]
fn non_homepods_and_odd_groups_are_not_paired() {
    let mut tv = hp("A", "TV", Some("T"), None, true);
    tv.model = "AppleTV14,1".into();
    let other = hp("B", "HomePod", Some("T"), None, false);
    assert!(detect_homepod_pairs(&[tv, other]).is_empty());
    let three = vec![
        hp("A", "1", Some("T"), None, true),
        hp("B", "2", Some("T"), None, false),
        hp("C", "3", Some("T"), None, false),
    ];
    assert!(detect_homepod_pairs(&three).is_empty());
    assert!(detect_homepod_pairs(&[]).is_empty());
}

#[test]
fn pairs_are_sorted_by_lowercased_name() {
    let mut devices = Vec::new();
    for (key, name) in [("K1", "zeta"), ("K2", "Alpha"), ("K3", "beta")] {
        let mut a = hp(&format!("{key}a"), "m", Some(key), None, true);
        let mut b = hp(&format!("{key}b"), "n", Some(key), None, false);
        a.group_public_name = Some(name.into());
        b.group_public_name = Some(name.into());
        devices.push(a);
        devices.push(b);
    }
    let pairs = detect_homepod_pairs(&devices);
    let names: Vec<&str> = pairs.iter().map(|p| p.name.as_str()).collect();
    assert_eq!(names, vec!["Alpha", "beta", "zeta"]);
    // Equal names: tight-sync pairs by key.
    let same = vec![
        hp("A", "x", Some("k2"), None, true),
        hp("B", "y", Some("k2"), None, false),
        hp("C", "x", Some("k1"), None, true),
        hp("D", "y", Some("k1"), None, false),
    ];
    let pairs = detect_homepod_pairs(&same);
    let ids: Vec<&str> = pairs.iter().map(|p| p.id.as_str()).collect();
    assert_eq!(ids, vec!["tsid:k1", "tsid:k2"]);
}

#[test]
fn core_capabilities_default_to_nothing() {
    let caps = ReceiverCapabilities::default();
    assert!(!caps.supports_airplay2 && !caps.supports_ptp && !caps.supports_buffered_audio);
    assert_eq!(caps.latency_min_samples, None);
    assert_eq!(caps.latency_max_samples, None);
    assert_ne!(StreamMode::RealtimeAlac, StreamMode::Buffered);
}

#[test]
fn shared_tight_sync_id_gives_one_pair_of_homepods() {
    let mut tv = hp("T", "Television", Some("PAIR-9"), Some("G9"), false);
    tv.model = "AppleTV14,1".into();
    let devices = vec![
        hp("A", "Left", Some("PAIR-9"), Some("G9"), true),
        tv,
        hp("B", "Right", Some("PAIR-9"), Some("G9"), false),
    ];
    let pairs = detect_homepod_pairs(&devices);
    assert_eq!(pairs.len(), 1);
    assert_eq!(pairs[0].id, "tsid:PAIR-9");
    assert_eq!(pairs[0].member_ids, vec!["A".to_string(), "B".to_string()]);
}
