use solyan_airplay::engine::{
    Boundary, PcmRing, PushResult, ReceiverCapabilities, Route, RouteResolver, Timeline,
    TimelineError, TimelineState,
};

#[test]
fn starvation_is_silence_not_eof() {
    let mut ring = PcmRing::new(4096);
    let packet = ring.pop_or_silence(704);
    assert_eq!(packet.len(), 704);
    assert!(packet.iter().all(|&s| s == 0));
}

#[test]
fn source_change_does_not_destroy_buffer() {
    let mut ring = PcmRing::new(16);
    ring.push(&[1, 2, 3, 4]);
    ring.source_changed();
    assert_eq!(ring.pop_or_silence(4), vec![1, 2, 3, 4]);
}

#[test]
fn bounded_ring_drops_oldest_not_transport() {
    let mut ring = PcmRing::new(4);
    assert_eq!(ring.push(&[1, 2, 3, 4]), PushResult::Stored);
    assert_eq!(ring.push(&[5]), PushResult::DroppedOldest);
    assert_eq!(ring.pop_or_silence(4), vec![2, 3, 4, 5]);
}

#[test]
fn partial_read_pads_with_silence_and_empties_ring() {
    let mut ring = PcmRing::new(8);
    assert_eq!(ring.push(&[7, -7, 9]), PushResult::Stored);
    assert_eq!(ring.len(), 3);
    assert_eq!(ring.pop_or_silence(5), vec![7, -7, 9, 0, 0]);
    assert!(ring.is_empty());
}

#[test]
fn read_returns_what_was_pushed_in_order() {
    let mut ring = PcmRing::new(6);
    ring.push(&[1, 2]);
    ring.push(&[3, 4, 5]);
    assert_eq!(ring.pop_or_silence(2), vec![1, 2]);
    assert_eq!(ring.len(), 3);
    assert_eq!(ring.pop_or_silence(3), vec![3, 4, 5]);
}

#[test]
fn oversized_push_keeps_newest_capacity_samples() {
    let mut ring = PcmRing::new(3);
    assert_eq!(ring.push(&[1, 2, 3, 4, 5, 6, 7]), PushResult::DroppedOldest);
    assert_eq!(ring.len(), 3);
    assert_eq!(ring.pop_or_silence(3), vec![5, 6, 7]);
}

#[test]
fn empty_push_is_stored() {
    let mut ring = PcmRing::new(2);
    ring.push(&[1, 2]);
    assert_eq!(ring.push(&[]), PushResult::Stored);
    assert_eq!(ring.len(), 2);
}

#[test]
fn airport_style_receiver_routes_to_raop() {
    assert_eq!(
        RouteResolver::resolve(ReceiverCapabilities::default()),
        Route::Raop
    );
}

#[test]
fn stored_credentials_select_native_ap2() {
    let caps = ReceiverCapabilities {
        supports_airplay2: true,
        has_stored_credentials: true,
        ..Default::default()
    };
    assert_eq!(RouteResolver::resolve(caps), Route::AirPlay2Native);
}

#[test]
fn pairing_capable_receiver_can_select_transient_native() {
    let caps = ReceiverCapabilities {
        supports_airplay2: true,
        supports_pairing: true,
        ..Default::default()
    };
    assert_eq!(RouteResolver::resolve(caps), Route::AirPlay2Native);
}

#[test]
fn airplay2_without_safe_native_pairing_falls_back_to_compat() {
    let caps = ReceiverCapabilities {
        supports_airplay2: true,
        supports_pairing: true,
        requires_pin: true,
        ..Default::default()
    };
    assert_eq!(RouteResolver::resolve(caps), Route::AirPlay2Compat);
}

#[test]
fn legacy_pairing_and_no_pairing_fall_back_to_compat() {
    let legacy = ReceiverCapabilities {
        supports_airplay2: true,
        supports_pairing: true,
        legacy_pairing: true,
        ..Default::default()
    };
    assert_eq!(RouteResolver::resolve(legacy), Route::AirPlay2Compat);
    let no_pairing = ReceiverCapabilities {
        supports_airplay2: true,
        ..Default::default()
    };
    assert_eq!(RouteResolver::resolve(no_pairing), Route::AirPlay2Compat);
    let stored_but_pin = ReceiverCapabilities {
        supports_airplay2: true,
        has_stored_credentials: true,
        requires_pin: true,
        ..Default::default()
    };
    assert_eq!(RouteResolver::resolve(stored_but_pin), Route::AirPlay2Native);
}

#[test]
fn anchor_is_immutable_for_session_lifetime() {
    let mut t = Timeline::default();
    t.anchor_once(10_000, 123_000_000).unwrap();
    assert_eq!(
        t.anchor_once(20_000, 456_000_000),
        Err(TimelineError::AlreadyAnchored)
    );
    assert_eq!(t.anchor(), Some((10_000, 123_000_000)));
}

#[test]
fn pause_next_seek_source_change_and_starvation_do_not_reanchor() {
    let mut t = Timeline::default();
    t.anchor_once(1_000, 9_000).unwrap();
    t.start().unwrap();
    let anchor = t.anchor();

    for boundary in [
        Boundary::Pause,
        Boundary::Resume,
        Boundary::NextTrack,
        Boundary::Seek,
        Boundary::SourceChange,
        Boundary::Starvation,
    ] {
        t.warm_boundary(boundary).unwrap();
        assert_eq!(t.anchor(), anchor);
        assert_eq!(t.state(), TimelineState::Running);
    }
}

#[test]
fn silence_and_music_share_one_rtp_head() {
    let mut t = Timeline::default();
    t.anchor_once(0, 1).unwrap();
    t.start().unwrap();

    assert_eq!(t.advance(352).unwrap(), 0);
    assert_eq!(t.advance(352).unwrap(), 352);
    assert_eq!(t.advance(352).unwrap(), 704);
    assert_eq!(t.head_rtp(), 1056);
}

#[test]
fn cold_timeline_refuses_start_advance_and_boundaries() {
    let mut t = Timeline::default();
    assert_eq!(t.state(), TimelineState::Cold);
    assert_eq!(t.anchor(), None);
    assert_eq!(t.start(), Err(TimelineError::NotAnchored));
    assert_eq!(t.advance(352), Err(TimelineError::NotAnchored));
    assert_eq!(t.warm_boundary(Boundary::Pause), Err(TimelineError::NotAnchored));
    assert_eq!(t.head_rtp(), 0);
}

#[test]
fn armed_timeline_does_not_advance_until_started() {
    let mut t = Timeline::default();
    t.anchor_once(500, 7).unwrap();
    assert_eq!(t.state(), TimelineState::Armed);
    assert_eq!(t.head_rtp(), 500);
    assert_eq!(t.advance(10), Err(TimelineError::NotAnchored));
    assert_eq!(t.warm_boundary(Boundary::FirstStart), Ok(()));
}

#[test]
fn stopped_timeline_is_final() {
    let mut t = Timeline::default();
    t.anchor_once(100, 200).unwrap();
    t.start().unwrap();
    t.advance(352).unwrap();
    t.stop();
    assert_eq!(t.state(), TimelineState::Stopped);
    assert_eq!(t.start(), Err(TimelineError::Stopped));
    assert_eq!(t.anchor_once(1, 1), Err(TimelineError::Stopped));
    assert_eq!(t.advance(352), Err(TimelineError::NotAnchored));
    assert_eq!(t.warm_boundary(Boundary::Seek), Err(TimelineError::Stopped));
    assert_eq!(t.anchor(), Some((100, 200)));
    assert_eq!(t.head_rtp(), 452);

    let mut cold = Timeline::default();
    cold.stop();
    assert_eq!(cold.anchor_once(1, 1), Err(TimelineError::Stopped));
    assert_eq!(cold.start(), Err(TimelineError::NotAnchored));
}

#[test]
fn rtp_head_wraps_at_64_bits() {
    let mut t = Timeline::default();
    t.anchor_once(u64::MAX - 100, 0).unwrap();
    t.start().unwrap();
    assert_eq!(t.advance(352).unwrap(), u64::MAX - 100);
    assert_eq!(t.head_rtp(), 251);
}

#[test]
fn cloned_timeline_keeps_anchor() {
    let mut t = Timeline::default();
    t.anchor_once(42, 43).unwrap();
    let c = t.clone();
    assert_eq!(c.anchor(), Some((42, 43)));
    assert_eq!(c.state(), TimelineState::Armed);
}

#[test]
fn ring_never_exceeds_its_capacity() {
    let mut ring = PcmRing::new(5);
    for n in [3usize, 4, 0, 9, 1] {
        let input: Vec<i16> = (0..n as i16).collect();
        ring.push(&input);
        assert!(ring.len() <= 5);
        let _ = ring.pop_or_silence(2);
        assert!(ring.len() <= 5);
        ring.source_changed();
        assert!(ring.len() <= 5);
    }
}
