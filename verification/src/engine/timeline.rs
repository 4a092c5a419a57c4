use vstd::prelude::*;

verus! {

/// Lifecycle of a native realtime session timeline.
#[derive(Debug, Clone, Copy, PartialEq, Eq, Structural)]
pub enum TimelineState {
    Cold,
    Armed,
    Running,
    Stopped,
}

/// Warm boundaries: events that must never reset the RTP timeline.
#[derive(Debug, Clone, Copy, PartialEq, Eq, Structural)]
pub enum Boundary {
    FirstStart,
    Pause,
    Resume,
    NextTrack,
    Seek,
    SourceChange,
    Starvation,
}

#[derive(Debug, Clone, Copy, PartialEq, Eq, Structural)]
pub enum TimelineError {
    AlreadyAnchored,
    NotAnchored,
    Stopped,
}

/// Abstract state of a [`Timeline`]: its lifecycle state, the
/// RTP-to-wall-clock anchor (set at most once) and the RTP head.
pub struct TimelineView {
    pub state: TimelineState,
    pub anchor: Option<(u64, u64)>,
    pub head: u64,
}

/// The immutable RTP timeline of one native session.
#[derive(Debug)]
pub struct Timeline {
    state: TimelineState,
    anchor_rtp: Option<u64>,
    anchor_wall_ns: Option<u64>,
    head_rtp: u64,
}

/// The abstract states a timeline can be in: a cold timeline has no anchor
/// and its head at 0; an armed or running one is anchored, and an armed one
/// has its head at the anchor.
pub open spec fn timeline_view_wf(v: TimelineView) -> bool {
    &&& (v.state == TimelineState::Armed || v.state == TimelineState::Running) ==> v.anchor is Some
    &&& v.state == TimelineState::Cold ==> v.anchor is None && v.head == 0
    &&& v.state == TimelineState::Armed ==> (v.anchor matches Some(a) && v.head == a.0)
}

/// The timeline of a fresh session.
pub open spec fn cold_timeline() -> TimelineView {
    TimelineView { state: TimelineState::Cold, anchor: None, head: 0 }
}

/// `anchor_once`: a stopped timeline refuses, an anchored one refuses,
/// otherwise the anchor is fixed, the head moves to it and the timeline is armed.
pub open spec fn spec_anchor_once(v: TimelineView, rtp: u64, wall_ns: u64) -> (
    TimelineView,
    Result<(), TimelineError>,
) {
    if v.state == TimelineState::Stopped {
        (v, Err(TimelineError::Stopped))
    } else if v.anchor is Some {
        (v, Err(TimelineError::AlreadyAnchored))
    } else {
        (
            TimelineView { state: TimelineState::Armed, anchor: Some((rtp, wall_ns)), head: rtp },
            Ok(()),
        )
    }
}

/// `start`: requires an anchor and a timeline that is not stopped.
pub open spec fn spec_start(v: TimelineView) -> (TimelineView, Result<(), TimelineError>) {
    if v.anchor is None {
        (v, Err(TimelineError::NotAnchored))
    } else if v.state == TimelineState::Stopped {
        (v, Err(TimelineError::Stopped))
    } else {
        (TimelineView { state: TimelineState::Running, ..v }, Ok(()))
    }
}

/// The RTP position `frames` after `head`, modulo 2^64.
pub open spec fn rtp_after(head: u64, frames: u32) -> u64 {
    ((head as int + frames as int) % 0x1_0000_0000_0000_0000) as u64
}

/// `advance`: only a running timeline advances; it returns the position of
/// the packet and moves the head past it.
pub open spec fn spec_advance(v: TimelineView, frames: u32) -> (
    TimelineView,
    Result<u64, TimelineError>,
) {
    if v.state != TimelineState::Running {
        (v, Err(TimelineError::NotAnchored))
    } else {
        (TimelineView { head: rtp_after(v.head, frames), ..v }, Ok(v.head))
    }
}

/// `warm_boundary`: never changes the timeline; it only reports whether the
/// timeline can carry the boundary.
pub open spec fn spec_warm_boundary(v: TimelineView) -> Result<(), TimelineError> {
    if v.state == TimelineState::Stopped {
        Err(TimelineError::Stopped)
    } else if v.anchor is None {
        Err(TimelineError::NotAnchored)
    } else {
        Ok(())
    }
}

/// `stop`: the timeline is stopped for good; anchor and head stay.
pub open spec fn spec_stop(v: TimelineView) -> TimelineView {
    TimelineView { state: TimelineState::Stopped, ..v }
}

/// Once a timeline is anchored, no operation replaces its anchor:
/// a second `anchor_once` is refused and `start`, `advance` and `stop` keep it.
pub proof fn law_anchor_is_immutable(v: TimelineView, rtp: u64, wall_ns: u64, frames: u32)
    requires
        v.anchor is Some,
    ensures
        spec_anchor_once(v, rtp, wall_ns).0 == v,
        spec_anchor_once(v, rtp, wall_ns).1 is Err,
        spec_start(v).0.anchor == v.anchor,
        spec_advance(v, frames).0.anchor == v.anchor,
        spec_stop(v).anchor == v.anchor,
{
}

/// A running timeline accepts every warm boundary (pause, resume, next track,
/// seek, source change, starvation) and stays running with the same anchor and head.
pub proof fn law_warm_boundary_keeps_running(v: TimelineView)
    requires
        timeline_view_wf(v),
        v.state == TimelineState::Running,
    ensures
        spec_warm_boundary(v) == Ok::<(), TimelineError>(()),
{
}

/// Silence and music share one RTP head: two consecutive packets of `a` and
/// `b` frames get the positions `head` and `head + a`, and the head ends at
/// `head + a + b` (modulo 2^64).
pub proof fn law_advance_is_contiguous(v: TimelineView, a: u32, b: u32)
    requires
        v.state == TimelineState::Running,
    ensures
        spec_advance(v, a).1 == Ok::<u64, TimelineError>(v.head),
        spec_advance(spec_advance(v, a).0, b).1 == Ok::<u64, TimelineError>(rtp_after(v.head, a)),
        spec_advance(spec_advance(v, a).0, b).0.head == rtp_after(rtp_after(v.head, a), b),
        spec_advance(spec_advance(v, a).0, b).0.anchor == v.anchor,
{
}

/// A stopped timeline stays stopped: it cannot be anchored, started, advanced
/// or carry a boundary, and none of these change it.
pub proof fn law_stopped_is_final(v: TimelineView, rtp: u64, wall_ns: u64, frames: u32)
    requires
        v.state == TimelineState::Stopped,
    ensures
        spec_anchor_once(v, rtp, wall_ns) == (v, Err::<(), TimelineError>(TimelineError::Stopped)),
        spec_start(v).0 == v,
        spec_start(v).1 is Err,
        spec_advance(v, frames) == (v, Err::<u64, TimelineError>(TimelineError::NotAnchored)),
        spec_warm_boundary(v) == Err::<(), TimelineError>(TimelineError::Stopped),
        spec_stop(v) == v,
{
}

/// Every timeline reached from a fresh one by any sequence of operations is
/// well formed: the fresh timeline is, and every operation keeps it so.
pub proof fn law_operations_preserve_wf(v: TimelineView, rtp: u64, wall_ns: u64, frames: u32)
    requires
        timeline_view_wf(v),
    ensures
        timeline_view_wf(cold_timeline()),
        timeline_view_wf(spec_anchor_once(v, rtp, wall_ns).0),
        timeline_view_wf(spec_start(v).0),
        timeline_view_wf(spec_advance(v, frames).0),
        timeline_view_wf(spec_stop(v)),
{
}

impl View for Timeline {
    type V = TimelineView;

    closed spec fn view(&self) -> TimelineView {
        TimelineView {
            state: self.state,
            anchor: match (self.anchor_rtp, self.anchor_wall_ns) {
                (Some(r), Some(w)) => Some((r, w)),
                _ => None,
            },
            head: self.head_rtp,
        }
    }
}

impl Timeline {
    #[verifier::type_invariant]
    closed spec fn inv(self) -> bool {
        &&& self.anchor_rtp is Some <==> self.anchor_wall_ns is Some
        &&& timeline_view_wf(self@)
    }
}

impl Clone for Timeline {
    fn clone(&self) -> (c: Self)
        ensures
            c@ == self@,
    {
        proof {
            use_type_invariant(self);
        }
        Timeline {
            state: self.state,
            anchor_rtp: self.anchor_rtp,
            anchor_wall_ns: self.anchor_wall_ns,
            head_rtp: self.head_rtp,
        }
    }
}

impl Default for Timeline {
    fn default() -> (t: Self)
        ensures
            t@ == cold_timeline(),
    {
        Timeline { state: TimelineState::Cold, anchor_rtp: None, anchor_wall_ns: None, head_rtp: 0 }
    }
}

impl Timeline {
    pub fn state(&self) -> (s: TimelineState)
        ensures
            s == self@.state,
            timeline_view_wf(self@),
    {
        proof {
            use_type_invariant(self);
        }
        self.state
    }

    pub fn anchor(&self) -> (a: Option<(u64, u64)>)
        ensures
            a == self@.anchor,
            timeline_view_wf(self@),
    {
        proof {
            use_type_invariant(self);
        }
        match (self.anchor_rtp, self.anchor_wall_ns) {
            (Some(r), Some(w)) => Some((r, w)),
            _ => None,
        }
    }

    pub fn head_rtp(&self) -> (h: u64)
        ensures
            h == self@.head,
            timeline_view_wf(self@),
    {
        proof {
            use_type_invariant(self);
        }
        self.head_rtp
    }

    pub fn anchor_once(&mut self, rtp: u64, wall_ns: u64) -> (r: Result<(), TimelineError>)
        ensures
            (final(self)@, r) == spec_anchor_once(old(self)@, rtp, wall_ns),
    {
        proof {
            use_type_invariant(&*self);
        }
        if self.state == TimelineState::Stopped {
            return Err(TimelineError::Stopped);
        }
        if self.anchor_rtp.is_some() {
            return Err(TimelineError::AlreadyAnchored);
        }
        *self = Timeline {
            state: TimelineState::Armed,
            anchor_rtp: Some(rtp),
            anchor_wall_ns: Some(wall_ns),
            head_rtp: rtp,
        };
        Ok(())
    }

    pub fn start(&mut self) -> (r: Result<(), TimelineError>)
        ensures
            (final(self)@, r) == spec_start(old(self)@),
    {
        proof {
            use_type_invariant(&*self);
        }
        if self.anchor_rtp.is_none() {
            return Err(TimelineError::NotAnchored);
        }
        if self.state == TimelineState::Stopped {
            return Err(TimelineError::Stopped);
        }
        self.state = TimelineState::Running;
        Ok(())
    }

    pub fn advance(&mut self, frames: u32) -> (r: Result<u64, TimelineError>)
        ensures
            (final(self)@, r) == spec_advance(old(self)@, frames),
    {
        proof {
            use_type_invariant(&*self);
        }
        if self.state != TimelineState::Running {
            return Err(TimelineError::NotAnchored);
        }
        let at = self.head_rtp;
        self.head_rtp = self.head_rtp.wrapping_add(frames as u64);
        Ok(at)
    }

    pub fn warm_boundary(&mut self, boundary: Boundary) -> (r: Result<(), TimelineError>)
        ensures
            final(self)@ == old(self)@,
            r == spec_warm_boundary(old(self)@),
    {
        proof {
            use_type_invariant(&*self);
        }
        if self.state == TimelineState::Stopped {
            return Err(TimelineError::Stopped);
        }
        if self.anchor_rtp.is_none() {
            return Err(TimelineError::NotAnchored);
        }
        Ok(())
    }

    pub fn stop(&mut self)
        ensures
            final(self)@ == spec_stop(old(self)@),
    {
        proof {
            use_type_invariant(&*self);
        }
        self.state = TimelineState::Stopped;
    }
}

} // verus!
