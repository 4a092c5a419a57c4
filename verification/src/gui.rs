//! Decisions of the desktop front end: activity, receiver ordering and
//! selection, stream mode and the diagnostics log.
use crate::airplay::device_profile::{kind_is_apple_tv, kind_is_homepod, kind_of_model, DeviceKind};
use crate::airplay::discovery::AirPlayReceiver;
use crate::airplay::live::{LiveStreamMode, LiveStreamResult};
use crate::airplay::session::SessionTestResult;
use crate::text::str_eq;
use std::collections::VecDeque;
use vstd::prelude::*;

verus! {

/// What the front end is doing.
#[derive(Debug, Clone, Copy, PartialEq, Eq, Structural)]
pub enum Activity {
    Idle,
    Scanning,
    AudioTest,
    ConnectionTest,
    Streaming,
    Stopping,
}

pub open spec fn activity_label(a: Activity) -> Seq<char> {
    match a {
        Activity::Idle => "Ready"@,
        Activity::Scanning => "Scanning"@,
        Activity::AudioTest => "Testing audio"@,
        Activity::ConnectionTest => "Testing AirPlay"@,
        Activity::Streaming => "Streaming"@,
        Activity::Stopping => "Stopping"@,
    }
}

impl Activity {
    pub fn label(self) -> (s: &'static str)
        ensures
            s@ == activity_label(self),
    {
        match self {
            Activity::Idle => "Ready",
            Activity::Scanning => "Scanning",
            Activity::AudioTest => "Testing audio",
            Activity::ConnectionTest => "Testing AirPlay",
            Activity::Streaming => "Streaming",
            Activity::Stopping => "Stopping",
        }
    }

    pub fn is_streaming(self) -> (b: bool)
        ensures
            b == (self == Activity::Streaming || self == Activity::Stopping),
    {
        match self {
            Activity::Streaming | Activity::Stopping => true,
            _ => false,
        }
    }

    pub fn is_busy(self) -> (b: bool)
        ensures
            b == (self != Activity::Idle),
    {
        match self {
            Activity::Idle => false,
            _ => true,
        }
    }
}

/// What a short capture probe found.
#[derive(Debug)]
pub struct CaptureProbe {
    pub device_name: String,
    pub chunks: u64,
    pub peak: i16,
}

/// Results that background work hands back to the front end.
#[derive(Debug)]
pub enum GuiEvent {
    ScanFinished(Result<Vec<AirPlayReceiver>, String>),
    CaptureFinished(Result<CaptureProbe, String>),
    ConnectFinished(Result<SessionTestResult, String>),
    StreamFinished(Result<LiveStreamResult, String>),
}

pub fn yes_no(v: bool) -> (s: &'static str)
    ensures
        s@ == (if v {
            "YES"@
        } else {
            "NO"@
        }),
{
    if v {
        "YES"
    } else {
        "NO"
    }
}

// ---------------------------------------------------------------------------
// Receiver list order
// ---------------------------------------------------------------------------

/// Where a receiver kind is listed: HomePods first, then Apple TVs (newest
/// first), then other speakers.
pub open spec fn sort_rank(kind: DeviceKind) -> u8 {
    match kind {
        DeviceKind::HomePodMini => 0,
        DeviceKind::HomePod2 => 1,
        DeviceKind::HomePod1 => 2,
        DeviceKind::HomePodOther => 3,
        DeviceKind::AppleTv4K3 => 10,
        DeviceKind::AppleTv4K2 => 11,
        DeviceKind::AppleTv4K1 => 12,
        DeviceKind::AppleTvHd4 => 13,
        DeviceKind::AppleTv3 => 14,
        DeviceKind::AppleTv2 => 15,
        DeviceKind::AppleTvOther => 16,
        DeviceKind::AirPlaySpeaker => 30,
    }
}

pub fn device_sort_rank(kind: DeviceKind) -> (r: u8)
    ensures
        r == sort_rank(kind),
{
    match kind {
        DeviceKind::HomePodMini => 0,
        DeviceKind::HomePod2 => 1,
        DeviceKind::HomePod1 => 2,
        DeviceKind::HomePodOther => 3,
        DeviceKind::AppleTv4K3 => 10,
        DeviceKind::AppleTv4K2 => 11,
        DeviceKind::AppleTv4K1 => 12,
        DeviceKind::AppleTvHd4 => 13,
        DeviceKind::AppleTv3 => 14,
        DeviceKind::AppleTv2 => 15,
        DeviceKind::AppleTvOther => 16,
        DeviceKind::AirPlaySpeaker => 30,
    }
}

pub open spec fn receiver_rank(d: AirPlayReceiver) -> u8 {
    sort_rank(kind_of_model(d.model@))
}

/// `perm` is a permutation of `0..n`.
pub open spec fn is_permutation(perm: Seq<int>, n: int) -> bool {
    &&& perm.len() == n
    &&& forall|k: int| 0 <= k < n ==> 0 <= #[trigger] perm[k] < n
    &&& forall|a: int, b: int| 0 <= a < b < n ==> #[trigger] perm[a] != #[trigger] perm[b]
}

/// `sorted` is `unsorted` stably sorted by listing rank: a permutation of
/// it, in rank order, receivers of equal rank in their order before sorting.
pub open spec fn stably_sorted_by_rank(
    unsorted: Seq<AirPlayReceiver>,
    sorted: Seq<AirPlayReceiver>,
    perm: Seq<int>,
) -> bool {
    &&& sorted.len() == unsorted.len()
    &&& is_permutation(perm, unsorted.len() as int)
    &&& forall|k: int| 0 <= k < sorted.len() ==> #[trigger] sorted[k] == unsorted[perm[k]]
    &&& forall|a: int, b: int|
        0 <= a < b < sorted.len() ==> receiver_rank(#[trigger] sorted[a]) <= receiver_rank(
            #[trigger] sorted[b],
        )
    &&& forall|a: int, b: int|
        0 <= a < b < sorted.len() && receiver_rank(#[trigger] sorted[a]) == receiver_rank(
            #[trigger] sorted[b],
        ) ==> perm[a] < perm[b]
}

fn rank_of(d: &AirPlayReceiver) -> (r: u8)
    ensures
        r == receiver_rank(*d),
{
    device_sort_rank(d.device_kind())
}

/// Orders discovered receivers for display, keeping the discovery order
/// among receivers of the same rank.
pub fn sort_receivers(devices: &mut Vec<AirPlayReceiver>)
    ensures
        exists|perm: Seq<int>| stably_sorted_by_rank(old(devices)@, final(devices)@, perm),
{
    let ghost orig = devices@;
    let n = devices.len();
    let ghost mut perm: Seq<int> = Seq::new(n as nat, |k: int| k);
    if n == 0 {
        proof {
            assert(stably_sorted_by_rank(orig, devices@, perm));
        }
        return;
    }
    let mut i: usize = 1;
    while i < n
        invariant
            n == orig.len(),
            1 <= i <= n,
            devices@.len() == n,
            is_permutation(perm, n as int),
            forall|k: int| 0 <= k < n ==> #[trigger] devices@[k] == orig[perm[k]],
            forall|k: int| i <= k < n ==> #[trigger] perm[k] == k,
            forall|k: int| 0 <= k < i ==> #[trigger] perm[k] < i,
            forall|a: int, b: int|
                0 <= a < b < i ==> receiver_rank(#[trigger] devices@[a]) <= receiver_rank(
                    #[trigger] devices@[b],
                ),
            forall|a: int, b: int|
                0 <= a < b < i && receiver_rank(#[trigger] devices@[a]) == receiver_rank(
                    #[trigger] devices@[b],
                ) ==> perm[a] < perm[b],
        decreases n - i,
    {
        let ghost before = devices@;
        let ghost pbefore = perm;
        let x = devices.remove(i);
        let rx = rank_of(&x);
        let mut j: usize = i;
        while j > 0 && rank_of(&devices[j - 1]) > rx
            invariant
                devices@ == before.remove(i as int),
                j <= i,
                i < n,
                n == before.len(),
                rx == receiver_rank(x),
                forall|t: int| j <= t < i ==> receiver_rank(#[trigger] devices@[t]) > rx,
            decreases j,
        {
            j = j - 1;
        }
        devices.insert(j, x);
        proof {
            let removed = before.remove(i as int);
            let nv = devices@;
            assert(nv == removed.insert(j as int, x));
            let np = pbefore.remove(i as int).insert(j as int, i as int);
            assert(np.len() == n);
            assert forall|k: int| 0 <= k < n implies #[trigger] nv[k] == orig[np[k]] by {
                if k < j {
                    assert(nv[k] == before[k]);
                    assert(np[k] == pbefore[k]);
                } else if k == j {
                    assert(nv[k] == x);
                    assert(x == before[i as int]);
                    assert(pbefore[i as int] == i);
                } else if k <= i {
                    assert(nv[k] == before[k - 1]);
                    assert(np[k] == pbefore[k - 1]);
                } else {
                    assert(nv[k] == before[k]);
                    assert(np[k] == pbefore[k]);
                }
            }
            assert forall|k: int| 0 <= k < n implies 0 <= #[trigger] np[k] < n by {
                if k < j {
                } else if k == j {
                } else if k <= i {
                    assert(np[k] == pbefore[k - 1]);
                } else {
                    assert(np[k] == pbefore[k]);
                }
            }
            assert forall|k: int| i + 1 <= k < n implies #[trigger] np[k] == k by {
                assert(np[k] == pbefore[k]);
            }
            assert forall|k: int| 0 <= k < i + 1 implies #[trigger] np[k] < i + 1 by {
                if k < j {
                    assert(np[k] == pbefore[k]);
                } else if k == j {
                } else {
                    assert(np[k] == pbefore[k - 1]);
                }
            }
            assert forall|a: int, b: int| 0 <= a < b < n implies #[trigger] np[a] != #[trigger] np[b] by {
                let ia = if a < j {
                    a
                } else if a == j {
                    i as int
                } else if a <= i {
                    a - 1
                } else {
                    a
                };
                let ib = if b < j {
                    b
                } else if b == j {
                    i as int
                } else if b <= i {
                    b - 1
                } else {
                    b
                };
                assert(np[a] == pbefore[ia]);
                assert(np[b] == pbefore[ib]);
                assert(ia != ib);
            }
            assert forall|a: int, b: int| 0 <= a < b < i + 1 implies receiver_rank(
                #[trigger] nv[a],
            ) <= receiver_rank(#[trigger] nv[b]) && (receiver_rank(nv[a]) == receiver_rank(nv[b])
                ==> np[a] < np[b]) by {
                if b < j {
                    assert(nv[a] == before[a] && nv[b] == before[b]);
                    assert(np[a] == pbefore[a] && np[b] == pbefore[b]);
                } else if b == j {
                    assert(nv[a] == before[a]);
                    assert(nv[b] == x);
                    assert(np[a] == pbefore[a]);
                    if a < j - 1 {
                        assert(nv[j - 1] == before[j - 1]);
                        assert(receiver_rank(before[a]) <= receiver_rank(before[j - 1]));
                    }
                    assert(pbefore[a] < i);
                } else if a < j {
                    assert(nv[a] == before[a]);
                    assert(nv[b] == before[b - 1]);
                    assert(np[a] == pbefore[a] && np[b] == pbefore[b - 1]);
                    if a < b - 1 {
                    }
                } else if a == j {
                    assert(nv[a] == x);
                    assert(nv[b] == removed[b - 1]);
                    assert(receiver_rank(removed[b - 1]) > rx);
                } else {
                    assert(nv[a] == before[a - 1] && nv[b] == before[b - 1]);
                    assert(np[a] == pbefore[a - 1] && np[b] == pbefore[b - 1]);
                }
            }
            perm = np;
        }
        i = i + 1;
    }
    proof {
        assert(stably_sorted_by_rank(orig, devices@, perm));
    }
}

// ---------------------------------------------------------------------------
// Selection
// ---------------------------------------------------------------------------

pub open spec fn id_views(v: Seq<String>) -> Seq<Seq<char>> {
    v.map_values(|s: String| s@)
}

/// Whether a receiver with this id was discovered.
pub open spec fn discovered(devices: Seq<AirPlayReceiver>, id: Seq<char>) -> bool {
    exists|k: int| 0 <= k < devices.len() && #[trigger] devices[k].id@ == id
}

/// The selected ids that are still discovered, in selection order.
pub open spec fn still_discovered(devices: Seq<AirPlayReceiver>, sel: Seq<Seq<char>>) -> Seq<Seq<char>>
    decreases sel.len(),
{
    if sel.len() == 0 {
        seq![]
    } else if discovered(devices, sel.last()) {
        still_discovered(devices, sel.drop_last()).push(sel.last())
    } else {
        still_discovered(devices, sel.drop_last())
    }
}

/// The selection after a scan: selected receivers that are gone are dropped;
/// an empty selection falls back to the last used receiver, then to the only
/// receiver; single-speaker mode keeps at most one.
pub open spec fn spec_reconcile_selection(
    devices: Seq<AirPlayReceiver>,
    sel: Seq<Seq<char>>,
    last: Option<Seq<char>>,
    multiroom: bool,
) -> Seq<Seq<char>> {
    let kept = still_discovered(devices, sel);
    let with_last = if kept.len() == 0 && last is Some && discovered(devices, last->0) {
        seq![last->0]
    } else {
        kept
    };
    let with_only = if with_last.len() == 0 && devices.len() == 1 {
        seq![devices[0].id@]
    } else {
        with_last
    };
    if !multiroom && with_only.len() > 1 {
        with_only.take(1)
    } else {
        with_only
    }
}

fn is_discovered(devices: &Vec<AirPlayReceiver>, id: &String) -> (b: bool)
    ensures
        b == discovered(devices@, id@),
{
    let mut k: usize = 0;
    while k < devices.len()
        invariant
            k <= devices@.len(),
            forall|t: int| 0 <= t < k ==> devices@[t].id@ != id@,
        decreases devices.len() - k,
    {
        if str_eq(devices[k].id.as_str(), id.as_str()) {
            return true;
        }
        k = k + 1;
    }
    false
}

/// Updates the selection after a scan (see `spec_reconcile_selection`).
pub fn reconcile_selection(
    selected: &mut Vec<String>,
    devices: &Vec<AirPlayReceiver>,
    last_receiver_id: &Option<String>,
    multiroom: bool,
)
    ensures
        id_views(final(selected)@) == spec_reconcile_selection(
            devices@,
            id_views(old(selected)@),
            match last_receiver_id {
                Some(l) => Some(l@),
                None => None,
            },
            multiroom,
        ),
{
    let ghost sel = id_views(selected@);
    let mut kept: Vec<String> = Vec::new();
    let mut i: usize = 0;
    while i < selected.len()
        invariant
            i <= selected@.len(),
            sel == id_views(selected@),
            id_views(kept@) == still_discovered(devices@, sel.take(i as int)),
        decreases selected.len() - i,
    {
        proof {
            assert(sel.take(i + 1).drop_last() =~= sel.take(i as int));
            assert(sel.take(i + 1).last() == selected@[i as int]@);
        }
        if is_discovered(devices, &selected[i]) {
            kept.push(selected[i].clone());
            proof {
                assert(id_views(kept@) =~= id_views(kept@.drop_last()).push(
                    kept@.last()@,
                ));
            }
        }
        i = i + 1;
    }
    proof {
        assert(sel.take(selected@.len() as int) =~= sel);
    }
    if kept.len() == 0 {
        if let Some(last) = last_receiver_id {
            if is_discovered(devices, last) {
                kept.push(last.clone());
                proof {
                    assert(id_views(kept@) =~= seq![last@]);
                }
            }
        }
    }
    if kept.len() == 0 && devices.len() == 1 {
        kept.push(devices[0].id.clone());
        proof {
            assert(id_views(kept@) =~= seq![devices@[0].id@]);
        }
    }
    if !multiroom && kept.len() > 1 {
        kept.truncate(1);
        proof {
            assert(id_views(kept@) =~= id_views(old(selected)@).take(0) + id_views(kept@));
        }
    }
    *selected = kept;
}

/// Position of the first selected id equal to `id`.
pub open spec fn first_position(sel: Seq<Seq<char>>, id: Seq<char>, from: int) -> Option<int>
    decreases sel.len() - from,
{
    if from >= sel.len() {
        None
    } else if sel[from] == id {
        Some(from)
    } else {
        first_position(sel, id, from + 1)
    }
}

fn position_of(selected: &Vec<String>, id: &String) -> (r: Option<usize>)
    ensures
        match r {
            Some(p) => p < selected@.len() && first_position(id_views(selected@), id@, 0) == Some(
                p as int,
            ),
            None => first_position(id_views(selected@), id@, 0) is None,
        },
{
    let ghost sel = id_views(selected@);
    let mut p: usize = 0;
    while p < selected.len()
        invariant
            p <= selected@.len(),
            sel == id_views(selected@),
            first_position(sel, id@, 0) == first_position(sel, id@, p as int),
        decreases selected.len() - p,
    {
        if str_eq(selected[p].as_str(), id.as_str()) {
            return Some(p);
        }
        p = p + 1;
    }
    None
}

fn find_receiver(devices: &Vec<AirPlayReceiver>, id: &String) -> (r: Option<usize>)
    ensures
        match r {
            Some(k) => k < devices@.len() && first_with_id(devices@, id@, 0) == Some(k as int),
            None => first_with_id(devices@, id@, 0) is None,
        },
{
    let mut k: usize = 0;
    while k < devices.len()
        invariant
            k <= devices@.len(),
            first_with_id(devices@, id@, 0) == first_with_id(devices@, id@, k as int),
        decreases devices.len() - k,
    {
        if str_eq(devices[k].id.as_str(), id.as_str()) {
            return Some(k);
        }
        k = k + 1;
    }
    None
}

/// A click on a receiver: in multiroom mode it toggles that receiver, in
/// single mode it becomes the only selection.
pub open spec fn spec_select_click(sel: Seq<Seq<char>>, id: Seq<char>, multiroom: bool) -> Seq<Seq<char>> {
    if multiroom {
        match first_position(sel, id, 0) {
            Some(p) => sel.remove(p),
            None => sel.push(id),
        }
    } else {
        seq![id]
    }
}

/// Applies a click on a receiver; returns the receiver to remember as the
/// last used one (the first selected).
pub fn set_selected(selected: &mut Vec<String>, id: String, multiroom: bool) -> (last: Option<String>)
    ensures
        id_views(final(selected)@) == spec_select_click(id_views(old(selected)@), id@, multiroom),
        match last {
            Some(l) => final(selected)@.len() > 0 && l@ == final(selected)@[0]@,
            None => final(selected)@.len() == 0,
        },
{
    let ghost sel = id_views(selected@);
    if multiroom {
        match position_of(selected, &id) {
            Some(p) => {
                selected.remove(p);
                proof {
                    assert(id_views(selected@) =~= sel.remove(p as int));
                }
            },
            None => {
                selected.push(id);
                proof {
                    assert(id_views(selected@) =~= sel.push(id@));
                }
            },
        }
    } else {
        selected.clear();
        selected.push(id);
        proof {
            assert(id_views(selected@) =~= seq![id@]);
        }
    }
    if selected.len() > 0 {
        Some(selected[0].clone())
    } else {
        None
    }
}

/// The names of the selected receivers (ids no longer discovered are skipped).
pub open spec fn selected_names(devices: Seq<AirPlayReceiver>, sel: Seq<Seq<char>>) -> Seq<Seq<char>>
    decreases sel.len(),
{
    if sel.len() == 0 {
        seq![]
    } else {
        let prev = selected_names(devices, sel.drop_last());
        match first_with_id(devices, sel.last(), 0) {
            Some(k) => prev.push(devices[k].name@),
            None => prev,
        }
    }
}

/// The first discovered receiver at or after `from` with this id.
pub open spec fn first_with_id(devices: Seq<AirPlayReceiver>, id: Seq<char>, from: int) -> Option<int>
    decreases devices.len() - from,
{
    if from >= devices.len() || from < 0 {
        None
    } else if devices[from].id@ == id {
        Some(from)
    } else {
        first_with_id(devices, id, from + 1)
    }
}

pub fn selected_name_list(selected: &Vec<String>, devices: &Vec<AirPlayReceiver>) -> (names: Vec<String>)
    ensures
        id_views(names@) == selected_names(devices@, id_views(selected@)),
{
    let ghost sel = id_views(selected@);
    let mut names: Vec<String> = Vec::new();
    let mut i: usize = 0;
    while i < selected.len()
        invariant
            i <= selected@.len(),
            sel == id_views(selected@),
            id_views(names@) == selected_names(devices@, sel.take(i as int)),
        decreases selected.len() - i,
    {
        proof {
            assert(sel.take(i + 1).drop_last() =~= sel.take(i as int));
            assert(sel.take(i + 1).last() == selected@[i as int]@);
        }
        match find_receiver(devices, &selected[i]) {
            Some(k) => {
                names.push(devices[k].name.clone());
                proof {
                    assert(id_views(names@) =~= id_views(names@.drop_last()).push(
                        devices@[k as int].name@,
                    ));
                }
            },
            None => {},
        }
        i = i + 1;
    }
    proof {
        assert(sel.take(selected@.len() as int) =~= sel);
    }
    names
}

/// The selection after the multiroom switch moved from `was_multiroom` to
/// `multiroom`: turning multiroom off keeps only the first selected receiver.
pub open spec fn spec_multiroom_switched(sel: Seq<String>, was_multiroom: bool, multiroom: bool) -> Seq<
    String,
> {
    if was_multiroom && !multiroom && sel.len() > 1 {
        sel.take(1)
    } else {
        sel
    }
}

/// Applies a change of the multiroom switch to the selection.
pub fn multiroom_switched(selected: &mut Vec<String>, was_multiroom: bool, multiroom: bool)
    ensures
        final(selected)@ == spec_multiroom_switched(old(selected)@, was_multiroom, multiroom),
{
    if was_multiroom && !multiroom && selected.len() > 1 {
        selected.truncate(1);
    }
}

// ---------------------------------------------------------------------------
// Stream start
// ---------------------------------------------------------------------------

/// Why a stream cannot start from the current selection.
#[derive(Debug, Clone, Copy, PartialEq, Eq, Structural)]
pub enum StartError {
    /// Nothing is selected.
    NoSelection,
    /// Single-speaker mode with several receivers selected.
    SingleNeedsOne,
}

/// The stream mode for a selection: multiroom when enabled and two or more
/// receivers are selected, otherwise single-speaker with exactly one.
pub open spec fn spec_stream_mode(multiroom: bool, selected: nat) -> Result<LiveStreamMode, StartError> {
    if selected == 0 {
        Err(StartError::NoSelection)
    } else if multiroom && selected >= 2 {
        Ok(LiveStreamMode::MultiroomExperimental)
    } else if selected != 1 {
        Err(StartError::SingleNeedsOne)
    } else {
        Ok(LiveStreamMode::Single)
    }
}

pub fn choose_stream_mode(multiroom: bool, selected: usize) -> (r: Result<LiveStreamMode, StartError>)
    ensures
        r == spec_stream_mode(multiroom, selected as nat),
{
    if selected == 0 {
        return Err(StartError::NoSelection);
    }
    if multiroom && selected >= 2 {
        Ok(LiveStreamMode::MultiroomExperimental)
    } else if selected != 1 {
        Err(StartError::SingleNeedsOne)
    } else {
        Ok(LiveStreamMode::Single)
    }
}

/// The render lead actually used: none in the video low-latency profile.
pub fn effective_render_delay_ms(video_low_latency: bool, render_delay_ms: u32) -> (d: u32)
    ensures
        d == (if video_low_latency {
            0
        } else {
            render_delay_ms
        }),
{
    if video_low_latency {
        0
    } else {
        render_delay_ms
    }
}

/// The protocol shown for the selection.
pub fn protocol_label(multiroom: bool, selected: usize) -> (s: &'static str)
    ensures
        s@ == (if multiroom && selected >= 2 {
            "ALAC / PTP"@
        } else {
            "ALAC / NTP"@
        }),
{
    if multiroom && selected >= 2 {
        "ALAC / PTP"
    } else {
        "ALAC / NTP"
    }
}

/// Whether the start button is enabled.
pub fn can_start(activity: Activity, selected: usize, multiroom: bool) -> (b: bool)
    ensures
        b == (activity == Activity::Idle && selected > 0),
{
    activity == Activity::Idle && selected > 0 && (!multiroom || selected == 1 || selected >= 2)
}

// ---------------------------------------------------------------------------
// Diagnostics log and receiver counts
// ---------------------------------------------------------------------------

/// Lines kept in the diagnostics log.
pub const MAX_LOG_LINES: usize = 250;

pub open spec fn spec_push_log(lines: Seq<String>, line: String) -> Seq<String> {
    if lines.len() >= 250 {
        lines.drop_first().push(line)
    } else {
        lines.push(line)
    }
}

/// Appends a line to the log, dropping the oldest line when it is full.
pub fn push_log(logs: &mut VecDeque<String>, line: String)
    ensures
        final(logs)@ == spec_push_log(old(logs)@, line),
        old(logs)@.len() <= 250 ==> final(logs)@.len() <= 250,
{
    if logs.len() >= MAX_LOG_LINES {
        logs.pop_front();
    }
    logs.push_back(line);
}

/// How many of the first `n` receivers satisfy `is_homepod` (or are Apple TVs).
pub open spec fn count_kind(devices: Seq<AirPlayReceiver>, homepods: bool, n: int) -> nat
    decreases n,
{
    if n <= 0 {
        0
    } else {
        let k = kind_of_model(devices[n - 1].model@);
        let hit = if homepods {
            kind_is_homepod(k)
        } else {
            kind_is_apple_tv(k)
        };
        count_kind(devices, homepods, n - 1) + if hit {
            1nat
        } else {
            0nat
        }
    }
}

proof fn lemma_count_kind_bound(devices: Seq<AirPlayReceiver>, homepods: bool, n: int)
    requires
        0 <= n <= devices.len(),
    ensures
        count_kind(devices, homepods, n) <= n,
    decreases n,
{
    if n > 0 {
        lemma_count_kind_bound(devices, homepods, n - 1);
    }
}

/// Counts the HomePods (or, with `homepods` false, the Apple TVs) among the receivers.
pub fn count_receivers(devices: &Vec<AirPlayReceiver>, homepods: bool) -> (c: usize)
    ensures
        c == count_kind(devices@, homepods, devices@.len() as int),
{
    let mut c: usize = 0;
    let mut i: usize = 0;
    while i < devices.len()
        invariant
            i <= devices@.len(),
            c == count_kind(devices@, homepods, i as int),
        decreases devices.len() - i,
    {
        proof {
            lemma_count_kind_bound(devices@, homepods, i as int);
        }
        let k = devices[i].device_kind();
        let hit = if homepods {
            k.is_homepod()
        } else {
            k.is_apple_tv()
        };
        if hit {
            c = c + 1;
        }
        i = i + 1;
    }
    c
}

// ---------------------------------------------------------------------------
// Selection laws
// ---------------------------------------------------------------------------

proof fn lemma_first_position_none(sel: Seq<Seq<char>>, id: Seq<char>, from: int)
    requires
        0 <= from,
        first_position(sel, id, from) is None,
    ensures
        forall|i: int| from <= i < sel.len() ==> sel[i] != id,
    decreases sel.len() - from,
{
    if from < sel.len() {
        lemma_first_position_none(sel, id, from + 1);
    }
}

proof fn lemma_first_position_at_end(sel: Seq<Seq<char>>, id: Seq<char>, from: int)
    requires
        0 <= from <= sel.len(),
        forall|i: int| from <= i < sel.len() ==> sel[i] != id,
    ensures
        first_position(sel.push(id), id, from) == Some(sel.len() as int),
    decreases sel.len() - from,
{
    if from < sel.len() {
        lemma_first_position_at_end(sel, id, from + 1);
    }
}

proof fn lemma_still_discovered(devices: Seq<AirPlayReceiver>, sel: Seq<Seq<char>>)
    ensures
        forall|i: int|
            0 <= i < still_discovered(devices, sel).len() ==> discovered(
                devices,
                #[trigger] still_discovered(devices, sel)[i],
            ),
    decreases sel.len(),
{
    if sel.len() > 0 {
        let prev = still_discovered(devices, sel.drop_last());
        lemma_still_discovered(devices, sel.drop_last());
        if discovered(devices, sel.last()) {
            let cur = still_discovered(devices, sel);
            assert(cur == prev.push(sel.last()));
            assert forall|i: int| 0 <= i < cur.len() implies discovered(devices, #[trigger] cur[i]) by {
                if i < prev.len() {
                    assert(cur[i] == prev[i]);
                }
            }
        }
    }
}

/// Clicking a receiver that is not selected, then clicking it again, in
/// multiroom mode leaves the selection as it was.
pub proof fn law_double_click_restores_selection(sel: Seq<Seq<char>>, id: Seq<char>)
    requires
        first_position(sel, id, 0) is None,
    ensures
        spec_select_click(spec_select_click(sel, id, true), id, true) == sel,
{
    lemma_first_position_none(sel, id, 0);
    lemma_first_position_at_end(sel, id, 0);
    assert(sel.push(id).remove(sel.len() as int) =~= sel);
}

/// A click in single-speaker mode selects exactly the clicked receiver.
pub proof fn law_single_mode_click_selects_one(sel: Seq<Seq<char>>, id: Seq<char>)
    ensures
        spec_select_click(sel, id, false) == seq![id],
{
}

/// After a scan the selection names only discovered receivers, and in
/// single-speaker mode at most one.
pub proof fn law_selection_after_scan(
    devices: Seq<AirPlayReceiver>,
    sel: Seq<Seq<char>>,
    last: Option<Seq<char>>,
    multiroom: bool,
)
    ensures
        forall|i: int|
            0 <= i < spec_reconcile_selection(devices, sel, last, multiroom).len() ==> discovered(
                devices,
                #[trigger] spec_reconcile_selection(devices, sel, last, multiroom)[i],
            ),
        !multiroom ==> spec_reconcile_selection(devices, sel, last, multiroom).len() <= 1,
{
    lemma_still_discovered(devices, sel);
    if devices.len() == 1 {
        assert(devices[0].id@ == devices[0].id@);
        assert(discovered(devices, devices[0].id@));
    }
}

/// Receivers are listed HomePods first, then Apple TVs (newer generations
/// first), then other speakers.
pub proof fn law_listing_order(h: DeviceKind, t: DeviceKind)
    ensures
        kind_is_homepod(h) && kind_is_apple_tv(t) ==> sort_rank(h) < sort_rank(t),
        kind_is_apple_tv(t) ==> sort_rank(t) < sort_rank(DeviceKind::AirPlaySpeaker),
        kind_is_homepod(h) ==> sort_rank(h) < sort_rank(DeviceKind::AirPlaySpeaker),
        sort_rank(DeviceKind::AppleTv4K3) < sort_rank(DeviceKind::AppleTv4K2) < sort_rank(
            DeviceKind::AppleTv4K1,
        ) < sort_rank(DeviceKind::AppleTvHd4) < sort_rank(DeviceKind::AppleTv3) < sort_rank(
            DeviceKind::AppleTv2,
        ),
{
}

/// A stream starts in multiroom only when multiroom is on and at least two
/// receivers are selected, in single mode only with exactly one, and never
/// with none.
pub proof fn law_stream_mode(multiroom: bool, selected: nat)
    ensures
        spec_stream_mode(multiroom, selected) == Ok::<LiveStreamMode, StartError>(
            LiveStreamMode::MultiroomExperimental,
        ) <==> multiroom && selected >= 2,
        spec_stream_mode(multiroom, selected) == Ok::<LiveStreamMode, StartError>(
            LiveStreamMode::Single,
        ) <==> selected == 1,
        selected == 0 ==> spec_stream_mode(multiroom, selected) is Err,
{
}

} // verus!
