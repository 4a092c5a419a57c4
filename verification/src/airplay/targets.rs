//! Choosing the receivers a session or stream talks to.
use crate::airplay::discovery::{is_ipv4_address, parses_as_ipv4, preferred_address_index, string_views};
use crate::airplay::live::LiveStreamMode;
use crate::text::{chars_of, contains, contains_seq, seq_eq, str_eq, to_lowercase, unicode_lowercase};
use vstd::prelude::*;
use vstd::string::StringExecFns;

verus! {

/// What the selection logic reads of a discovered receiver.
#[derive(Debug, Clone)]
pub struct TargetDevice {
    /// The receiver's device id in MAC-address form.
    pub id: String,
    pub name: String,
    pub model: String,
    /// The receiver's addresses, as text.
    pub addresses: Vec<String>,
    pub supports_audio: bool,
    pub supports_airplay2: bool,
    pub supports_ptp: bool,
    pub os_version: Option<String>,
    pub is_group_leader: bool,
    pub parent_group_id: Option<String>,
    pub tight_sync_id: Option<String>,
}

/// Why no receiver could be chosen.
#[derive(Debug, Clone, Copy, PartialEq, Eq, Structural)]
pub enum TargetError {
    /// No receiver supports audio.
    NoAudioReceivers,
    /// Several receivers and no unique HomePod: one must be selected.
    SelectOneReceiver,
    /// Multiroom needs receivers to be selected.
    MultiroomNeedsSelection,
    /// The selector at this index matched no audio receiver.
    NotFound(usize),
    /// Single-speaker mode needs exactly one receiver.
    SingleNeedsOne,
    /// Multiroom needs at least two receivers.
    MultiroomNeedsTwo,
}

/// Receivers whose model or name says HomePod.
pub open spec fn homepod_like(d: TargetDevice) -> bool {
    contains_seq(unicode_lowercase(d.model@), "audioaccessory"@) || contains_seq(
        unicode_lowercase(d.name@),
        "homepod"@,
    )
}

/// Indices below `n` of the receivers that support audio, in order.
pub open spec fn audio_indices(devs: Seq<TargetDevice>, n: int) -> Seq<int>
    decreases n,
{
    if n <= 0 {
        seq![]
    } else if devs[n - 1].supports_audio {
        audio_indices(devs, n - 1).push(n - 1)
    } else {
        audio_indices(devs, n - 1)
    }
}

/// Indices below `n` of the audio receivers that look like HomePods.
pub open spec fn audio_homepod_indices(devs: Seq<TargetDevice>, n: int) -> Seq<int>
    decreases n,
{
    if n <= 0 {
        seq![]
    } else if devs[n - 1].supports_audio && homepod_like(devs[n - 1]) {
        audio_homepod_indices(devs, n - 1).push(n - 1)
    } else {
        audio_homepod_indices(devs, n - 1)
    }
}

/// Whether an address list holds the selector text exactly.
pub open spec fn has_address(d: TargetDevice, s: Seq<char>) -> bool {
    exists|a: int| 0 <= a < d.addresses@.len() && #[trigger] d.addresses@[a]@ == s
}

/// A stream selector names a receiver by id, by name (exactly or in part,
/// ignoring case) or by one of its addresses.
pub open spec fn matches_stream_selector(d: TargetDevice, s: Seq<char>) -> bool {
    let needle = unicode_lowercase(s);
    ||| unicode_lowercase(d.id@) == needle
    ||| unicode_lowercase(d.name@) == needle
    ||| contains_seq(unicode_lowercase(d.name@), needle)
    ||| has_address(d, s)
}

/// The first audio receiver at or after `i` that the selector names.
pub open spec fn first_stream_match(devs: Seq<TargetDevice>, s: Seq<char>, i: int) -> Option<int>
    decreases devs.len() - i,
{
    if i >= devs.len() {
        None
    } else if devs[i].supports_audio && matches_stream_selector(devs[i], s) {
        Some(i)
    } else {
        first_stream_match(devs, s, i + 1)
    }
}

/// Whether a receiver with this id is already among the chosen ones.
pub open spec fn chosen_has_id(devs: Seq<TargetDevice>, chosen: Seq<int>, id: Seq<char>) -> bool {
    exists|j: int| 0 <= j < chosen.len() && #[trigger] devs[chosen[j]].id@ == id
}

/// The receivers named by the first `n` selectors, each once, in selector
/// order; or the index of the first selector that names none.
pub open spec fn pick_targets(devs: Seq<TargetDevice>, sels: Seq<Seq<char>>, n: int) -> Result<
    Seq<int>,
    int,
>
    decreases n,
{
    if n <= 0 {
        Ok(seq![])
    } else {
        match pick_targets(devs, sels, n - 1) {
            Err(e) => Err(e),
            Ok(out) => match first_stream_match(devs, sels[n - 1], 0) {
                None => Err(n - 1),
                Some(i) => if chosen_has_id(devs, out, devs[i].id@) {
                    Ok(out)
                } else {
                    Ok(out.push(i))
                },
            },
        }
    }
}

/// The receivers a live stream talks to (as indices into `devs`).
pub open spec fn spec_choose_targets(
    devs: Seq<TargetDevice>,
    sels: Seq<Seq<char>>,
    mode: LiveStreamMode,
) -> Result<Seq<int>, TargetError> {
    let audio = audio_indices(devs, devs.len() as int);
    if audio.len() == 0 {
        Err(TargetError::NoAudioReceivers)
    } else if sels.len() == 0 {
        match mode {
            LiveStreamMode::Single => if audio.len() == 1 {
                Ok(seq![audio[0]])
            } else {
                let hps = audio_homepod_indices(devs, devs.len() as int);
                if hps.len() == 1 {
                    Ok(hps)
                } else {
                    Err(TargetError::SelectOneReceiver)
                }
            },
            LiveStreamMode::MultiroomExperimental => Err(TargetError::MultiroomNeedsSelection),
        }
    } else {
        match pick_targets(devs, sels, sels.len() as int) {
            Err(i) => Err(TargetError::NotFound(i as usize)),
            Ok(out) => if mode == LiveStreamMode::Single && out.len() != 1 {
                Err(TargetError::SingleNeedsOne)
            } else if mode == LiveStreamMode::MultiroomExperimental && out.len() < 2 {
                Err(TargetError::MultiroomNeedsTwo)
            } else {
                Ok(out)
            },
        }
    }
}

pub open spec fn usize_seq_view(v: Seq<usize>) -> Seq<int> {
    v.map_values(|x: usize| x as int)
}

fn lowered(s: &String) -> (r: Vec<char>)
    ensures
        r@ == unicode_lowercase(s@),
{
    let l = to_lowercase(s.as_str());
    chars_of(l.as_str())
}

fn collect_audio(devices: &Vec<TargetDevice>) -> (out: Vec<usize>)
    ensures
        usize_seq_view(out@) == audio_indices(devices@, devices@.len() as int),
{
    let mut out: Vec<usize> = Vec::new();
    let mut i: usize = 0;
    while i < devices.len()
        invariant
            i <= devices@.len(),
            usize_seq_view(out@) == audio_indices(devices@, i as int),
        decreases devices.len() - i,
    {
        if devices[i].supports_audio {
            out.push(i);
            proof {
                assert(usize_seq_view(out@) =~= audio_indices(devices@, i as int).push(i as int));
            }
        }
        i = i + 1;
    }
    out
}

fn is_homepod_like(d: &TargetDevice) -> (b: bool)
    ensures
        b == homepod_like(*d),
{
    let model = lowered(&d.model);
    let name = lowered(&d.name);
    let a = chars_of("audioaccessory");
    let h = chars_of("homepod");
    contains(&model, &a) || contains(&name, &h)
}

fn collect_audio_homepods(devices: &Vec<TargetDevice>) -> (out: Vec<usize>)
    ensures
        usize_seq_view(out@) == audio_homepod_indices(devices@, devices@.len() as int),
{
    let mut out: Vec<usize> = Vec::new();
    let mut i: usize = 0;
    while i < devices.len()
        invariant
            i <= devices@.len(),
            usize_seq_view(out@) == audio_homepod_indices(devices@, i as int),
        decreases devices.len() - i,
    {
        if devices[i].supports_audio && is_homepod_like(&devices[i]) {
            out.push(i);
            proof {
                assert(usize_seq_view(out@) =~= audio_homepod_indices(devices@, i as int).push(
                    i as int,
                ));
            }
        }
        i = i + 1;
    }
    out
}

fn has_address_exec(d: &TargetDevice, s: &String) -> (b: bool)
    ensures
        b == has_address(*d, s@),
{
    let mut a: usize = 0;
    while a < d.addresses.len()
        invariant
            a <= d.addresses@.len(),
            forall|t: int| 0 <= t < a ==> d.addresses@[t]@ != s@,
        decreases d.addresses.len() - a,
    {
        if str_eq(d.addresses[a].as_str(), s.as_str()) {
            return true;
        }
        a = a + 1;
    }
    false
}

fn matches_stream_selector_exec(d: &TargetDevice, s: &String, needle: &Vec<char>) -> (b: bool)
    requires
        needle@ == unicode_lowercase(s@),
    ensures
        b == matches_stream_selector(*d, s@),
{
    let id = lowered(&d.id);
    let name = lowered(&d.name);
    seq_eq(&id, needle) || seq_eq(&name, needle) || contains(&name, needle) || has_address_exec(d, s)
}

fn find_stream_match(devices: &Vec<TargetDevice>, s: &String) -> (r: Option<usize>)
    ensures
        match r {
            Some(i) => first_stream_match(devices@, s@, 0) == Some(i as int),
            None => first_stream_match(devices@, s@, 0) is None,
        },
{
    let needle = lowered(s);
    let mut i: usize = 0;
    while i < devices.len()
        invariant
            i <= devices@.len(),
            needle@ == unicode_lowercase(s@),
            first_stream_match(devices@, s@, 0) == first_stream_match(devices@, s@, i as int),
        decreases devices.len() - i,
    {
        if devices[i].supports_audio && matches_stream_selector_exec(&devices[i], s, &needle) {
            return Some(i);
        }
        i = i + 1;
    }
    None
}

fn chosen_has_id_exec(devices: &Vec<TargetDevice>, chosen: &Vec<usize>, id: &String) -> (b: bool)
    requires
        forall|j: int| 0 <= j < chosen@.len() ==> (#[trigger] chosen@[j]) < devices@.len(),
    ensures
        b == chosen_has_id(devices@, usize_seq_view(chosen@), id@),
{
    let ghost cv = usize_seq_view(chosen@);
    let mut j: usize = 0;
    while j < chosen.len()
        invariant
            j <= chosen@.len(),
            cv == usize_seq_view(chosen@),
            forall|t: int| 0 <= t < chosen@.len() ==> (#[trigger] chosen@[t]) < devices@.len(),
            forall|t: int| 0 <= t < j ==> devices@[cv[t]].id@ != id@,
        decreases chosen.len() - j,
    {
        if str_eq(devices[chosen[j]].id.as_str(), id.as_str()) {
            proof {
                assert(devices@[cv[j as int]].id@ == id@);
            }
            return true;
        }
        j = j + 1;
    }
    false
}

/// Chooses the receivers of a live stream among the discovered ones:
/// without selectors, the only audio receiver or the only HomePod (single
/// mode); with selectors, each selector's first match, without duplicates,
/// then checked against the mode.
pub fn choose_targets(
    devices: &Vec<TargetDevice>,
    selectors: &Vec<String>,
    mode: LiveStreamMode,
) -> (r: Result<Vec<usize>, TargetError>)
    ensures
        match r {
            Ok(v) => spec_choose_targets(devices@, string_views(selectors@), mode) == Ok::<
                Seq<int>,
                TargetError,
            >(usize_seq_view(v@)),
            Err(e) => spec_choose_targets(devices@, string_views(selectors@), mode) == Err::<
                Seq<int>,
                TargetError,
            >(e),
        },
{
    let ghost sels = string_views(selectors@);
    let audio = collect_audio(devices);
    if audio.len() == 0 {
        return Err(TargetError::NoAudioReceivers);
    }
    if selectors.len() == 0 {
        return match mode {
            LiveStreamMode::Single => {
                if audio.len() == 1 {
                    let v = vec![audio[0]];
                    proof {
                        assert(usize_seq_view(v@) =~= seq![usize_seq_view(audio@)[0]]);
                    }
                    Ok(v)
                } else {
                    let hps = collect_audio_homepods(devices);
                    if hps.len() == 1 {
                        Ok(hps)
                    } else {
                        Err(TargetError::SelectOneReceiver)
                    }
                }
            },
            LiveStreamMode::MultiroomExperimental => Err(TargetError::MultiroomNeedsSelection),
        };
    }
    let mut out: Vec<usize> = Vec::new();
    let mut k: usize = 0;
    proof {
        assert(usize_seq_view(out@) =~= Seq::<int>::empty());
    }
    while k < selectors.len()
        invariant
            k <= selectors@.len(),
            sels == string_views(selectors@),
            sels.len() == selectors@.len(),
            sels.len() > 0,
            audio_indices(devices@, devices@.len() as int).len() > 0,
            pick_targets(devices@, sels, k as int) == Ok::<Seq<int>, int>(usize_seq_view(out@)),
            forall|j: int| 0 <= j < out@.len() ==> (#[trigger] out@[j]) < devices@.len(),
        decreases selectors.len() - k,
    {
        proof {
            assert(sels[k as int] == selectors@[k as int]@);
        }
        match find_stream_match(devices, &selectors[k]) {
            None => {
                proof {
                    assert(pick_targets(devices@, sels, k + 1) == Err::<Seq<int>, int>(k as int));
                    lemma_pick_error_sticks(devices@, sels, k + 1, sels.len() as int);
                }
                return Err(TargetError::NotFound(k));
            },
            Some(i) => {
                proof {
                    lemma_first_stream_match_range(devices@, sels[k as int], 0);
                }
                let ghost before = usize_seq_view(out@);
                let already = chosen_has_id_exec(devices, &out, &devices[i].id);
                proof {
                    assert(first_stream_match(devices@, sels[k as int], 0) == Some(i as int));
                    assert(already == chosen_has_id(devices@, before, devices@[i as int].id@));
                    if already {
                        assert(pick_targets(devices@, sels, k + 1) == Ok::<Seq<int>, int>(before));
                    } else {
                        assert(pick_targets(devices@, sels, k + 1) == Ok::<Seq<int>, int>(
                            before.push(i as int),
                        ));
                    }
                }
                if !already {
                    out.push(i);
                    proof {
                        assert(usize_seq_view(out@) =~= before.push(i as int));
                    }
                }
            },
        }
        k = k + 1;
    }
    proof {
        assert(sels.len() == selectors@.len());
    }
    if mode == LiveStreamMode::Single && out.len() != 1 {
        return Err(TargetError::SingleNeedsOne);
    }
    if mode == LiveStreamMode::MultiroomExperimental && out.len() < 2 {
        return Err(TargetError::MultiroomNeedsTwo);
    }
    Ok(out)
}

proof fn lemma_pick_error_sticks(devs: Seq<TargetDevice>, sels: Seq<Seq<char>>, n: int, m: int)
    requires
        0 <= n <= m,
        pick_targets(devs, sels, n) is Err,
    ensures
        pick_targets(devs, sels, m) == pick_targets(devs, sels, n),
    decreases m - n,
{
    if m > n {
        lemma_pick_error_sticks(devs, sels, n, m - 1);
    }
}

proof fn lemma_first_stream_match_range(devs: Seq<TargetDevice>, s: Seq<char>, i: int)
    requires
        0 <= i,
    ensures
        first_stream_match(devs, s, i) matches Some(j) ==> i <= j < devs.len() && devs[j].supports_audio
            && matches_stream_selector(devs[j], s),
    decreases devs.len() - i,
{
    if i < devs.len() && !(devs[i].supports_audio && matches_stream_selector(devs[i], s)) {
        lemma_first_stream_match_range(devs, s, i + 1);
    }
}

proof fn lemma_audio_indices_bounds(devs: Seq<TargetDevice>, n: int)
    requires
        0 <= n <= devs.len(),
    ensures
        forall|q: int|
            0 <= q < audio_indices(devs, n).len() ==> 0 <= #[trigger] audio_indices(devs, n)[q] < n
                && devs[audio_indices(devs, n)[q]].supports_audio,
        audio_indices(devs, n).len() == 0 <==> forall|j: int|
            0 <= j < n ==> !(#[trigger] devs[j]).supports_audio,
    decreases n,
{
    if n > 0 {
        lemma_audio_indices_bounds(devs, n - 1);
    }
}

proof fn lemma_homepod_indices_bounds(devs: Seq<TargetDevice>, n: int)
    requires
        0 <= n <= devs.len(),
    ensures
        forall|q: int|
            0 <= q < audio_homepod_indices(devs, n).len() ==> 0 <= #[trigger] audio_homepod_indices(
                devs,
                n,
            )[q] < n && devs[audio_homepod_indices(devs, n)[q]].supports_audio,
    decreases n,
{
    if n > 0 {
        lemma_homepod_indices_bounds(devs, n - 1);
    }
}

proof fn lemma_picked_are_audio(devs: Seq<TargetDevice>, sels: Seq<Seq<char>>, n: int)
    requires
        0 <= n <= sels.len(),
    ensures
        pick_targets(devs, sels, n) matches Ok(out) ==> forall|q: int|
            0 <= q < out.len() ==> 0 <= #[trigger] out[q] < devs.len() && devs[out[q]].supports_audio,
    decreases n,
{
    if n > 0 {
        lemma_picked_are_audio(devs, sels, n - 1);
        lemma_first_stream_match_range(devs, sels[n - 1], 0);
    }
}

/// The receivers chosen for a live stream are audio receivers; single mode
/// chooses exactly one and multiroom at least two; without selectors and
/// with a single audio receiver, single mode chooses that receiver; and the
/// stream fails for want of audio receivers exactly when there is none.
pub proof fn law_stream_targets(devs: Seq<TargetDevice>, sels: Seq<Seq<char>>, mode: LiveStreamMode)
    ensures
        spec_choose_targets(devs, sels, mode) matches Ok(out) ==> (forall|q: int|
            0 <= q < out.len() ==> 0 <= #[trigger] out[q] < devs.len() && devs[out[q]].supports_audio)
            && (mode == LiveStreamMode::Single ==> out.len() == 1) && (mode
            == LiveStreamMode::MultiroomExperimental ==> out.len() >= 2),
        sels.len() == 0 && audio_indices(devs, devs.len() as int).len() == 1 ==> spec_choose_targets(
            devs,
            sels,
            LiveStreamMode::Single,
        ) == Ok::<Seq<int>, TargetError>(seq![audio_indices(devs, devs.len() as int)[0]]),
        spec_choose_targets(devs, sels, mode) == Err::<Seq<int>, TargetError>(
            TargetError::NoAudioReceivers,
        ) <==> forall|j: int| 0 <= j < devs.len() ==> !(#[trigger] devs[j]).supports_audio,
{
    let n = devs.len() as int;
    lemma_audio_indices_bounds(devs, n);
    lemma_homepod_indices_bounds(devs, n);
    lemma_picked_are_audio(devs, sels, sels.len() as int);
    if audio_indices(devs, n).len() == 1 {
        assert(0 <= audio_indices(devs, n)[0] < n);
    }
}

} // verus!
