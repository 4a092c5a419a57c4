//! Receiver choice and reports of the session and stream tests.
use crate::airplay::discovery::{preferred_address_index, preferred_index, string_views};
use crate::airplay::live::CaptureFormatError;
use crate::capture::AudioFormat;
use crate::airplay::targets::{
    audio_homepod_indices, audio_indices, has_address, TargetDevice, usize_seq_view,
};
use crate::text::{chars_of, contains, contains_seq, str_eq, to_lowercase, unicode_lowercase};
use vstd::prelude::*;
use vstd::string::StringExecFns;

verus! {

/// What a connection test reports about the receiver.
#[derive(Debug)]
pub struct SessionTestResult {
    pub name: String,
    pub model: String,
    pub address: String,
    pub supports_airplay2: bool,
    pub supports_ptp: bool,
}

impl Clone for SessionTestResult {
    fn clone(&self) -> (r: Self)
        ensures
            r == *self,
    {
        SessionTestResult {
            name: self.name.clone(),
            model: self.model.clone(),
            address: self.address.clone(),
            supports_airplay2: self.supports_airplay2,
            supports_ptp: self.supports_ptp,
        }
    }
}

/// What a streaming test reports.
#[derive(Debug)]
pub struct StreamTestResult {
    pub session: SessionTestResult,
    pub prebuffer_chunks: u64,
    pub sent_chunks: u64,
    pub dropped_chunks: u64,
    pub stream_duration: std::time::Duration,
}

impl Clone for StreamTestResult {
    fn clone(&self) -> (r: Self)
        ensures
            r.prebuffer_chunks == self.prebuffer_chunks,
            r.sent_chunks == self.sent_chunks,
            r.dropped_chunks == self.dropped_chunks,
            r.stream_duration == self.stream_duration,
            r.session == self.session,
    {
        StreamTestResult {
            session: self.session.clone(),
            prebuffer_chunks: self.prebuffer_chunks,
            sent_chunks: self.sent_chunks,
            dropped_chunks: self.dropped_chunks,
            stream_duration: self.stream_duration,
        }
    }
}

/// Why no receiver was chosen for a test.
#[derive(Debug, Clone, Copy, PartialEq, Eq, Structural)]
pub enum SelectError {
    /// No receiver supports audio.
    NoAudioReceivers,
    /// No audio receiver matches the selector.
    NoMatch,
    /// Several audio receivers and no unique HomePod; a selector is needed.
    Ambiguous,
}

/// A test selector names a receiver by part of its name or model (ignoring
/// case), or by one of its addresses.
pub open spec fn matches_session_selector(d: TargetDevice, s: Seq<char>) -> bool {
    let needle = unicode_lowercase(s);
    ||| contains_seq(unicode_lowercase(d.name@), needle)
    ||| contains_seq(unicode_lowercase(d.model@), needle)
    ||| has_address(d, s)
}

/// The first audio receiver at or after `i` that the selector names.
pub open spec fn first_session_match(devs: Seq<TargetDevice>, s: Seq<char>, i: int) -> Option<int>
    decreases devs.len() - i,
{
    if i >= devs.len() {
        None
    } else if devs[i].supports_audio && matches_session_selector(devs[i], s) {
        Some(i)
    } else {
        first_session_match(devs, s, i + 1)
    }
}

/// The receiver a connection or stream test uses.
pub open spec fn spec_select_audio_device(devs: Seq<TargetDevice>, selector: Option<Seq<char>>) -> Result<
    int,
    SelectError,
> {
    let audio = audio_indices(devs, devs.len() as int);
    if audio.len() == 0 {
        Err(SelectError::NoAudioReceivers)
    } else {
        match selector {
            Some(s) => match first_session_match(devs, s, 0) {
                Some(i) => Ok(i),
                None => Err(SelectError::NoMatch),
            },
            None => if audio.len() == 1 {
                Ok(audio[0])
            } else {
                let hps = audio_homepod_indices(devs, devs.len() as int);
                if hps.len() == 1 {
                    Ok(hps[0])
                } else {
                    Err(SelectError::Ambiguous)
                }
            },
        }
    }
}

fn lowered(s: &String) -> (r: Vec<char>)
    ensures
        r@ == unicode_lowercase(s@),
{
    let l = to_lowercase(s.as_str());
    chars_of(l.as_str())
}

fn has_address_exec(d: &TargetDevice, s: &str) -> (b: bool)
    ensures
        b == has_address(*d, s@),
{
    let mut a: usize = 0;
    while a < d.addresses.len()
        invariant
            a <= d.addresses@.len(),
            forall|t: int| 0 <= t < a ==> d.addresses@[t]@ != s@,
        decreases d.addresses.len() - a,
    {
        if str_eq(d.addresses[a].as_str(), s) {
            return true;
        }
        a = a + 1;
    }
    false
}

/// Chooses the receiver of a connection or stream test: the first audio
/// receiver the selector names, else the only audio receiver, else the only
/// HomePod.
pub fn select_audio_device(devices: &Vec<TargetDevice>, selector: Option<&str>) -> (r: Result<
    usize,
    SelectError,
>)
    ensures
        match r {
            Ok(i) => spec_select_audio_device(devices@, match selector {
                Some(s) => Some(s@),
                None => None,
            }) == Ok::<int, SelectError>(i as int),
            Err(e) => spec_select_audio_device(devices@, match selector {
                Some(s) => Some(s@),
                None => None,
            }) == Err::<int, SelectError>(e),
        },
{
    let mut audio: Vec<usize> = Vec::new();
    let mut hps: Vec<usize> = Vec::new();
    let mut i: usize = 0;
    while i < devices.len()
        invariant
            i <= devices@.len(),
            usize_seq_view(audio@) == audio_indices(devices@, i as int),
            usize_seq_view(hps@) == audio_homepod_indices(devices@, i as int),
        decreases devices.len() - i,
    {
        if devices[i].supports_audio {
            audio.push(i);
            proof {
                assert(usize_seq_view(audio@) =~= audio_indices(devices@, i as int).push(i as int));
            }
            let model = lowered(&devices[i].model);
            let name = lowered(&devices[i].name);
            let a = chars_of("audioaccessory");
            let h = chars_of("homepod");
            if contains(&model, &a) || contains(&name, &h) {
                hps.push(i);
                proof {
                    assert(usize_seq_view(hps@) =~= audio_homepod_indices(devices@, i as int).push(
                        i as int,
                    ));
                }
            }
        }
        i = i + 1;
    }
    if audio.len() == 0 {
        return Err(SelectError::NoAudioReceivers);
    }
    match selector {
        Some(sel) => {
            let needle_s = to_lowercase(sel);
            let needle = chars_of(needle_s.as_str());
            let mut j: usize = 0;
            while j < devices.len()
                invariant
                    j <= devices@.len(),
                    needle@ == unicode_lowercase(sel@),
                    audio_indices(devices@, devices@.len() as int).len() > 0,
                    selector == Some(sel),
                    first_session_match(devices@, sel@, 0) == first_session_match(
                        devices@,
                        sel@,
                        j as int,
                    ),
                decreases devices.len() - j,
            {
                if devices[j].supports_audio {
                    let name = lowered(&devices[j].name);
                    let model = lowered(&devices[j].model);
                    if contains(&name, &needle) || contains(&model, &needle) || has_address_exec(
                        &devices[j],
                        sel,
                    ) {
                        return Ok(j);
                    }
                }
                j = j + 1;
            }
            Err(SelectError::NoMatch)
        },
        None => {
            if audio.len() == 1 {
                return Ok(audio[0]);
            }
            if hps.len() == 1 {
                return Ok(hps[0]);
            }
            Err(SelectError::Ambiguous)
        },
    }
}

/// How a receiver is listed among the choices: "name (model)".
pub open spec fn choice_entry(d: TargetDevice) -> Seq<char> {
    d.name@ + " ("@ + d.model@ + ")"@
}

/// The listed choices of the given receivers, separated by ", ".
pub open spec fn choices_text(devs: Seq<TargetDevice>, idx: Seq<int>) -> Seq<char>
    decreases idx.len(),
{
    if idx.len() == 0 {
        seq![]
    } else if idx.len() == 1 {
        choice_entry(devs[idx[0]])
    } else {
        choices_text(devs, idx.drop_last()) + ", "@ + choice_entry(devs[idx.last()])
    }
}

/// The audio receivers a selector could name, for an ambiguous choice.
pub fn audio_choices(devices: &Vec<TargetDevice>) -> (s: String)
    ensures
        s@ == choices_text(devices@, audio_indices(devices@, devices@.len() as int)),
{
    let mut out = String::new();
    let ghost mut listed: Seq<int> = seq![];
    let mut first = true;
    let mut i: usize = 0;
    while i < devices.len()
        invariant
            i <= devices@.len(),
            first == (listed.len() == 0),
            listed == audio_indices(devices@, i as int),
            out@ == choices_text(devices@, listed),
        decreases devices.len() - i,
    {
        if devices[i].supports_audio {
            let d = &devices[i];
            let mut entry = d.name.clone();
            entry.append(" (");
            entry.append(d.model.as_str());
            entry.append(")");
            if !first {
                out.append(", ");
            }
            first = false;
            out.append(entry.as_str());
            proof {
                let nl = listed.push(i as int);
                assert(nl.drop_last() =~= listed);
                if listed.len() == 0 {
                    assert(out@ =~= choice_entry(devices@[i as int]));
                } else {
                    assert(out@ =~= choices_text(devices@, listed) + ", "@ + choice_entry(
                        devices@[i as int],
                    ));
                }
                listed = nl;
            }
        }
        i = i + 1;
    }
    out
}

/// The report of a connection test: name, model, the preferred address
/// (first IPv4, else first, else "<unknown>") and the advertised features.
pub fn session_result(device: &TargetDevice) -> (r: SessionTestResult)
    ensures
        r.name@ == device.name@,
        r.model@ == device.model@,
        r.address@ == (match preferred_address_index(string_views(device.addresses@)) {
            Some(i) => device.addresses@[i]@,
            None => "<unknown>"@,
        }),
        r.supports_airplay2 == device.supports_airplay2,
        r.supports_ptp == device.supports_ptp,
{
    let address = match preferred_index(&device.addresses) {
        Some(i) => device.addresses[i].clone(),
        None => String::from_str("<unknown>"),
    };
    SessionTestResult {
        name: device.name.clone(),
        model: device.model.clone(),
        address,
        supports_airplay2: device.supports_airplay2,
        supports_ptp: device.supports_ptp,
    }
}

/// The stream test needs the stable wire format: 44.1 kHz stereo 16-bit.
pub open spec fn spec_check_test_format(format: AudioFormat) -> Result<(), CaptureFormatError> {
    if format.sample_rate != 44_100 || format.channels != 2 || format.bits_per_sample != 16 {
        Err(
            CaptureFormatError::UnexpectedFormat {
                sample_rate: format.sample_rate,
                channels: format.channels,
                bits_per_sample: format.bits_per_sample,
            },
        )
    } else {
        Ok(())
    }
}

pub fn check_test_format(format: &AudioFormat) -> (r: Result<(), CaptureFormatError>)
    ensures
        r == spec_check_test_format(*format),
{
    if format.sample_rate != 44_100 || format.channels != 2 || format.bits_per_sample != 16 {
        Err(
            CaptureFormatError::UnexpectedFormat {
                sample_rate: format.sample_rate,
                channels: format.channels,
                bits_per_sample: format.bits_per_sample,
            },
        )
    } else {
        Ok(())
    }
}

/// Capture blocks primed before the stream test starts RTP (of 1024 frames
/// each, about 580 ms at 44.1 kHz).
pub const TEST_PREBUFFER_CHUNKS: u64 = 25;

/// How a stream test went.
#[derive(Debug, Clone, Copy, PartialEq, Eq, Structural)]
pub enum StreamVerdict {
    /// The session connected but no live PCM was sent.
    NothingSent,
    /// Live PCM went out with no queue drops.
    Clean,
    /// Live PCM went out, with queue drops.
    WithDrops,
}

pub fn stream_verdict(sent_chunks: u64, dropped_chunks: u64) -> (v: StreamVerdict)
    ensures
        v == (if sent_chunks == 0 {
            StreamVerdict::NothingSent
        } else if dropped_chunks == 0 {
            StreamVerdict::Clean
        } else {
            StreamVerdict::WithDrops
        }),
{
    if sent_chunks == 0 {
        StreamVerdict::NothingSent
    } else if dropped_chunks == 0 {
        StreamVerdict::Clean
    } else {
        StreamVerdict::WithDrops
    }
}

/// Counts of a stream test: blocks primed before RTP starts, then blocks
/// sent and dropped while live. Counts saturate at `u64::MAX`.
#[derive(Debug, Clone, Copy, PartialEq, Eq, Structural)]
pub struct StreamTestCounts {
    pub prebuffered: u64,
    pub sent: u64,
    pub dropped: u64,
}

pub open spec fn inc_sat(x: u64) -> u64 {
    if x == u64::MAX {
        x
    } else {
        (x + 1) as u64
    }
}

impl StreamTestCounts {
    pub fn new() -> (c: Self)
        ensures
            c == (StreamTestCounts { prebuffered: 0, sent: 0, dropped: 0 }),
    {
        StreamTestCounts { prebuffered: 0, sent: 0, dropped: 0 }
    }

    /// Whether priming still needs blocks: fewer than `TEST_PREBUFFER_CHUNKS` were accepted.
    pub fn priming(&self) -> (b: bool)
        ensures
            b == (self.prebuffered < TEST_PREBUFFER_CHUNKS),
    {
        self.prebuffered < TEST_PREBUFFER_CHUNKS
    }

    /// A block was offered while priming; only an accepted one counts.
    pub fn prebuffer_offered(&mut self, accepted: bool)
        ensures
            *final(self) == (if accepted {
                StreamTestCounts { prebuffered: inc_sat(old(self).prebuffered), ..*old(self) }
            } else {
                *old(self)
            }),
    {
        if accepted && self.prebuffered < u64::MAX {
            self.prebuffered = self.prebuffered + 1;
        }
    }

    /// A block was offered while live: it is counted as sent or as dropped.
    pub fn live_offered(&mut self, accepted: bool)
        ensures
            *final(self) == (if accepted {
                StreamTestCounts { sent: inc_sat(old(self).sent), ..*old(self) }
            } else {
                StreamTestCounts { dropped: inc_sat(old(self).dropped), ..*old(self) }
            }),
    {
        if accepted {
            if self.sent < u64::MAX {
                self.sent = self.sent + 1;
            }
        } else if self.dropped < u64::MAX {
            self.dropped = self.dropped + 1;
        }
    }
}

proof fn lemma_audio_indices_are_audio(devs: Seq<TargetDevice>, n: int)
    requires
        0 <= n <= devs.len(),
    ensures
        forall|q: int|
            0 <= q < audio_indices(devs, n).len() ==> 0 <= #[trigger] audio_indices(devs, n)[q] < n
                && devs[audio_indices(devs, n)[q]].supports_audio,
        audio_indices(devs, n).len() <= n,
    decreases n,
{
    if n > 0 {
        lemma_audio_indices_are_audio(devs, n - 1);
    }
}

proof fn lemma_homepod_indices_are_audio(devs: Seq<TargetDevice>, n: int)
    requires
        0 <= n <= devs.len(),
    ensures
        forall|q: int|
            0 <= q < audio_homepod_indices(devs, n).len() ==> 0 <= #[trigger] audio_homepod_indices(
                devs,
                n,
            )[q] < n && devs[audio_homepod_indices(devs, n)[q]].supports_audio,
    decreases n,
{
    if n > 0 {
        lemma_homepod_indices_are_audio(devs, n - 1);
    }
}

proof fn lemma_first_session_match_is_audio(devs: Seq<TargetDevice>, s: Seq<char>, i: int)
    requires
        0 <= i,
    ensures
        first_session_match(devs, s, i) matches Some(j) ==> i <= j < devs.len()
            && devs[j].supports_audio,
    decreases devs.len() - i,
{
    if i < devs.len() && !(devs[i].supports_audio && matches_session_selector(devs[i], s)) {
        lemma_first_session_match_is_audio(devs, s, i + 1);
    }
}

/// The receiver chosen for a test is always an audio receiver; without a
/// selector, a single audio receiver is chosen whatever it is, and the
/// choice is ambiguous only when there are at least two audio receivers.
pub proof fn law_test_selection(devs: Seq<TargetDevice>, selector: Option<Seq<char>>)
    ensures
        spec_select_audio_device(devs, selector) matches Ok(i) ==> 0 <= i < devs.len()
            && devs[i].supports_audio,
        audio_indices(devs, devs.len() as int).len() == 1 ==> spec_select_audio_device(devs, None)
            == Ok::<int, SelectError>(audio_indices(devs, devs.len() as int)[0]),
        spec_select_audio_device(devs, selector) == Err::<int, SelectError>(SelectError::Ambiguous)
            ==> selector is None && audio_indices(devs, devs.len() as int).len() >= 2,
        spec_select_audio_device(devs, selector) == Err::<int, SelectError>(
            SelectError::NoAudioReceivers,
        ) <==> forall|j: int| 0 <= j < devs.len() ==> !(#[trigger] devs[j]).supports_audio,
{
    let n = devs.len() as int;
    lemma_audio_indices_are_audio(devs, n);
    lemma_homepod_indices_are_audio(devs, n);
    lemma_all_silent_iff_no_audio(devs, n);
    if let Some(s) = selector {
        lemma_first_session_match_is_audio(devs, s, 0);
    }
    if audio_indices(devs, n).len() == 1 {
        assert(0 <= audio_indices(devs, n)[0] < n);
    }
    if audio_homepod_indices(devs, n).len() == 1 {
        assert(0 <= audio_homepod_indices(devs, n)[0] < n);
    }
}

proof fn lemma_all_silent_iff_no_audio(devs: Seq<TargetDevice>, n: int)
    requires
        0 <= n <= devs.len(),
    ensures
        audio_indices(devs, n).len() == 0 <==> forall|j: int| 0 <= j < n ==> !(#[trigger] devs[j]).supports_audio,
    decreases n,
{
    if n > 0 {
        lemma_all_silent_iff_no_audio(devs, n - 1);
    }
}

} // verus!
