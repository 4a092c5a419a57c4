//! Decisions of the live Windows-audio to AirPlay stream: timing route,
//! capture-format checks, startup priming, silence pacing, RTP stall
//! detection and control-plane health.
use crate::airplay::targets::TargetDevice;
use crate::capture::AudioFormat;
use crate::text::{ascii_lowercase, chars_of, starts_with, to_ascii_lowercase};
use vstd::prelude::*;

verus! {

/// At most this many synthetic PCM blocks may wait in the live queue.
pub const MAX_SYNTHETIC_QUEUE_CHUNKS: usize = 4;

#[derive(Debug, Clone, Copy, PartialEq, Eq, Structural)]
pub enum LiveStreamMode {
    Single,
    MultiroomExperimental,
}

/// Totals reported when a live stream ends.
#[derive(Debug)]
pub struct LiveStreamResult {
    pub target_names: Vec<String>,
    pub captured_chunks: u64,
    pub silence_chunks: u64,
    pub late_polls: u64,
    pub silence_transitions: u64,
    pub dropped_chunks: u64,
    pub capture_restarts: u64,
    pub elapsed: std::time::Duration,
}

impl Clone for LiveStreamResult {
    fn clone(&self) -> (r: Self)
        ensures
            r.captured_chunks == self.captured_chunks,
            r.silence_chunks == self.silence_chunks,
            r.late_polls == self.late_polls,
            r.silence_transitions == self.silence_transitions,
            r.dropped_chunks == self.dropped_chunks,
            r.capture_restarts == self.capture_restarts,
            r.elapsed == self.elapsed,
            r.target_names@ == self.target_names@,
    {
        let target_names = self.target_names.clone();
        proof {
            assert forall|i: int| 0 <= i < target_names@.len() implies target_names@[i]
                == self.target_names@[i] by {
                assert(cloned::<String>(self.target_names[i], target_names[i]));
            }
            assert(target_names@ =~= self.target_names@);
        }
        LiveStreamResult {
            target_names,
            captured_chunks: self.captured_chunks,
            silence_chunks: self.silence_chunks,
            late_polls: self.late_polls,
            silence_transitions: self.silence_transitions,
            dropped_chunks: self.dropped_chunks,
            capture_restarts: self.capture_restarts,
            elapsed: self.elapsed,
        }
    }
}

// ---------------------------------------------------------------------------
// Receiver OS version and timing route
// ---------------------------------------------------------------------------

pub open spec fn is_digit(c: char) -> bool {
    '0' <= c && c <= '9'
}

/// Index of the first digit at or after `i`.
pub open spec fn first_digit_from(s: Seq<char>, i: int) -> int
    decreases s.len() - i,
{
    if i >= s.len() || is_digit(s[i]) {
        i
    } else {
        first_digit_from(s, i + 1)
    }
}

/// End of the run of digits that starts at `i`.
pub open spec fn digit_run_end(s: Seq<char>, i: int) -> int
    decreases s.len() - i,
{
    if i >= s.len() || !is_digit(s[i]) {
        i
    } else {
        digit_run_end(s, i + 1)
    }
}

/// The decimal value of the digits `s[from..to]`.
pub open spec fn digits_value(s: Seq<char>, from: int, to: int) -> int
    decreases to - from,
{
    if to <= from {
        0
    } else {
        digits_value(s, from, to - 1) * 10 + (s[to - 1] as int - '0' as int)
    }
}

/// The major number of an OS version string: the first run of ASCII
/// digits, read as a `u32`; none when there is no digit or it overflows.
pub open spec fn spec_os_major(version: Option<Seq<char>>) -> Option<u32> {
    match version {
        None => None,
        Some(s) => {
            let start = first_digit_from(s, 0);
            if start >= s.len() {
                None
            } else {
                let v = digits_value(s, start, digit_run_end(s, start));
                if v <= u32::MAX {
                    Some(v as u32)
                } else {
                    None
                }
            }
        },
    }
}

proof fn lemma_digit_run_bounds(s: Seq<char>, i: int)
    requires
        0 <= i <= s.len(),
    ensures
        i <= digit_run_end(s, i) <= s.len(),
        forall|j: int| i <= j < digit_run_end(s, i) ==> is_digit(#[trigger] s[j]),
        digit_run_end(s, i) < s.len() ==> !is_digit(s[digit_run_end(s, i)]),
    decreases s.len() - i,
{
    if i < s.len() && is_digit(s[i]) {
        lemma_digit_run_bounds(s, i + 1);
    }
}

proof fn lemma_digits_value_monotone(s: Seq<char>, from: int, to: int)
    requires
        from <= to,
        forall|j: int| from <= j < to ==> is_digit(#[trigger] s[j]),
    ensures
        digits_value(s, from, to) >= 0,
        to < s.len() && is_digit(s[to]) ==> digits_value(s, from, to + 1) >= digits_value(
            s,
            from,
            to,
        ) * 10,
    decreases to - from,
{
    if to > from {
        lemma_digits_value_monotone(s, from, to - 1);
    }
}

proof fn lemma_first_digit_skip(s: Seq<char>, i: int, j: int)
    requires
        0 <= i <= j <= s.len(),
        forall|t: int| i <= t < j ==> !is_digit(#[trigger] s[t]),
    ensures
        first_digit_from(s, i) == first_digit_from(s, j),
    decreases j - i,
{
    if i < j {
        lemma_first_digit_skip(s, i + 1, j);
    }
}

proof fn lemma_digit_run_skip(s: Seq<char>, i: int, j: int)
    requires
        0 <= i <= j <= s.len(),
        forall|t: int| i <= t < j ==> is_digit(#[trigger] s[t]),
    ensures
        digit_run_end(s, i) == digit_run_end(s, j),
    decreases j - i,
{
    if i < j {
        lemma_digit_run_skip(s, i + 1, j);
    }
}

/// The major number of a receiver's OS version, such as 27 for "27.1".
pub fn os_major(version: Option<&str>) -> (r: Option<u32>)
    ensures
        r == spec_os_major(match version {
            Some(v) => Some(v@),
            None => None,
        }),
{
    let v = match version {
        Some(v) => v,
        None => return None,
    };
    let s = chars_of(v);
    let ghost sv = s@;
    let n = s.len();
    let mut i: usize = 0;
    while i < n && !('0' <= s[i] && s[i] <= '9')
        invariant
            n == sv.len(),
            sv == s@,
            i <= n,
            forall|t: int| 0 <= t < i ==> !is_digit(#[trigger] sv[t]),
        decreases n - i,
    {
        i = i + 1;
    }
    proof {
        lemma_first_digit_skip(sv, 0, i as int);
    }
    if i == n {
        return None;
    }
    let start = i;
    proof {
        assert(first_digit_from(sv, start as int) == start as int);
        assert(first_digit_from(sv, 0) == start as int);
    }
    let mut value: u32 = 0;
    while i < n && '0' <= s[i] && s[i] <= '9'
        invariant
            n == sv.len(),
            sv == s@,
            start <= i <= n,
            start < n,
            first_digit_from(sv, 0) == start as int,
            match version {
                Some(x) => x@ == sv,
                None => false,
            },
            forall|t: int| start <= t < i ==> is_digit(#[trigger] sv[t]),
            value == digits_value(sv, start as int, i as int),
        decreases n - i,
    {
        let d = (s[i] as u32) - ('0' as u32);
        proof {
            lemma_digits_value_monotone(sv, start as int, i as int);
        }
        if value > 429_496_729 || (value == 429_496_729 && d > 5) {
            proof {
                lemma_digit_run_bounds(sv, start as int);
                lemma_digit_run_skip(sv, start as int, i as int);
                assert(is_digit(sv[i as int]));
                assert(digit_run_end(sv, i as int) == digit_run_end(sv, i + 1));
                lemma_digit_run_bounds(sv, i + 1);
                let end = digit_run_end(sv, start as int);
                assert(i + 1 <= end);
                lemma_digits_value_prefix_bound(sv, start as int, i as int + 1, end);
                assert(digits_value(sv, start as int, i + 1) == value * 10 + d);
                assert(value * 10 + d > 4294967295);
            }
            return None;
        }
        value = value * 10 + d;
        i = i + 1;
    }
    proof {
        lemma_digit_run_skip(sv, start as int, i as int);
        lemma_digit_run_bounds(sv, i as int);
    }
    Some(value)
}

proof fn lemma_digits_value_prefix_bound(s: Seq<char>, from: int, mid: int, to: int)
    requires
        from <= mid <= to,
        forall|j: int| from <= j < to ==> is_digit(#[trigger] s[j]),
    ensures
        digits_value(s, from, to) >= digits_value(s, from, mid),
    decreases to - mid,
{
    if mid < to {
        lemma_digits_value_prefix_bound(s, from, mid, to - 1);
        lemma_digits_value_monotone(s, from, to - 1);
    }
}

/// Whether a live stream follows the receiver's PTP clock instead of being
/// the grandmaster: a standalone HomePod leader on OS 27 or newer.
pub open spec fn spec_follows_receiver_clock(d: TargetDevice) -> bool {
    &&& "audioaccessory"@.is_prefix_of(ascii_lowercase(d.model@))
    &&& match spec_os_major(match d.os_version {
        Some(v) => Some(v@),
        None => None,
    }) {
        Some(major) => major >= 27,
        None => false,
    }
    &&& d.is_group_leader
    &&& d.parent_group_id is None
    &&& d.tight_sync_id is None
}

pub fn should_follow_receiver_clock(device: &TargetDevice) -> (b: bool)
    ensures
        b == spec_follows_receiver_clock(*device),
{
    let model = chars_of(device.model.as_str());
    let lower = to_ascii_lowercase(&model);
    let prefix = chars_of("audioaccessory");
    let is_homepod = starts_with(&lower, &prefix);
    let version = match &device.os_version {
        Some(v) => Some(v.as_str()),
        None => None,
    };
    let os27_or_newer = match os_major(version) {
        Some(major) => major >= 27,
        None => false,
    };
    is_homepod && os27_or_newer && device.is_group_leader && device.parent_group_id.is_none()
        && device.tight_sync_id.is_none()
}

/// Who owns the PTP timeline of a single-speaker stream.
#[derive(Debug, Clone, Copy, PartialEq, Eq, Structural)]
pub enum PtpRole {
    FollowReceiver,
    SenderGrandmaster,
}

/// A receiver latency window, in samples.
#[derive(Debug, Clone, Copy, PartialEq, Eq, Structural)]
pub struct LatencyWindow {
    pub min_samples: u32,
    pub max_samples: u32,
}

/// Stream settings decided before connecting.
#[derive(Debug, Clone, Copy, PartialEq, Eq, Structural)]
pub struct StreamPlan {
    /// The receiver latency window asked for, in samples, if any.
    pub latency_window: Option<LatencyWindow>,
    /// The PTP role, decided for single-speaker streams only.
    pub ptp_role: Option<PtpRole>,
    /// How long connecting may take, in seconds.
    pub connect_timeout_secs: u64,
}

/// The video profile (no render delay) asks for the low-latency window of
/// about 70 to 250 ms; a single speaker follows or leads the PTP clock as
/// `spec_follows_receiver_clock` says; groups get longer to connect.
pub open spec fn spec_plan_stream(render_delay_ms: u32, mode: LiveStreamMode, first: TargetDevice) -> StreamPlan {
    StreamPlan {
        latency_window: if render_delay_ms == 0 {
            Some(LatencyWindow { min_samples: 3087, max_samples: 11025 })
        } else {
            None
        },
        ptp_role: match mode {
            LiveStreamMode::Single => if spec_follows_receiver_clock(first) {
                Some(PtpRole::FollowReceiver)
            } else {
                Some(PtpRole::SenderGrandmaster)
            },
            LiveStreamMode::MultiroomExperimental => None,
        },
        connect_timeout_secs: match mode {
            LiveStreamMode::Single => 20,
            LiveStreamMode::MultiroomExperimental => 45,
        },
    }
}

pub fn plan_stream(render_delay_ms: u32, mode: LiveStreamMode, first: &TargetDevice) -> (p: StreamPlan)
    ensures
        p == spec_plan_stream(render_delay_ms, mode, *first),
{
    let latency_window = if render_delay_ms == 0 {
        Some(LatencyWindow { min_samples: 3087, max_samples: 11025 })
    } else {
        None
    };
    let (ptp_role, connect_timeout_secs) = match mode {
        LiveStreamMode::Single => {
            if should_follow_receiver_clock(first) {
                (Some(PtpRole::FollowReceiver), 20)
            } else {
                (Some(PtpRole::SenderGrandmaster), 20)
            }
        },
        LiveStreamMode::MultiroomExperimental => (None, 45),
    };
    StreamPlan { latency_window, ptp_role, connect_timeout_secs }
}

// ---------------------------------------------------------------------------
// Capture format, stream configuration and startup priming
// ---------------------------------------------------------------------------

/// Why a capture format cannot feed the stream.
#[derive(Debug, Clone, Copy, PartialEq, Eq, Structural)]
pub enum CaptureFormatError {
    /// The capture is not normalized to stereo 16-bit PCM.
    UnexpectedFormat { sample_rate: u32, channels: u16, bits_per_sample: u16 },
    /// The endpoint's mix rate changed during playback.
    RateChanged { expected: u32, actual: u32 },
}

pub open spec fn spec_validate_capture_format(format: AudioFormat, expected_rate: Option<u32>) -> Result<
    (),
    CaptureFormatError,
> {
    if format.channels != 2 || format.bits_per_sample != 16 {
        Err(
            CaptureFormatError::UnexpectedFormat {
                sample_rate: format.sample_rate,
                channels: format.channels,
                bits_per_sample: format.bits_per_sample,
            },
        )
    } else if expected_rate is Some && format.sample_rate != expected_rate->0 {
        Err(CaptureFormatError::RateChanged { expected: expected_rate->0, actual: format.sample_rate })
    } else {
        Ok(())
    }
}

/// Checks that the capture delivers stereo 16-bit PCM and, when a rate is
/// expected (after a capture restart), that the rate did not change.
pub fn validate_capture_format(format: &AudioFormat, expected_rate: Option<u32>) -> (r: Result<
    (),
    CaptureFormatError,
>)
    ensures
        r == spec_validate_capture_format(*format, expected_rate),
{
    if format.channels != 2 || format.bits_per_sample != 16 {
        return Err(
            CaptureFormatError::UnexpectedFormat {
                sample_rate: format.sample_rate,
                channels: format.channels,
                bits_per_sample: format.bits_per_sample,
            },
        );
    }
    if let Some(rate) = expected_rate {
        if format.sample_rate != rate {
            return Err(CaptureFormatError::RateChanged { expected: rate, actual: format.sample_rate });
        }
    }
    Ok(())
}

/// Source audio that is primed before RTP starts, in milliseconds.
pub const STARTUP_PRIME_MS: u64 = 450;

/// Length of the fades at silence transitions, in milliseconds.
pub const TRANSITION_MS: u32 = 2;

/// Number of source blocks that hold at least `STARTUP_PRIME_MS` of audio.
pub open spec fn spec_startup_prime_chunks(source_rate: u32, block_frames: usize) -> int {
    ((source_rate as int * 450) / 1000 + block_frames - 1) / (block_frames as int)
}

pub fn startup_prime_chunks(source_rate: u32, block_frames: usize) -> (n: u64)
    requires
        block_frames > 0,
        (source_rate as int * 450) / 1000 + block_frames <= u64::MAX,
    ensures
        n == spec_startup_prime_chunks(source_rate, block_frames),
{
    let frames = (source_rate as u64 * STARTUP_PRIME_MS) / 1000;
    (frames + block_frames as u64 - 1) / block_frames as u64
}

/// Frames of a fade at silence transitions: `TRANSITION_MS` of source audio, at least one.
pub open spec fn spec_transition_frames(source_rate: u32) -> int {
    let f = (source_rate as int * 2) / 1000;
    if f < 1 {
        1
    } else {
        f
    }
}

pub fn transition_frames(source_rate: u32) -> (n: usize)
    ensures
        n == spec_transition_frames(source_rate),
{
    let ms: u64 = TRANSITION_MS as u64;
    assert(ms == 2);
    let f = (source_rate as u64 * ms) / 1000;
    assert(f <= 8589935);
    if f < 1 {
        1
    } else {
        f as usize
    }
}

/// Live blocks that may wait between the producer and the streamer.
pub const LIVE_QUEUE_CHUNKS: usize = 32;

/// Attempts to reopen the capture after it failed mid-stream.
pub const CAPTURE_RESTART_ATTEMPTS: usize = 6;

/// How long one poll of the capture waits, in milliseconds: briefly while
/// silent, so that synthetic silence keeps its cadence, and longer than one
/// source block while real audio flows.
pub fn poll_window_ms(in_silence: bool) -> (ms: u64)
    ensures
        ms == (if in_silence {
            8u64
        } else {
            35u64
        }),
{
    if in_silence {
        8
    } else {
        35
    }
}

/// The pause after the `attempt`-th failed capture reopen (counting from
/// one), in milliseconds: 250 ms per attempt, at most one second.
pub fn capture_retry_delay_ms(attempt: usize) -> (ms: u64)
    ensures
        ms == 250 * (if attempt < 4 {
            attempt as int
        } else {
            4
        }),
{
    let n: u64 = if attempt < 4 {
        attempt as u64
    } else {
        4
    };
    250 * n
}

// ---------------------------------------------------------------------------
// PCM producer: real audio, grace window and paced synthetic silence
// ---------------------------------------------------------------------------

/// A chunk whose peak exceeds this is counted as signal.
pub const SIGNAL_PEAK_THRESHOLD: u16 = 32;

/// Packets that must leave after the first signal before it counts as confirmed.
pub const SIGNAL_CONFIRM_PACKETS: u64 = 120;

/// How long real audio may be missing before the stream fades to silence.
pub const SILENCE_GRACE_NS: u64 = 350_000_000;

/// What the producer does when a poll of the capture returned nothing.
#[derive(Debug, Clone, Copy, PartialEq, Eq, Structural)]
pub enum SilenceAction {
    /// Nothing to send now.
    Wait,
    /// Send one block that ramps the last real samples down to zero.
    RampToSilence,
    /// Send one block of silence to keep the RTP timeline fed.
    Silence,
}

/// Decision state of the PCM producer. Times are nanoseconds since the
/// stream started; counters saturate at `u64::MAX`.
#[derive(Debug, Clone, Copy, PartialEq, Eq, Structural)]
pub struct LiveProducer {
    pub in_silence: bool,
    pub last_real_at_ns: Option<u64>,
    pub next_silence_at_ns: u64,
    pub silence_period_ns: u64,
    pub startup_chunks: u64,
    pub captured_chunks: u64,
    pub signal_chunks: u64,
    pub signal_peak: u16,
    pub silence_chunks: u64,
    pub late_polls: u64,
    pub silence_transitions: u64,
    pub dropped_chunks: u64,
    pub capture_restarts: u64,
    pub first_signal_baseline: Option<u64>,
    pub signal_confirmed: bool,
}

pub open spec fn inc(x: u64) -> u64 {
    if x == u64::MAX {
        x
    } else {
        (x + 1) as u64
    }
}

pub open spec fn add_sat(a: u64, b: u64) -> u64 {
    if a + b > u64::MAX {
        u64::MAX
    } else {
        (a + b) as u64
    }
}

pub open spec fn max_u16(a: u16, b: u16) -> u16 {
    if a >= b {
        a
    } else {
        b
    }
}

/// The producer before any audio: silent, with nothing counted.
pub open spec fn spec_new_producer(period_ns: u64, now_ns: u64) -> LiveProducer {
    LiveProducer {
        in_silence: true,
        last_real_at_ns: None,
        next_silence_at_ns: now_ns,
        silence_period_ns: period_ns,
        startup_chunks: 0,
        captured_chunks: 0,
        signal_chunks: 0,
        signal_peak: 0,
        silence_chunks: 0,
        late_polls: 0,
        silence_transitions: 0,
        dropped_chunks: 0,
        capture_restarts: 0,
        first_signal_baseline: None,
        signal_confirmed: false,
    }
}

/// A real chunk arrived: the first one after silence is faded in.
pub open spec fn spec_chunk_arrived(p: LiveProducer) -> (LiveProducer, bool) {
    if p.in_silence {
        (LiveProducer { in_silence: false, silence_transitions: inc(p.silence_transitions), ..p }, true)
    } else {
        (p, false)
    }
}

/// Counts a chunk's peak as signal when it exceeds the threshold.
pub open spec fn count_signal(p: LiveProducer, peak: u16) -> LiveProducer {
    if peak > 32 {
        LiveProducer { signal_chunks: inc(p.signal_chunks), signal_peak: max_u16(p.signal_peak, peak), ..p }
    } else {
        p
    }
}

/// While priming: a real chunk was handed to the stream (or refused).
pub open spec fn spec_prime_chunk_sent(p: LiveProducer, sent: bool, peak: u16, now_ns: u64) -> LiveProducer {
    if sent {
        count_signal(
            LiveProducer {
                startup_chunks: inc(p.startup_chunks),
                captured_chunks: inc(p.captured_chunks),
                last_real_at_ns: Some(now_ns),
                next_silence_at_ns: add_sat(now_ns, p.silence_period_ns),
                ..p
            },
            peak,
        )
    } else {
        p
    }
}

/// While priming, an empty poll sends silence once the source-time deadline passed.
pub open spec fn spec_prime_wants_silence(p: LiveProducer, now_ns: u64) -> bool {
    now_ns >= p.next_silence_at_ns
}

/// While priming: a silence block was offered (and sent or refused); the
/// next one is due one source block later.
pub open spec fn spec_prime_silence_sent(p: LiveProducer, sent: bool, now_ns: u64) -> LiveProducer {
    let q = LiveProducer { next_silence_at_ns: add_sat(now_ns, p.silence_period_ns), ..p };
    if sent {
        LiveProducer {
            startup_chunks: inc(p.startup_chunks),
            silence_chunks: inc(p.silence_chunks),
            in_silence: true,
            silence_transitions: if p.in_silence {
                p.silence_transitions
            } else {
                inc(p.silence_transitions)
            },
            ..q
        }
    } else {
        q
    }
}

/// RTP started: a signal already primed counts from packet zero.
pub open spec fn spec_start_live(p: LiveProducer, now_ns: u64) -> LiveProducer {
    LiveProducer {
        first_signal_baseline: if p.signal_chunks > 0 {
            Some(0)
        } else {
            None
        },
        signal_confirmed: false,
        next_silence_at_ns: add_sat(now_ns, p.silence_period_ns),
        ..p
    }
}

/// Live: a real chunk was handed to the stream, or dropped because the queue was full.
/// The flag asks for the packet count to become the signal baseline.
pub open spec fn spec_live_chunk_sent(p: LiveProducer, sent: bool, peak: u16, now_ns: u64) -> (
    LiveProducer,
    bool,
) {
    if sent {
        let q = count_signal(
            LiveProducer { captured_chunks: inc(p.captured_chunks), last_real_at_ns: Some(now_ns), ..p },
            peak,
        );
        (q, peak > 32 && p.first_signal_baseline is None)
    } else {
        (LiveProducer { dropped_chunks: inc(p.dropped_chunks), ..p }, false)
    }
}

/// Whether the grace window after the last real chunk has passed.
pub open spec fn grace_elapsed(p: LiveProducer, now_ns: u64) -> bool {
    match p.last_real_at_ns {
        Some(t) => now_ns >= t && now_ns - t >= 350_000_000,
        None => false,
    }
}

/// Live: a poll returned no audio.
pub open spec fn spec_live_poll_timeout(p: LiveProducer, now_ns: u64, queued: usize) -> (
    LiveProducer,
    SilenceAction,
) {
    let q = LiveProducer { late_polls: inc(p.late_polls), ..p };
    if !p.in_silence {
        if grace_elapsed(p, now_ns) && queued < 4 {
            (q, SilenceAction::RampToSilence)
        } else {
            (q, SilenceAction::Wait)
        }
    } else if now_ns >= p.next_silence_at_ns {
        let r = LiveProducer { next_silence_at_ns: add_sat(now_ns, p.silence_period_ns), ..q };
        if queued < 4 {
            (r, SilenceAction::Silence)
        } else {
            (r, SilenceAction::Wait)
        }
    } else {
        (q, SilenceAction::Wait)
    }
}

/// Live: the ramp block was offered; when it went out the stream is silent.
pub open spec fn spec_ramp_sent(p: LiveProducer, sent: bool, now_ns: u64) -> LiveProducer {
    if sent {
        LiveProducer {
            silence_chunks: inc(p.silence_chunks),
            silence_transitions: inc(p.silence_transitions),
            in_silence: true,
            next_silence_at_ns: add_sat(now_ns, p.silence_period_ns),
            ..p
        }
    } else {
        p
    }
}

/// Live: a silence block was offered.
pub open spec fn spec_silence_sent(p: LiveProducer, sent: bool) -> LiveProducer {
    if sent {
        LiveProducer { silence_chunks: inc(p.silence_chunks), ..p }
    } else {
        p
    }
}

/// The capture was reopened: the stream goes on from silence.
pub open spec fn spec_capture_restarted(p: LiveProducer, now_ns: u64) -> LiveProducer {
    LiveProducer {
        capture_restarts: inc(p.capture_restarts),
        in_silence: true,
        last_real_at_ns: None,
        next_silence_at_ns: add_sat(now_ns, p.silence_period_ns),
        ..p
    }
}

/// Whether the first signal has cleared the startup prebuffer: enough
/// packets left after the baseline.
pub open spec fn spec_check_signal(p: LiveProducer, packets_sent: u64) -> LiveProducer {
    if !p.signal_confirmed && p.first_signal_baseline is Some && packets_sent
        >= p.first_signal_baseline->0 && packets_sent - p.first_signal_baseline->0 >= 120 {
        LiveProducer { signal_confirmed: true, ..p }
    } else {
        p
    }
}

fn inc_exec(x: u64) -> (r: u64)
    ensures
        r == inc(x),
{
    if x == u64::MAX {
        x
    } else {
        x + 1
    }
}

fn add_sat_exec(a: u64, b: u64) -> (r: u64)
    ensures
        r == add_sat(a, b),
{
    a.saturating_add(b)
}

impl LiveProducer {
    pub fn new(silence_period_ns: u64, now_ns: u64) -> (p: Self)
        ensures
            p == spec_new_producer(silence_period_ns, now_ns),
    {
        LiveProducer {
            in_silence: true,
            last_real_at_ns: None,
            next_silence_at_ns: now_ns,
            silence_period_ns,
            startup_chunks: 0,
            captured_chunks: 0,
            signal_chunks: 0,
            signal_peak: 0,
            silence_chunks: 0,
            late_polls: 0,
            silence_transitions: 0,
            dropped_chunks: 0,
            capture_restarts: 0,
            first_signal_baseline: None,
            signal_confirmed: false,
        }
    }

    /// Whether priming still needs chunks.
    pub fn priming(&self, prime_chunks: u64) -> (b: bool)
        ensures
            b == (self.startup_chunks < prime_chunks),
    {
        self.startup_chunks < prime_chunks
    }

    /// A real chunk arrived; returns whether it must be faded in from zero.
    pub fn chunk_arrived(&mut self) -> (fade_in: bool)
        ensures
            (*final(self), fade_in) == spec_chunk_arrived(*old(self)),
    {
        if self.in_silence {
            self.in_silence = false;
            self.silence_transitions = inc_exec(self.silence_transitions);
            true
        } else {
            false
        }
    }

    fn count_signal_exec(&mut self, peak: u16)
        ensures
            *final(self) == count_signal(*old(self), peak),
    {
        if peak > SIGNAL_PEAK_THRESHOLD {
            self.signal_chunks = inc_exec(self.signal_chunks);
            if peak > self.signal_peak {
                self.signal_peak = peak;
            }
        }
    }

    pub fn prime_chunk_sent(&mut self, sent: bool, peak: u16, now_ns: u64)
        ensures
            *final(self) == spec_prime_chunk_sent(*old(self), sent, peak, now_ns),
    {
        if sent {
            self.startup_chunks = inc_exec(self.startup_chunks);
            self.captured_chunks = inc_exec(self.captured_chunks);
            self.last_real_at_ns = Some(now_ns);
            self.next_silence_at_ns = add_sat_exec(now_ns, self.silence_period_ns);
            self.count_signal_exec(peak);
        }
    }

    pub fn prime_wants_silence(&self, now_ns: u64) -> (b: bool)
        ensures
            b == spec_prime_wants_silence(*self, now_ns),
    {
        now_ns >= self.next_silence_at_ns
    }

    /// Returns whether the remembered last samples must be cleared.
    pub fn prime_silence_sent(&mut self, sent: bool, now_ns: u64) -> (clear_last: bool)
        ensures
            *final(self) == spec_prime_silence_sent(*old(self), sent, now_ns),
            clear_last == (sent && !old(self).in_silence),
    {
        let was_silent = self.in_silence;
        self.next_silence_at_ns = add_sat_exec(now_ns, self.silence_period_ns);
        if sent {
            self.startup_chunks = inc_exec(self.startup_chunks);
            self.silence_chunks = inc_exec(self.silence_chunks);
            if !was_silent {
                self.in_silence = true;
                self.silence_transitions = inc_exec(self.silence_transitions);
            }
            !was_silent
        } else {
            false
        }
    }

    pub fn start_live(&mut self, now_ns: u64)
        ensures
            *final(self) == spec_start_live(*old(self), now_ns),
    {
        self.first_signal_baseline = if self.signal_chunks > 0 {
            Some(0)
        } else {
            None
        };
        self.signal_confirmed = false;
        self.next_silence_at_ns = add_sat_exec(now_ns, self.silence_period_ns);
    }

    /// Returns whether the current packet count must become the signal baseline.
    pub fn live_chunk_sent(&mut self, sent: bool, peak: u16, now_ns: u64) -> (needs_baseline: bool)
        ensures
            (*final(self), needs_baseline) == spec_live_chunk_sent(*old(self), sent, peak, now_ns),
    {
        if sent {
            let first = peak > SIGNAL_PEAK_THRESHOLD && self.first_signal_baseline.is_none();
            self.captured_chunks = inc_exec(self.captured_chunks);
            self.last_real_at_ns = Some(now_ns);
            self.count_signal_exec(peak);
            first
        } else {
            self.dropped_chunks = inc_exec(self.dropped_chunks);
            false
        }
    }

    pub fn set_signal_baseline(&mut self, packets_sent: u64)
        ensures
            *final(self) == (LiveProducer { first_signal_baseline: Some(packets_sent), ..*old(self) }),
    {
        self.first_signal_baseline = Some(packets_sent);
    }

    pub fn live_poll_timeout(&mut self, now_ns: u64, queued: usize) -> (a: SilenceAction)
        ensures
            (*final(self), a) == spec_live_poll_timeout(*old(self), now_ns, queued),
    {
        let was_silent = self.in_silence;
        let grace = match self.last_real_at_ns {
            Some(t) => now_ns >= t && now_ns - t >= SILENCE_GRACE_NS,
            None => false,
        };
        self.late_polls = inc_exec(self.late_polls);
        if !was_silent {
            if grace && queued < MAX_SYNTHETIC_QUEUE_CHUNKS {
                SilenceAction::RampToSilence
            } else {
                SilenceAction::Wait
            }
        } else if now_ns >= self.next_silence_at_ns {
            self.next_silence_at_ns = add_sat_exec(now_ns, self.silence_period_ns);
            if queued < MAX_SYNTHETIC_QUEUE_CHUNKS {
                SilenceAction::Silence
            } else {
                SilenceAction::Wait
            }
        } else {
            SilenceAction::Wait
        }
    }

    pub fn ramp_sent(&mut self, sent: bool, now_ns: u64)
        ensures
            *final(self) == spec_ramp_sent(*old(self), sent, now_ns),
    {
        if sent {
            self.silence_chunks = inc_exec(self.silence_chunks);
            self.silence_transitions = inc_exec(self.silence_transitions);
            self.in_silence = true;
            self.next_silence_at_ns = add_sat_exec(now_ns, self.silence_period_ns);
        }
    }

    pub fn silence_sent(&mut self, sent: bool)
        ensures
            *final(self) == spec_silence_sent(*old(self), sent),
    {
        if sent {
            self.silence_chunks = inc_exec(self.silence_chunks);
        }
    }

    pub fn capture_restarted(&mut self, now_ns: u64)
        ensures
            *final(self) == spec_capture_restarted(*old(self), now_ns),
    {
        self.capture_restarts = inc_exec(self.capture_restarts);
        self.in_silence = true;
        self.last_real_at_ns = None;
        self.next_silence_at_ns = add_sat_exec(now_ns, self.silence_period_ns);
    }

    pub fn check_signal(&mut self, packets_sent: u64)
        ensures
            *final(self) == spec_check_signal(*old(self), packets_sent),
    {
        if !self.signal_confirmed {
            if let Some(baseline) = self.first_signal_baseline {
                if packets_sent >= baseline && packets_sent - baseline >= SIGNAL_CONFIRM_PACKETS {
                    self.signal_confirmed = true;
                }
            }
        }
    }
}

// ---------------------------------------------------------------------------
// RTP heartbeat and control-plane health
// ---------------------------------------------------------------------------

/// How long the RTP packet count may stand still before the stream is declared stalled.
pub const RTP_STALL_LIMIT_NS: u64 = 3_000_000_000;

/// Watches the RTP packet counter for progress.
#[derive(Debug, Clone, Copy, PartialEq, Eq, Structural)]
pub struct RtpHeartbeat {
    pub progress_seen: bool,
    pub last_observed: u64,
    pub last_progress_at_ns: u64,
}

/// One observation of the packet counter: the first packets start the
/// watch; more packets are progress; no progress for the stall limit (after
/// packets were seen) is a stall.
pub open spec fn spec_observe_packets(h: RtpHeartbeat, packets_sent: u64, now_ns: u64) -> (
    RtpHeartbeat,
    bool,
) {
    if !h.progress_seen {
        if packets_sent > 0 {
            (RtpHeartbeat { progress_seen: true, last_observed: packets_sent, last_progress_at_ns: now_ns }, false)
        } else {
            (h, false)
        }
    } else if packets_sent > h.last_observed {
        (RtpHeartbeat { progress_seen: true, last_observed: packets_sent, last_progress_at_ns: now_ns }, false)
    } else {
        (h, now_ns >= h.last_progress_at_ns && now_ns - h.last_progress_at_ns >= 3_000_000_000)
    }
}

impl RtpHeartbeat {
    pub fn new(now_ns: u64) -> (h: Self)
        ensures
            h == (RtpHeartbeat { progress_seen: false, last_observed: 0, last_progress_at_ns: now_ns }),
    {
        RtpHeartbeat { progress_seen: false, last_observed: 0, last_progress_at_ns: now_ns }
    }

    /// Records the packet count; returns whether the RTP clock has stalled.
    pub fn observe(&mut self, packets_sent: u64, now_ns: u64) -> (stalled: bool)
        ensures
            (*final(self), stalled) == spec_observe_packets(*old(self), packets_sent, now_ns),
    {
        if !self.progress_seen {
            if packets_sent > 0 {
                self.progress_seen = true;
                self.last_observed = packets_sent;
                self.last_progress_at_ns = now_ns;
            }
            false
        } else if packets_sent > self.last_observed {
            self.last_observed = packets_sent;
            self.last_progress_at_ns = now_ns;
            false
        } else {
            now_ns >= self.last_progress_at_ns && now_ns - self.last_progress_at_ns >= RTP_STALL_LIMIT_NS
        }
    }
}

/// Consecutive feedback misses after which control is reported degraded.
pub const FEEDBACK_DEGRADED_MISSES: u32 = 3;

/// How one feedback (keep-alive) request ended.
#[derive(Debug, Clone, Copy, PartialEq, Eq, Structural)]
pub enum FeedbackOutcome {
    /// The receiver answered.
    Answered,
    /// A timeout or an unexpected HTTP status: a miss, not a failure.
    Missed,
    /// A transport or framing failure of the control channel.
    Failed,
}

/// Health of the RTSP control plane as seen by the feedback task.
#[derive(Debug, Clone, Copy, PartialEq, Eq, Structural)]
pub struct FeedbackHealth {
    pub consecutive_misses: u32,
    pub degraded: bool,
    pub fatal: bool,
}

pub open spec fn spec_record_feedback(h: FeedbackHealth, outcome: FeedbackOutcome) -> FeedbackHealth {
    match outcome {
        FeedbackOutcome::Answered => FeedbackHealth { consecutive_misses: 0, degraded: false, ..h },
        FeedbackOutcome::Missed => {
            let m = if h.consecutive_misses == u32::MAX {
                h.consecutive_misses
            } else {
                (h.consecutive_misses + 1) as u32
            };
            FeedbackHealth { consecutive_misses: m, degraded: h.degraded || m >= 3, ..h }
        },
        FeedbackOutcome::Failed => FeedbackHealth { fatal: true, ..h },
    }
}

impl FeedbackHealth {
    pub fn new() -> (h: Self)
        ensures
            h == (FeedbackHealth { consecutive_misses: 0, degraded: false, fatal: false }),
    {
        FeedbackHealth { consecutive_misses: 0, degraded: false, fatal: false }
    }

    /// Records one feedback outcome; returns whether the feedback task must stop.
    pub fn record(&mut self, outcome: FeedbackOutcome) -> (stop: bool)
        ensures
            *final(self) == spec_record_feedback(*old(self), outcome),
            stop == (outcome == FeedbackOutcome::Failed),
    {
        match outcome {
            FeedbackOutcome::Answered => {
                self.consecutive_misses = 0;
                self.degraded = false;
                false
            },
            FeedbackOutcome::Missed => {
                if self.consecutive_misses < u32::MAX {
                    self.consecutive_misses = self.consecutive_misses + 1;
                }
                if self.consecutive_misses >= FEEDBACK_DEGRADED_MISSES {
                    self.degraded = true;
                }
                false
            },
            FeedbackOutcome::Failed => {
                self.fatal = true;
                true
            },
        }
    }
}

// ---------------------------------------------------------------------------
// Sample bookkeeping
// ---------------------------------------------------------------------------

/// The remembered last frame after a chunk: the chunk's last frame over the
/// first channels of `out`; nothing changes for an empty or short chunk.
pub open spec fn spec_remember_last(samples: Seq<i16>, channels: int, out: Seq<i16>) -> Seq<i16> {
    if channels == 0 || samples.len() < channels {
        out
    } else {
        Seq::new(
            out.len(),
            |c: int|
                if c < channels {
                    samples[samples.len() - channels + c]
                } else {
                    out[c]
                },
        )
    }
}

/// Remembers the last frame of a chunk, so that a later fade to silence
/// starts from it.
pub fn remember_last_samples(samples: &[i16], channels: usize, out: &mut Vec<i16>)
    ensures
        final(out)@ == spec_remember_last(samples@, channels as int, old(out)@),
{
    if channels == 0 || samples.len() < channels {
        return;
    }
    let start = samples.len() - channels;
    let n = if channels < out.len() {
        channels
    } else {
        out.len()
    };
    let ghost orig = out@;
    let mut ch: usize = 0;
    while ch < n
        invariant
            n <= channels,
            n <= out@.len(),
            n == channels || n == out@.len(),
            out@.len() == orig.len(),
            start == samples@.len() - channels,
            samples@.len() == samples.len(),
            ch <= n,
            forall|c: int| 0 <= c < ch ==> out@[c] == samples@[start + c],
            forall|c: int| ch <= c < out@.len() ==> out@[c] == orig[c],
        decreases n - ch,
    {
        out.set(ch, samples[start + ch]);
        ch = ch + 1;
    }
    proof {
        assert(out@ =~= spec_remember_last(samples@, channels as int, orig));
    }
}

// ---------------------------------------------------------------------------
// Laws
// ---------------------------------------------------------------------------

/// Synthetic audio never floods the live queue: a ramp or silence block is
/// only produced while fewer than `MAX_SYNTHETIC_QUEUE_CHUNKS` blocks wait.
pub proof fn law_synthetic_audio_is_bounded(p: LiveProducer, now_ns: u64, queued: usize)
    ensures
        spec_live_poll_timeout(p, now_ns, queued).1 != SilenceAction::Wait ==> queued < 4,
{
}

/// Short gaps in real audio are absorbed: within the grace window after the
/// last real chunk, no synthetic audio is produced.
pub proof fn law_no_silence_within_grace(p: LiveProducer, now_ns: u64, queued: usize)
    requires
        !p.in_silence,
        p.last_real_at_ns is Some,
        now_ns < p.last_real_at_ns->0 + 350_000_000,
    ensures
        spec_live_poll_timeout(p, now_ns, queued).1 == SilenceAction::Wait,
{
}

/// Silence is paced by source audio time: once a silence block is due and
/// offered at `t`, polls before `t + period` produce nothing, however often
/// they come, and the deadline does not move.
pub proof fn law_silence_is_paced(p: LiveProducer, t1: u64, q1: usize, sent: bool, t2: u64, q2: usize)
    requires
        p.in_silence,
        spec_live_poll_timeout(p, t1, q1).1 == SilenceAction::Silence,
        t1 + p.silence_period_ns <= u64::MAX,
        t2 < t1 + p.silence_period_ns,
    ensures
        ({
            let p1 = spec_silence_sent(spec_live_poll_timeout(p, t1, q1).0, sent);
            &&& p1.next_silence_at_ns == t1 + p.silence_period_ns
            &&& spec_live_poll_timeout(p1, t2, q2).1 == SilenceAction::Wait
            &&& spec_live_poll_timeout(p1, t2, q2).0.next_silence_at_ns == p1.next_silence_at_ns
        }),
{
}

/// The first real chunk after silence, and only that one, is faded in.
pub proof fn law_fade_in_after_silence(p: LiveProducer)
    ensures
        spec_chunk_arrived(p).1 == p.in_silence,
        !spec_chunk_arrived(p).0.in_silence,
        !spec_chunk_arrived(spec_chunk_arrived(p).0).1,
{
}

/// Starvation is not end of stream: an empty poll never changes anything
/// but the silence schedule and the poll count, whatever happens.
pub proof fn law_empty_poll_keeps_counts(p: LiveProducer, now_ns: u64, queued: usize)
    ensures
        ({
            let q = spec_live_poll_timeout(p, now_ns, queued).0;
            &&& q.captured_chunks == p.captured_chunks
            &&& q.silence_chunks == p.silence_chunks
            &&& q.in_silence == p.in_silence
            &&& q.last_real_at_ns == p.last_real_at_ns
            &&& q.late_polls == inc(p.late_polls)
        }),
{
}

/// One feedback miss is tolerated, three consecutive misses mark control as
/// degraded, misses never make it fatal, and an answer restores health.
pub proof fn law_feedback_health(h: FeedbackHealth)
    requires
        h.consecutive_misses == 0,
        !h.degraded,
    ensures
        !spec_record_feedback(h, FeedbackOutcome::Missed).degraded,
        !spec_record_feedback(spec_record_feedback(h, FeedbackOutcome::Missed), FeedbackOutcome::Missed).degraded,
        spec_record_feedback(
            spec_record_feedback(spec_record_feedback(h, FeedbackOutcome::Missed), FeedbackOutcome::Missed),
            FeedbackOutcome::Missed,
        ).degraded,
        spec_record_feedback(h, FeedbackOutcome::Missed).fatal == h.fatal,
        spec_record_feedback(h, FeedbackOutcome::Failed).fatal,
{
}

/// An answered feedback always clears the miss streak and degradation, and
/// a failure is terminal: it stays recorded whatever comes after.
pub proof fn law_feedback_recovery(h: FeedbackHealth, outcome: FeedbackOutcome)
    ensures
        spec_record_feedback(h, FeedbackOutcome::Answered).consecutive_misses == 0,
        !spec_record_feedback(h, FeedbackOutcome::Answered).degraded,
        h.fatal ==> spec_record_feedback(h, outcome).fatal,
        outcome != FeedbackOutcome::Failed ==> spec_record_feedback(h, outcome).fatal == h.fatal,
{
}

/// The RTP heartbeat never reports a stall before packets were seen, nor
/// while the packet count grows.
pub proof fn law_stall_needs_no_progress(h: RtpHeartbeat, packets_sent: u64, now_ns: u64)
    ensures
        !h.progress_seen ==> !spec_observe_packets(h, packets_sent, now_ns).1,
        packets_sent > h.last_observed ==> !spec_observe_packets(h, packets_sent, now_ns).1,
        spec_observe_packets(h, packets_sent, now_ns).1 ==> now_ns - h.last_progress_at_ns
            >= 3_000_000_000,
{
}

/// A capture restart does not end the stream: the counts and the signal
/// state are kept, and the stream goes on with silence one source block
/// later.
pub proof fn law_capture_restart_goes_on_with_silence(p: LiveProducer, now_ns: u64, queued: usize)
    requires
        now_ns + p.silence_period_ns <= u64::MAX,
        queued < 4,
    ensures
        ({
            let q = spec_capture_restarted(p, now_ns);
            &&& q.captured_chunks == p.captured_chunks
            &&& q.silence_chunks == p.silence_chunks
            &&& q.dropped_chunks == p.dropped_chunks
            &&& q.first_signal_baseline == p.first_signal_baseline
            &&& q.signal_confirmed == p.signal_confirmed
            &&& q.capture_restarts == inc(p.capture_restarts)
            &&& spec_live_poll_timeout(q, (now_ns + p.silence_period_ns) as u64, queued).1
                == SilenceAction::Silence
        }),
{
}

/// Only a standalone HomePod group leader on OS 27 or newer makes a
/// single-speaker stream follow its clock: a receiver in a parent group, in
/// a tight-sync pair, that is not a group leader, that is not a HomePod
/// (`AudioAccessory…` model) or whose OS is older or unknown leaves the
/// sender as PTP grandmaster. Multiroom streams take no single-speaker role.
pub proof fn law_clock_follows_only_standalone_new_homepods(d: TargetDevice, render_delay_ms: u32)
    ensures
        d.parent_group_id is Some ==> !spec_follows_receiver_clock(d),
        d.tight_sync_id is Some ==> !spec_follows_receiver_clock(d),
        !d.is_group_leader ==> !spec_follows_receiver_clock(d),
        d.os_version is None ==> !spec_follows_receiver_clock(d),
        spec_follows_receiver_clock(d) ==> ("audioaccessory"@.is_prefix_of(ascii_lowercase(d.model@))
            && (spec_os_major(Some(d.os_version->0@)) matches Some(major) && major >= 27)),
        spec_plan_stream(render_delay_ms, LiveStreamMode::Single, d).ptp_role == Some(
            if spec_follows_receiver_clock(d) {
                PtpRole::FollowReceiver
            } else {
                PtpRole::SenderGrandmaster
            },
        ),
        d.parent_group_id is Some ==> spec_plan_stream(
            render_delay_ms,
            LiveStreamMode::Single,
            d,
        ).ptp_role == Some(PtpRole::SenderGrandmaster),
        spec_plan_stream(render_delay_ms, LiveStreamMode::MultiroomExperimental, d).ptp_role is None,
{
}

proof fn lemma_digits_value_shift(s: Seq<char>, d: Seq<char>, off: int, to: int)
    requires
        0 <= off,
        0 <= to <= d.len(),
        off + d.len() <= s.len(),
        forall|j: int| 0 <= j < d.len() ==> s[off + j] == d[j],
    ensures
        digits_value(s, off, off + to) == digits_value(d, 0, to),
    decreases to,
{
    if to > 0 {
        lemma_digits_value_shift(s, d, off, to - 1);
        assert(s[off + to - 1] == d[to - 1]);
    }
}

/// The major version is the first run of digits, wherever it stands: text
/// without digits before it is skipped, and the run ends at the first
/// character that is not a digit. A version without any digit has none.
pub proof fn law_os_major_is_first_number(pre: Seq<char>, digits: Seq<char>, post: Seq<char>)
    requires
        forall|j: int| 0 <= j < pre.len() ==> !is_digit(#[trigger] pre[j]),
        digits.len() > 0,
        forall|j: int| 0 <= j < digits.len() ==> is_digit(#[trigger] digits[j]),
        post.len() == 0 || !is_digit(post[0]),
    ensures
        spec_os_major(Some(pre + digits + post)) == (if digits_value(digits, 0, digits.len() as int)
            <= u32::MAX {
            Some(digits_value(digits, 0, digits.len() as int) as u32)
        } else {
            None
        }),
        spec_os_major(Some(pre)) is None,
{
    let s = pre + digits + post;
    let a = pre.len() as int;
    let b = a + digits.len();
    assert forall|j: int| 0 <= j < a implies !is_digit(#[trigger] s[j]) by {
        assert(s[j] == pre[j]);
    }
    lemma_first_digit_skip(s, 0, a);
    assert(s[a] == digits[0]);
    assert forall|j: int| a <= j < b implies is_digit(#[trigger] s[j]) by {
        assert(s[j] == digits[j - a]);
    }
    lemma_digit_run_skip(s, a, b);
    if b < s.len() {
        assert(s[b] == post[0]);
    }
    assert(digit_run_end(s, b) == b);
    assert forall|j: int| 0 <= j < digits.len() implies s[a + j] == digits[j] by {}
    lemma_digits_value_shift(s, digits, a, digits.len() as int);
    lemma_first_digit_skip(pre, 0, pre.len() as int);
}

/// An accepted capture is stereo 16-bit, at the expected rate when one is
/// expected; any other format is refused.
pub proof fn law_capture_format_accepted(format: AudioFormat, expected_rate: Option<u32>)
    ensures
        spec_validate_capture_format(format, expected_rate) is Ok <==> format.channels == 2
            && format.bits_per_sample == 16 && (expected_rate matches Some(r) ==> format.sample_rate
            == r),
{
}

/// Priming holds at least `STARTUP_PRIME_MS` of source audio and less than
/// one block more: the fewest blocks that cover it.
pub proof fn law_prime_covers_startup_audio(source_rate: u32, block_frames: usize)
    requires
        block_frames > 0,
    ensures
        ({
            let frames = (source_rate as int * 450) / 1000;
            let n = spec_startup_prime_chunks(source_rate, block_frames);
            &&& n * block_frames >= frames
            &&& (n - 1) * block_frames < frames || n == 0
        }),
{
    let frames = (source_rate as int * 450) / 1000;
    let b = block_frames as int;
    let n = (frames + b - 1) / b;
    assert(n * b >= frames && ((n - 1) * b < frames || n == 0)) by (nonlinear_arith)
        requires
            b > 0,
            frames >= 0,
            n == (frames + b - 1) / b,
    ;
}

/// A fade at silence transitions lasts at least one frame.
pub proof fn law_transition_is_never_empty(source_rate: u32)
    ensures
        spec_transition_frames(source_rate) >= 1,
        source_rate >= 500 ==> spec_transition_frames(source_rate) == (source_rate as int * 2) / 1000,
{
}

/// Once packets were seen, a packet count that stands still for the stall
/// limit or longer is reported as a stall.
pub proof fn law_standing_clock_is_a_stall(h: RtpHeartbeat, packets_sent: u64, now_ns: u64)
    requires
        h.progress_seen,
        packets_sent <= h.last_observed,
        now_ns >= h.last_progress_at_ns + 3_000_000_000,
    ensures
        spec_observe_packets(h, packets_sent, now_ns).1,
        spec_observe_packets(h, packets_sent, now_ns).0 == h,
{
}

} // verus!
