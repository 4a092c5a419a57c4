use vstd::prelude::*;

verus! {

/// How audio is streamed to a receiver.
#[derive(Debug, Clone, Copy, PartialEq, Eq, Structural)]
pub enum StreamMode {
    RealtimeAlac,
    Buffered,
}

/// What a receiver advertises about its audio support.
#[derive(Debug, Clone, Copy, PartialEq, Eq, Structural)]
pub struct ReceiverCapabilities {
    pub supports_airplay2: bool,
    pub supports_ptp: bool,
    pub supports_buffered_audio: bool,
    pub latency_min_samples: Option<u32>,
    pub latency_max_samples: Option<u32>,
}

impl Default for ReceiverCapabilities {
    fn default() -> (c: Self)
        ensures
            !c.supports_airplay2,
            !c.supports_ptp,
            !c.supports_buffered_audio,
            c.latency_min_samples is None,
            c.latency_max_samples is None,
    {
        ReceiverCapabilities {
            supports_airplay2: false,
            supports_ptp: false,
            supports_buffered_audio: false,
            latency_min_samples: None,
            latency_max_samples: None,
        }
    }
}

} // verus!
