//! Transport invariants: route selection, PCM ring and RTP timeline.
pub mod route;

pub use route::{ReceiverCapabilities, Route, RouteResolver};
pub mod timeline;

pub use timeline::{Boundary, Timeline, TimelineError, TimelineState};
pub mod pcm_ring;

pub use pcm_ring::{PcmRing, PushResult};
