//! The handle that a front end shares with a running live stream.
use std::sync::atomic::{AtomicBool, AtomicU32, Ordering};
use std::sync::Arc;
use vstd::prelude::*;

verus! {

/// Shared between the front end and the stream task: a stop request and the
/// playback volume, held as the bits of an `f32` (clamping and converting
/// the volume is left to the caller). Either side may change them at any
/// time, so nothing is stated of what a read returns.
#[derive(Clone)]
pub struct StreamControl {
    stop: Arc<AtomicBool>,
    volume_bits: Arc<AtomicU32>,
}

impl StreamControl {
    /// A control that has not been asked to stop, at the given volume.
    pub fn new(initial_volume_bits: u32) -> Self {
        StreamControl {
            stop: Arc::new(AtomicBool::new(false)),
            volume_bits: Arc::new(AtomicU32::new(initial_volume_bits)),
        }
    }

    /// Asks the stream to stop.
    pub fn stop(&self) {
        self.stop.store(true, Ordering::Release);
    }

    /// Whether a stop was asked for.
    pub fn is_stopped(&self) -> bool {
        self.stop.load(Ordering::Acquire)
    }

    /// Sets the volume, as the bits of an `f32`.
    pub fn set_volume_bits(&self, bits: u32) {
        self.volume_bits.store(bits, Ordering::Release);
    }

    /// The volume, as the bits of an `f32`.
    pub fn volume_bits(&self) -> u32 {
        self.volume_bits.load(Ordering::Acquire)
    }
}

} // verus!
