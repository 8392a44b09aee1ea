//! The transport capability shared by every radio or serial backend, and
//! its failure vocabulary.

use vstd::prelude::*;

verus! {

/// Errors that can occur during wireless communication.
#[derive(Debug, Clone, Copy, PartialEq, Eq, Structural)]
pub enum WirelessError {
    /// Failed to send frame
    SendFailed,
    /// Failed to receive frame
    ReceiveFailed,
    /// Frame too large for transport
    FrameTooLarge,
    /// Transport not initialized
    NotInitialized,
    /// Transport is busy
    Busy,
    /// No data available
    NoData,
    /// Invalid configuration
    InvalidConfig,
    /// Hardware error
    HardwareError,
}

impl WirelessError {
    /// Human-readable text for the error.
    pub open spec fn spec_message(self) -> Seq<char> {
        match self {
            WirelessError::SendFailed => "Failed to send frame"@,
            WirelessError::ReceiveFailed => "Failed to receive frame"@,
            WirelessError::FrameTooLarge => "Frame too large"@,
            WirelessError::NotInitialized => "Transport not initialized"@,
            WirelessError::Busy => "Transport busy"@,
            WirelessError::NoData => "No data available"@,
            WirelessError::InvalidConfig => "Invalid configuration"@,
            WirelessError::HardwareError => "Hardware error"@,
        }
    }

    /// Human-readable text for the error.
    pub fn message(&self) -> (r: &'static str)
        ensures
            r@ == self.spec_message(),
    {
        match self {
            WirelessError::SendFailed => "Failed to send frame",
            WirelessError::ReceiveFailed => "Failed to receive frame",
            WirelessError::FrameTooLarge => "Frame too large",
            WirelessError::NotInitialized => "Transport not initialized",
            WirelessError::Busy => "Transport busy",
            WirelessError::NoData => "No data available",
            WirelessError::InvalidConfig => "Invalid configuration",
            WirelessError::HardwareError => "Hardware error",
        }
    }
}

/// A transport that moves bounded frames over a link.
///
/// Sending is refused with `NotInitialized` before the transport is set up,
/// and with `FrameTooLarge` for a frame longer than `max_frame_size()`.
/// Receiving is a non-blocking poll: `Ok(None)` means that no frame is
/// waiting, which is not an error.
pub trait WirelessTransport {
    /// Whether the transport has been initialized.
    spec fn initialized(&self) -> bool;

    /// The largest frame, in bytes, that the backend accepts.
    spec fn frame_limit(&self) -> nat;

    /// Send a frame over the link.
    fn send_frame(&mut self, frame: &[u8]) -> (r: Result<(), WirelessError>)
        ensures
            !old(self).initialized() ==> r == Err::<(), WirelessError>(
                WirelessError::NotInitialized,
            ),
            old(self).initialized() && frame@.len() > old(self).frame_limit() ==> r == Err::<
                (),
                WirelessError,
            >(WirelessError::FrameTooLarge),
            final(self).initialized() == old(self).initialized(),
            final(self).frame_limit() == old(self).frame_limit(),
    ;

    /// Poll for one received frame.
    fn recv_frame(&mut self) -> (r: Result<Option<heapless::Vec<u8, 64>>, WirelessError>)
        ensures
            !old(self).initialized() ==> r == Err::<Option<heapless::Vec<u8, 64>>, WirelessError>(
                WirelessError::NotInitialized,
            ),
            final(self).initialized() == old(self).initialized(),
            final(self).frame_limit() == old(self).frame_limit(),
    ;

    /// Whether the transport can send now.
    fn is_ready(&self) -> (r: bool)
        ensures
            r ==> self.initialized(),
    ;

    /// The largest frame, in bytes, that the backend accepts.
    fn max_frame_size(&self) -> (r: usize)
        ensures
            r as nat == self.frame_limit(),
    ;

    /// Drop the frames queued for sending, as far as the backend can.
    fn flush(&mut self) -> (r: Result<(), WirelessError>)
        ensures
            final(self).initialized() == old(self).initialized(),
            final(self).frame_limit() == old(self).frame_limit(),
    ;
}

} // verus!
