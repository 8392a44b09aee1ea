//! The radio adapter for Nordic Gazell. Configuration is validated before the
//! radio is touched; roles can only be chosen once the adapter is
//! initialized. Without a radio stack linked in, frames are accepted and
//! none arrive.

use vstd::prelude::*;

use crate::config::{GazellConfig, WirelessConfig};
use crate::transport::{WirelessError, WirelessTransport};

verus! {

/// Largest Gazell payload, in bytes.
pub const GAZELL_MAX_PAYLOAD: usize = 32;

/// Nordic Gazell transport.
pub struct GazellTransport {
    config: GazellConfig,
    initialized: bool,
}

impl GazellTransport {
    /// The configuration in use.
    pub closed spec fn spec_config(&self) -> GazellConfig {
        self.config
    }

    /// Create a transport with the given configuration, not yet initialized.
    pub fn new(config: GazellConfig) -> (r: Self)
        ensures
            r.spec_config() == config,
            !r.initialized(),
    {
        GazellTransport { config, initialized: false }
    }

    /// Initialize the radio. An invalid configuration fails with
    /// `InvalidConfig` and leaves the transport as it was.
    pub fn init(&mut self) -> (r: Result<(), WirelessError>)
        ensures
            final(self).spec_config() == old(self).spec_config(),
            old(self).spec_config().spec_valid() ==> r is Ok && final(self).initialized(),
            !old(self).spec_config().spec_valid() ==> r == Err::<(), WirelessError>(
                WirelessError::InvalidConfig,
            ) && final(self).initialized() == old(self).initialized(),
    {
        if !self.config.validate() {
            return Err(WirelessError::InvalidConfig);
        }
        self.initialized = true;
        Ok(())
    }

    /// Set device mode (transmitter). Fails with `NotInitialized` before
    /// `init`.
    pub fn set_device_mode(&mut self) -> (r: Result<(), WirelessError>)
        ensures
            *final(self) == *old(self),
            r is Ok <==> old(self).initialized(),
            !old(self).initialized() ==> r == Err::<(), WirelessError>(
                WirelessError::NotInitialized,
            ),
    {
        if !self.initialized {
            return Err(WirelessError::NotInitialized);
        }
        Ok(())
    }

    /// Set host mode (receiver). Fails with `NotInitialized` before `init`.
    pub fn set_host_mode(&mut self) -> (r: Result<(), WirelessError>)
        ensures
            *final(self) == *old(self),
            r is Ok <==> old(self).initialized(),
            !old(self).initialized() ==> r == Err::<(), WirelessError>(
                WirelessError::NotInitialized,
            ),
    {
        if !self.initialized {
            return Err(WirelessError::NotInitialized);
        }
        Ok(())
    }

    /// The current configuration.
    pub fn config(&self) -> (r: &GazellConfig)
        ensures
            *r == self.spec_config(),
    {
        &self.config
    }

    /// Replace the configuration and initialize again. An invalid
    /// configuration fails with `InvalidConfig` and changes nothing.
    pub fn set_config(&mut self, config: GazellConfig) -> (r: Result<(), WirelessError>)
        ensures
            config.spec_valid() ==> r is Ok && final(self).spec_config() == config
                && final(self).initialized(),
            !config.spec_valid() ==> r == Err::<(), WirelessError>(WirelessError::InvalidConfig)
                && *final(self) == *old(self),
    {
        if !config.validate() {
            return Err(WirelessError::InvalidConfig);
        }
        self.config = config;
        self.initialized = false;
        self.init()
    }
}

impl WirelessTransport for GazellTransport {
    closed spec fn initialized(&self) -> bool {
        self.initialized
    }

    closed spec fn frame_limit(&self) -> nat {
        GAZELL_MAX_PAYLOAD as nat
    }

    fn send_frame(&mut self, frame: &[u8]) -> (r: Result<(), WirelessError>)
        ensures
            *final(self) == *old(self),
            r is Ok <==> old(self).initialized() && frame@.len() <= GAZELL_MAX_PAYLOAD,
    {
        if !self.initialized {
            return Err(WirelessError::NotInitialized);
        }
        if frame.len() > self.max_frame_size() {
            return Err(WirelessError::FrameTooLarge);
        }
        Ok(())
    }

    fn recv_frame(&mut self) -> (r: Result<Option<heapless::Vec<u8, 64>>, WirelessError>)
        ensures
            *final(self) == *old(self),
            old(self).initialized() ==> r == Ok::<Option<heapless::Vec<u8, 64>>, WirelessError>(
                None,
            ),
    {
        if !self.initialized {
            return Err(WirelessError::NotInitialized);
        }
        Ok(None)
    }

    fn is_ready(&self) -> (r: bool)
        ensures
            r == self.initialized(),
    {
        self.initialized
    }

    fn max_frame_size(&self) -> (r: usize)
        ensures
            r == GAZELL_MAX_PAYLOAD,
    {
        GAZELL_MAX_PAYLOAD
    }

    fn flush(&mut self) -> (r: Result<(), WirelessError>)
        ensures
            *final(self) == *old(self),
            r is Ok <==> old(self).initialized(),
            !old(self).initialized() ==> r == Err::<(), WirelessError>(
                WirelessError::NotInitialized,
            ),
    {
        if !self.initialized {
            return Err(WirelessError::NotInitialized);
        }
        Ok(())
    }
}

/// A Gazell transport for callers that await; it holds the blocking one.
pub struct GazellTransportAsync {
    inner: GazellTransport,
}

impl GazellTransportAsync {
    /// The transport that does the work.
    pub closed spec fn spec_inner(&self) -> GazellTransport {
        self.inner
    }

    /// Create a transport with the given configuration, not yet initialized.
    pub fn new(config: GazellConfig) -> (r: Self)
        ensures
            r.spec_inner().spec_config() == config,
            !r.spec_inner().initialized(),
    {
        GazellTransportAsync { inner: GazellTransport::new(config) }
    }

    /// The transport that does the work, to be driven in place.
    pub fn inner_mut(&mut self) -> (r: &mut GazellTransport)
        ensures
            *r == old(self).spec_inner(),
            final(self).spec_inner() == *final(r),
    {
        &mut self.inner
    }
}

} // verus!
