//! Wireless link layer of a split keyboard: the transport capability, the
//! radio configuration, multi-device addressing and liveness tracking, and
//! the stream adapter's framing and recovery decisions.

pub mod config;
pub mod device;
pub mod fixed;
pub mod gazell;
pub mod mock;
pub mod split;
pub mod transport;

pub use config::{DataRate, GazellConfig, TxPower, WirelessConfig};
pub use device::{
    ConnectedDevice, DeviceAddress, DeviceManager, DeviceState, MultiDeviceFrame, MAX_DEVICES,
};
pub use gazell::{GazellTransport, GazellTransportAsync};
pub use mock::{MockTransport, MockTransportPair};
pub use split::{next_read_step, CodecError, ReadStep, SplitDriverError, WriteProgress};
pub use transport::{WirelessError, WirelessTransport};
