//! Configuration of the 2.4 GHz radio link.

use vstd::prelude::*;

verus! {

/// Validation common to every wireless protocol configuration.
pub trait WirelessConfig {
    /// Whether every parameter lies in its valid range.
    spec fn in_range(&self) -> bool;

    /// Validate configuration parameters.
    fn validate(&self) -> (r: bool)
        ensures
            r == self.in_range(),
    ;

    /// A human-readable description of the configuration.
    fn description(&self) -> &'static str {
        "Wireless configuration"
    }
}

/// Radio data rate.
#[derive(Debug, Clone, Copy, PartialEq, Eq, Structural)]
pub enum DataRate {
    /// 250 kbps: maximum range
    _250Kbps,
    /// 1 Mbps: good balance (default)
    _1Mbps,
    /// 2 Mbps: minimum latency
    _2Mbps,
}

impl DataRate {
    /// The radio's register value for this rate.
    pub fn code(self) -> (r: u8)
        ensures
            r == match self {
                DataRate::_250Kbps => 0u8,
                DataRate::_1Mbps => 1u8,
                DataRate::_2Mbps => 2u8,
            },
    {
        match self {
            DataRate::_250Kbps => 0,
            DataRate::_1Mbps => 1,
            DataRate::_2Mbps => 2,
        }
    }
}

/// Transmit power levels of the nRF52 radio.
#[derive(Debug, Clone, Copy, PartialEq, Eq, Structural)]
pub enum TxPower {
    /// -40 dBm
    Neg40dBm,
    /// -20 dBm
    Neg20dBm,
    /// -16 dBm
    Neg16dBm,
    /// -12 dBm
    Neg12dBm,
    /// -8 dBm
    Neg8dBm,
    /// -4 dBm
    Neg4dBm,
    /// 0 dBm (1 mW), the default
    Pos0dBm,
    /// +2 dBm
    Pos2dBm,
    /// +3 dBm
    Pos3dBm,
    /// +4 dBm
    Pos4dBm,
    /// +5 dBm
    Pos5dBm,
    /// +6 dBm
    Pos6dBm,
    /// +7 dBm
    Pos7dBm,
    /// +8 dBm (6.3 mW), the maximum
    Pos8dBm,
}

impl TxPower {
    /// The power level in dBm.
    pub open spec fn spec_dbm(self) -> i8 {
        match self {
            TxPower::Neg40dBm => -40i8,
            TxPower::Neg20dBm => -20i8,
            TxPower::Neg16dBm => -16i8,
            TxPower::Neg12dBm => -12i8,
            TxPower::Neg8dBm => -8i8,
            TxPower::Neg4dBm => -4i8,
            TxPower::Pos0dBm => 0i8,
            TxPower::Pos2dBm => 2i8,
            TxPower::Pos3dBm => 3i8,
            TxPower::Pos4dBm => 4i8,
            TxPower::Pos5dBm => 5i8,
            TxPower::Pos6dBm => 6i8,
            TxPower::Pos7dBm => 7i8,
            TxPower::Pos8dBm => 8i8,
        }
    }

    /// The power level in dBm, which is also the radio's register value.
    pub fn dbm(self) -> (r: i8)
        ensures
            r == self.spec_dbm(),
    {
        match self {
            TxPower::Neg40dBm => -40,
            TxPower::Neg20dBm => -20,
            TxPower::Neg16dBm => -16,
            TxPower::Neg12dBm => -12,
            TxPower::Neg8dBm => -8,
            TxPower::Neg4dBm => -4,
            TxPower::Pos0dBm => 0,
            TxPower::Pos2dBm => 2,
            TxPower::Pos3dBm => 3,
            TxPower::Pos4dBm => 4,
            TxPower::Pos5dBm => 5,
            TxPower::Pos6dBm => 6,
            TxPower::Pos7dBm => 7,
            TxPower::Pos8dBm => 8,
        }
    }
}

/// Highest RF channel (2400 MHz + channel).
pub const MAX_CHANNEL: u8 = 100;

/// Highest number of automatic retransmissions.
pub const MAX_RETRIES: u8 = 15;

/// Shortest acknowledgment timeout, in microseconds.
pub const MIN_ACK_TIMEOUT_US: u16 = 250;

/// Longest acknowledgment timeout, in microseconds.
pub const MAX_ACK_TIMEOUT_US: u16 = 4000;

/// Nordic Gazell configuration for nRF52 radios.
#[derive(Debug, Clone, Copy)]
pub struct GazellConfig {
    /// RF channel (0-100); channel `n` is 2400 + `n` MHz.
    pub channel: u8,
    /// Data rate.
    pub data_rate: DataRate,
    /// Transmit power.
    pub tx_power: TxPower,
    /// Maximum number of automatic retransmissions (0-15).
    pub max_retries: u8,
    /// Acknowledgment timeout in microseconds (250-4000).
    pub ack_timeout_us: u16,
    /// Base address shared by all pipes.
    pub base_address: [u8; 4],
    /// Address prefix of pipe 0.
    pub address_prefix: u8,
}

impl GazellConfig {
    /// The default configuration: channel 4, 1 Mbps, 0 dBm, 3 retries,
    /// 250 µs acknowledgment timeout, the default Gazell address.
    pub open spec fn spec_default() -> GazellConfig {
        GazellConfig {
            channel: 4,
            data_rate: DataRate::_1Mbps,
            tx_power: TxPower::Pos0dBm,
            max_retries: 3,
            ack_timeout_us: 250,
            base_address: [0xE7u8, 0xE7u8, 0xE7u8, 0xE7u8],
            address_prefix: 0xAA,
        }
    }

    /// Whether channel, retry count and acknowledgment timeout are in range.
    pub open spec fn spec_valid(&self) -> bool {
        &&& self.channel <= MAX_CHANNEL
        &&& self.max_retries <= MAX_RETRIES
        &&& MIN_ACK_TIMEOUT_US <= self.ack_timeout_us <= MAX_ACK_TIMEOUT_US
    }

    /// A low-latency configuration: 2 Mbps, 2 retries, 250 µs timeout.
    pub fn low_latency() -> (r: Self)
        ensures
            r == (GazellConfig {
                data_rate: DataRate::_2Mbps,
                max_retries: 2,
                ack_timeout_us: 250,
                ..GazellConfig::spec_default()
            }),
            r.spec_valid(),
    {
        GazellConfig { data_rate: DataRate::_2Mbps, max_retries: 2, ack_timeout_us: 250, ..Self::default() }
    }

    /// A long-range configuration: 250 kbps, +8 dBm, 5 retries, 500 µs timeout.
    pub fn long_range() -> (r: Self)
        ensures
            r == (GazellConfig {
                data_rate: DataRate::_250Kbps,
                tx_power: TxPower::Pos8dBm,
                max_retries: 5,
                ack_timeout_us: 500,
                ..GazellConfig::spec_default()
            }),
            r.spec_valid(),
    {
        GazellConfig {
            data_rate: DataRate::_250Kbps,
            tx_power: TxPower::Pos8dBm,
            max_retries: 5,
            ack_timeout_us: 500,
            ..Self::default()
        }
    }

    /// A low-power configuration: 1 Mbps, -4 dBm, 2 retries, 250 µs timeout.
    pub fn low_power() -> (r: Self)
        ensures
            r == (GazellConfig {
                data_rate: DataRate::_1Mbps,
                tx_power: TxPower::Neg4dBm,
                max_retries: 2,
                ack_timeout_us: 250,
                ..GazellConfig::spec_default()
            }),
            r.spec_valid(),
    {
        GazellConfig {
            data_rate: DataRate::_1Mbps,
            tx_power: TxPower::Neg4dBm,
            max_retries: 2,
            ack_timeout_us: 250,
            ..Self::default()
        }
    }
}

impl Default for GazellConfig {
    fn default() -> (r: Self)
        ensures
            r == GazellConfig::spec_default(),
            r.spec_valid(),
    {
        GazellConfig {
            channel: 4,
            data_rate: DataRate::_1Mbps,
            tx_power: TxPower::Pos0dBm,
            max_retries: 3,
            ack_timeout_us: 250,
            base_address: [0xE7, 0xE7, 0xE7, 0xE7],
            address_prefix: 0xAA,
        }
    }
}

impl WirelessConfig for GazellConfig {
    open spec fn in_range(&self) -> bool {
        self.spec_valid()
    }

    fn validate(&self) -> (r: bool) {
        self.channel <= MAX_CHANNEL && self.max_retries <= MAX_RETRIES && self.ack_timeout_us
            >= MIN_ACK_TIMEOUT_US && self.ack_timeout_us <= MAX_ACK_TIMEOUT_US
    }

    fn description(&self) -> (r: &'static str)
        ensures
            r@ == "Nordic Gazell 2.4GHz protocol (nRF52840)"@,
    {
        "Nordic Gazell 2.4GHz protocol (nRF52840)"
    }
}

} // verus!
