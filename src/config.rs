use crate::defaults::{
    DEFAULT_ACK_EXPONENT, DEFAULT_DISCOVER_PMTU, DEFAULT_ENABLE_PACING, DEFAULT_MAX_ACK_DELAY,
    MAX_DATAGRAM_SIZE,
};
use vstd::prelude::*;

verus! {

/// Which end of a connection a configuration is for.
#[derive(Clone, Copy, Debug, PartialEq, Eq, Structural)]
pub enum Role {
    Server,
    Client,
}

/// Congestion control algorithm.
#[derive(Clone, Copy, Debug, PartialEq, Eq, Structural)]
pub enum CongestionControl {
    Cubic,
    Reno,
    Bbr2,
}

/// Why a configuration could not be built.
#[derive(Clone, Copy, Debug, PartialEq, Eq, Structural)]
pub enum ConfigError {
    /// A receive window of zero bytes.
    ZeroWindow,
}

/// The transport parameters of one role; fixed once built.
#[derive(Clone, Copy, Debug, PartialEq, Eq, Structural)]
pub struct TransportConfig {
    pub role: Role,
    pub max_idle_timeout_ms: u64,
    pub max_streams_bidi: u64,
    pub max_connection_window: u64,
    pub max_stream_window: u64,
    pub max_ack_delay_ms: u64,
    pub ack_delay_exponent: u64,
    pub congestion_control: CongestionControl,
    pub enable_pacing: bool,
    pub discover_pmtu: bool,
    pub max_datagram_size: usize,
}

/// The protocol identifier offered during the handshake.
pub fn alpn_protocol_id() -> (r: Vec<u8>)
    ensures
        r@ == seq![103u8, 101u8, 121u8, 115u8, 101u8, 114u8],
{
    vec![103u8, 101u8, 121u8, 115u8, 101u8, 114u8]
}

pub open spec fn idle_timeout_ms(timeout_s: u64) -> u64 {
    if timeout_s * 1000 > u64::MAX {
        u64::MAX
    } else {
        (timeout_s * 1000) as u64
    }
}

/// The configuration of `role` for at most `max_streams` concurrent streams, a receive
/// window of `max_window` bytes per connection and per stream, and an idle timeout of
/// `timeout_s` seconds; the other parameters take their defaults.
pub open spec fn configuration(role: Role, max_streams: u64, max_window: u64, timeout_s: u64) -> TransportConfig {
    TransportConfig {
        role,
        max_idle_timeout_ms: idle_timeout_ms(timeout_s),
        max_streams_bidi: max_streams,
        max_connection_window: max_window,
        max_stream_window: max_window,
        max_ack_delay_ms: DEFAULT_MAX_ACK_DELAY,
        ack_delay_exponent: DEFAULT_ACK_EXPONENT,
        congestion_control: CongestionControl::Cubic,
        enable_pacing: DEFAULT_ENABLE_PACING,
        discover_pmtu: DEFAULT_DISCOVER_PMTU,
        max_datagram_size: MAX_DATAGRAM_SIZE,
    }
}

pub open spec fn configured(role: Role, max_streams: u64, max_window: u64, timeout_s: u64) -> Result<TransportConfig, ConfigError> {
    if max_window == 0 {
        Err(ConfigError::ZeroWindow)
    } else {
        Ok(configuration(role, max_streams, max_window, timeout_s))
    }
}

/// Builds the configuration of `role`; a zero window is refused.
pub fn configure(role: Role, max_streams: u64, max_window: u64, timeout_s: u64) -> (r: Result<
    TransportConfig,
    ConfigError,
>)
    ensures
        r == configured(role, max_streams, max_window, timeout_s),
{
    if max_window == 0 {
        return Err(ConfigError::ZeroWindow);
    }
    let idle_ms: u64 = if timeout_s > u64::MAX / 1000 {
        u64::MAX
    } else {
        timeout_s * 1000
    };
    Ok(
        TransportConfig {
            role,
            max_idle_timeout_ms: idle_ms,
            max_streams_bidi: max_streams,
            max_connection_window: max_window,
            max_stream_window: max_window,
            max_ack_delay_ms: DEFAULT_MAX_ACK_DELAY,
            ack_delay_exponent: DEFAULT_ACK_EXPONENT,
            congestion_control: CongestionControl::Cubic,
            enable_pacing: DEFAULT_ENABLE_PACING,
            discover_pmtu: DEFAULT_DISCOVER_PMTU,
            max_datagram_size: MAX_DATAGRAM_SIZE,
        },
    )
}

/// The server's configuration; see `configure`.
pub fn configure_server(max_streams: u64, max_window: u64, timeout_s: u64) -> (r: Result<
    TransportConfig,
    ConfigError,
>)
    ensures
        r == configured(Role::Server, max_streams, max_window, timeout_s),
{
    configure(Role::Server, max_streams, max_window, timeout_s)
}

/// The client's configuration; see `configure`.
pub fn configure_client(max_streams: u64, max_window: u64, timeout_s: u64) -> (r: Result<
    TransportConfig,
    ConfigError,
>)
    ensures
        r == configured(Role::Client, max_streams, max_window, timeout_s),
{
    configure(Role::Client, max_streams, max_window, timeout_s)
}

} // verus!
