//! QUIC transport settings for networks of different kinds.

use vstd::prelude::*;

verus! {

pub const MAX_CONCURRENT_BIDI_STREAMS: u32 = 128;

pub const MAX_CONCURRENT_UNI_STREAMS: u32 = 32;

/// The kind of network that a server is tuned for.
#[derive(Debug, Clone, Copy, PartialEq, Eq, Structural)]
pub enum QuicTransportProfile {
    Lan,
    Wan,
    HighBdp,
}

/// The settings of a QUIC endpoint. Windows are in bytes.
#[derive(Debug, Clone, Copy, PartialEq, Eq, Structural)]
pub struct TransportSettings {
    pub max_concurrent_bidi_streams: u32,
    pub max_concurrent_uni_streams: u32,
    pub keep_alive_secs: u64,
    pub max_idle_secs: u64,
    pub send_window: u64,
    pub stream_receive_window: u32,
    pub receive_window: u32,
}

impl QuicTransportProfile {
    /// The name of the profile.
    pub open spec fn name(self) -> Seq<char> {
        match self {
            QuicTransportProfile::Lan => "lan"@,
            QuicTransportProfile::Wan => "wan"@,
            QuicTransportProfile::HighBdp => "high-bdp"@,
        }
    }

    pub fn as_str(self) -> (r: &'static str)
        ensures
            r@ == self.name(),
    {
        match self {
            QuicTransportProfile::Lan => "lan",
            QuicTransportProfile::Wan => "wan",
            QuicTransportProfile::HighBdp => "high-bdp",
        }
    }

    /// The keep-alive interval and the idle timeout in seconds, and the send, stream receive and
    /// receive windows in MiB.
    pub open spec fn tuning(self) -> (u64, u64, u64, u32, u32) {
        match self {
            QuicTransportProfile::Lan => (2, 120, 2048, 64, 512),
            QuicTransportProfile::Wan => (5, 180, 1024, 32, 256),
            QuicTransportProfile::HighBdp => (2, 240, 4096, 128, 1024),
        }
    }

    /// The server settings of the profile.
    pub fn settings(self) -> (r: TransportSettings)
        ensures
            r.max_concurrent_bidi_streams == MAX_CONCURRENT_BIDI_STREAMS,
            r.max_concurrent_uni_streams == MAX_CONCURRENT_UNI_STREAMS,
            r.keep_alive_secs == self.tuning().0,
            r.max_idle_secs == self.tuning().1,
            r.send_window == self.tuning().2 * 0x10_0000,
            r.stream_receive_window == self.tuning().3 * 0x10_0000,
            r.receive_window == self.tuning().4 * 0x10_0000,
            self == QuicTransportProfile::Lan ==> {
                &&& (r.keep_alive_secs, r.max_idle_secs) == (2u64, 120u64)
                &&& r.send_window == 2 * 1024 * 1024 * 1024
                &&& r.stream_receive_window == 64 * 1024 * 1024
                &&& r.receive_window == 512 * 1024 * 1024
            },
            self == QuicTransportProfile::Wan ==> {
                &&& (r.keep_alive_secs, r.max_idle_secs) == (5u64, 180u64)
                &&& r.send_window == 1024 * 1024 * 1024
                &&& r.stream_receive_window == 32 * 1024 * 1024
                &&& r.receive_window == 256 * 1024 * 1024
            },
            self == QuicTransportProfile::HighBdp ==> {
                &&& (r.keep_alive_secs, r.max_idle_secs) == (2u64, 240u64)
                &&& r.send_window == 4 * 1024 * 1024 * 1024
                &&& r.stream_receive_window == 128 * 1024 * 1024
                &&& r.receive_window == 1024 * 1024 * 1024
            },
            r.keep_alive_secs < r.max_idle_secs,
            r.stream_receive_window <= r.receive_window,
    {
        let (keep_alive_secs, max_idle_secs, send_window, stream_receive_window, receive_window): (
            u64,
            u64,
            u64,
            u32,
            u32,
        ) = match self {
            QuicTransportProfile::Lan => (2, 120, 2_147_483_648, 67_108_864, 536_870_912),
            QuicTransportProfile::Wan => (5, 180, 1_073_741_824, 33_554_432, 268_435_456),
            QuicTransportProfile::HighBdp => (2, 240, 4_294_967_296, 134_217_728, 1_073_741_824),
        };
        TransportSettings {
            max_concurrent_bidi_streams: MAX_CONCURRENT_BIDI_STREAMS,
            max_concurrent_uni_streams: MAX_CONCURRENT_UNI_STREAMS,
            keep_alive_secs,
            max_idle_secs,
            send_window,
            stream_receive_window,
            receive_window,
        }
    }
}

/// The settings that a client chooses of its own.
#[derive(Debug, Clone, Copy, PartialEq, Eq, Structural)]
pub struct ClientTransportSettings {
    pub keep_alive_secs: u64,
    pub max_idle_secs: u64,
    pub send_window: u64,
}

/// The client settings: those of a server on a local network.
pub fn client_settings() -> (r: ClientTransportSettings)
    ensures
        r.keep_alive_secs == QuicTransportProfile::Lan.tuning().0,
        r.max_idle_secs == QuicTransportProfile::Lan.tuning().1,
        r.send_window == QuicTransportProfile::Lan.tuning().2 * 0x10_0000,
{
    ClientTransportSettings { keep_alive_secs: 2, max_idle_secs: 120, send_window: 2_147_483_648 }
}

/// The local address that a client binds to: any port, in the address family of the server.
pub fn client_bind_addr(server_is_ipv4: bool) -> (r: &'static str)
    ensures
        r@ == (if server_is_ipv4 {
            "0.0.0.0:0"@
        } else {
            "[::]:0"@
        }),
{
    if server_is_ipv4 {
        "0.0.0.0:0"
    } else {
        "[::]:0"
    }
}

} // verus!
