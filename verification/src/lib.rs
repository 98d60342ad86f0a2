//! Core of an on-device DNS firewall that consumes a virtual-network-interface
//! (tunnel) device: an IP/UDP packet codec, a bounded pool of pending upstream
//! queries, a precedence-ordered hostname rule database, and the DNS-proxy
//! orchestration that ties filtering, forwarding and local response synthesis
//! together. All I/O (the tunnel descriptor, the readiness poller, upstream
//! sockets, host files) is left to the embedding program, which drives this
//! library with plain values.

use vstd::prelude::*;

pub mod chars;
pub mod codec;
pub mod controller;
pub mod dnsmsg;
pub mod pool;
pub mod proxy;
pub mod rules;
pub mod timeofday;

verus! {

/// Lifecycle state of the VPN engine, reported to the host through the
/// status-notification callback. Mirrors the host-side enumeration, so the
/// ordinal mapping below is part of the interface.
pub enum VpnStatus {
    Starting,
    Running,
    Stopping,
    WaitingForNetwork,
    Reconnecting,
    ReconnectingNetworkError,
    Stopped,
}

/// The host-side ordinal of each status value.
pub open spec fn spec_ordinal(s: VpnStatus) -> i32 {
    match s {
        VpnStatus::Starting => 0,
        VpnStatus::Running => 1,
        VpnStatus::Stopping => 2,
        VpnStatus::WaitingForNetwork => 3,
        VpnStatus::Reconnecting => 4,
        VpnStatus::ReconnectingNetworkError => 5,
        VpnStatus::Stopped => 6,
    }
}

impl VpnStatus {
    /// Position of this status in the host-side enumeration.
    pub fn ordinal(&self) -> (r: i32)
        ensures
            r == spec_ordinal(*self),
    {
        match self {
            VpnStatus::Starting => 0,
            VpnStatus::Running => 1,
            VpnStatus::Stopping => 2,
            VpnStatus::WaitingForNetwork => 3,
            VpnStatus::Reconnecting => 4,
            VpnStatus::ReconnectingNetworkError => 5,
            VpnStatus::Stopped => 6,
        }
    }
}

/// The loop-fatal conditions: any of these ends the serving loop and is
/// reported to the caller as the reason the session died. Everything milder
/// (a malformed packet, an unreachable upstream) is dropped and never
/// surfaces here.
#[derive(Clone, Copy, PartialEq, Eq, Structural, Debug)]
pub enum VpnError {
    TunnelPollFailure,
    SocketPollFailure,
    TunnelWriteFailure,
    TunnelReadFailure,
    Timeout,
}

impl VpnError {
    /// A human-readable description of the failure.
    pub fn message(&self) -> (r: String)
        ensures
            *self is TunnelPollFailure ==> r@ == "Failed to set up polling for the tunnel file descriptor"@,
            *self is SocketPollFailure ==> r@ == "Failed to set up polling for a socket file descriptor"@,
            *self is TunnelWriteFailure ==> r@ == "Failed to write to the tunnel file descriptor"@,
            *self is TunnelReadFailure ==> r@ == "Failed to read from the tunnel file descriptor"@,
            *self is Timeout ==> r@ == "Watchdog timed out"@,
    {
        match self {
            VpnError::TunnelPollFailure => String::from_str(
                "Failed to set up polling for the tunnel file descriptor",
            ),
            VpnError::SocketPollFailure => String::from_str(
                "Failed to set up polling for a socket file descriptor",
            ),
            VpnError::TunnelWriteFailure => String::from_str(
                "Failed to write to the tunnel file descriptor",
            ),
            VpnError::TunnelReadFailure => String::from_str(
                "Failed to read from the tunnel file descriptor",
            ),
            VpnError::Timeout => String::from_str("Watchdog timed out"),
        }
    }
}

/// Callbacks into the host application: socket protection (exempting a fresh
/// upstream socket from being routed back into the tunnel) and lifecycle
/// status notification. Implemented outside this library; nothing is assumed
/// of what the implementations do.
pub trait AdVpnCallback: Send + Sync {
    fn protect_raw_socket_fd(&self, socket_fd: i32) -> bool;

    fn notify(&self, native_status: i32);
}

/// Host callback that resolves a rule-source identifier to an open file
/// descriptor, or reports that none is available.
pub trait AndroidFileHelper {
    fn get_host_fd(&self, host: String, mode: String) -> Option<i32>;
}

/// Host callback that records one allow/deny decision per DNS question that
/// reached the filter.
pub trait BlockLoggerCallback: Send + Sync {
    fn log(&self, connection_name: String, allowed: bool);
}

} // verus!
