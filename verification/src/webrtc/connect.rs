//! The decisions of a streaming session: which changes of connection state
//! end it, and which failures to forward video are worth reporting.
use vstd::prelude::*;

verus! {

/// The state of the ICE transport of a peer connection.
#[derive(Clone, Copy, Debug, PartialEq, Eq, Structural)]
pub enum IceConnectionState {
    Unspecified,
    New,
    Checking,
    Connected,
    Completed,
    Disconnected,
    Failed,
    Closed,
}

/// The state of a peer connection.
#[derive(Clone, Copy, Debug, PartialEq, Eq, Structural)]
pub enum PeerConnectionState {
    Unspecified,
    New,
    Connecting,
    Connected,
    Disconnected,
    Failed,
    Closed,
}

/// What the session does on a change of the peer connection's state.
#[derive(Clone, Copy, Debug, PartialEq, Eq, Structural)]
pub struct PeerStateAction {
    /// Stop forwarding RTP packets to the video track.
    pub stop_forwarding: bool,
    /// End the session.
    pub end_session: bool,
}

/// Whether a change of the ICE connection's state ends the session: only a
/// failure does.
pub fn ice_state_ends_session(state: IceConnectionState) -> (b: bool)
    ensures
        b <==> state is Failed,
{
    match state {
        IceConnectionState::Failed => true,
        _ => false,
    }
}

/// What a change of the peer connection's state asks for: a disconnection
/// stops the forwarding of video, a failure ends the session.
pub fn on_peer_state(state: PeerConnectionState) -> (a: PeerStateAction)
    ensures
        a.stop_forwarding <==> state is Disconnected,
        a.end_session <==> state is Failed,
{
    match state {
        PeerConnectionState::Disconnected => PeerStateAction { stop_forwarding: true, end_session: false },
        PeerConnectionState::Failed => PeerStateAction { stop_forwarding: false, end_session: true },
        _ => PeerStateAction { stop_forwarding: false, end_session: false },
    }
}

/// Whether a failed write to the video track is reported. Every failed write
/// ends the forwarding and the session; a closed pipe only means that the peer
/// connection was closed, and goes unreported.
pub fn report_write_error(closed_pipe: bool) -> (b: bool)
    ensures
        b == !closed_pipe,
{
    !closed_pipe
}

} // verus!
