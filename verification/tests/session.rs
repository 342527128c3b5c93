use pvz_remote::server::{accept_offer, reply_for_answer};
use pvz_remote::webrtc::connect::{
    ice_state_ends_session, on_peer_state, report_write_error, IceConnectionState,
    PeerConnectionState, PeerStateAction,
};

#[test]
fn offer_text_is_forwarded() {
    assert_eq!(accept_offer(Some("abc".to_string())), Ok("abc".to_string()));
}

#[test]
fn offer_that_is_not_text_is_refused() {
    assert_eq!(accept_offer(None), Err("Invaild SDP".to_string()));
}

#[test]
fn answer_or_failure_reply() {
    assert_eq!(reply_for_answer(Some("xyz".to_string())), "xyz");
    assert_eq!(reply_for_answer(None), "can not get SDP");
}

#[test]
fn only_ice_failure_ends_session() {
    assert!(ice_state_ends_session(IceConnectionState::Failed));
    for s in [
        IceConnectionState::Unspecified,
        IceConnectionState::New,
        IceConnectionState::Checking,
        IceConnectionState::Connected,
        IceConnectionState::Completed,
        IceConnectionState::Disconnected,
        IceConnectionState::Closed,
    ] {
        assert!(!ice_state_ends_session(s));
    }
}

#[test]
fn peer_state_actions() {
    assert_eq!(
        on_peer_state(PeerConnectionState::Disconnected),
        PeerStateAction { stop_forwarding: true, end_session: false }
    );
    assert_eq!(
        on_peer_state(PeerConnectionState::Failed),
        PeerStateAction { stop_forwarding: false, end_session: true }
    );
    assert_eq!(
        on_peer_state(PeerConnectionState::Connected),
        PeerStateAction { stop_forwarding: false, end_session: false }
    );
    assert_eq!(
        on_peer_state(PeerConnectionState::Closed),
        PeerStateAction { stop_forwarding: false, end_session: false }
    );
}

#[test]
fn closed_pipe_goes_unreported() {
    assert!(!report_write_error(true));
    assert!(report_write_error(false));
}
