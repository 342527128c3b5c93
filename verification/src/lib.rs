pub mod control;
pub mod linklist;
pub mod server;
pub mod webrtc;
