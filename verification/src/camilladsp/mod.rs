//! CamillaDSP-side interfaces: ALSA capture control and the WebSocket protocol.
pub mod alsa_capture;
pub mod stdin_capture;
pub mod websocket;
