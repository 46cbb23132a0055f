//! Incoming-call capture for reception desks: the softphone notification
//! registry, the call-event payloads sent to the Kefilex backend, the pairing
//! configuration, and the decisions taken by the background listeners, the
//! heartbeat loop and the tray icon.

pub mod text;
pub mod voip_filters;
pub mod api;
pub mod config;
pub mod notification_listener;
pub mod audio_listener;
pub mod heartbeat;
pub mod tray;
pub mod switches;
