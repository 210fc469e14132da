//! A client-side library for discovering and controlling network-attached
//! media players: broadcast-discovery parsing, structured-text response
//! decoding, and a session layer that sequences requests and tracks
//! device state, built against capability interfaces for the secure
//! connection and for wake signaling.

pub mod app;
pub mod config;
pub mod device;
pub mod fields;
pub mod remote;
pub mod session;
pub mod ssdp;
pub mod text;
pub mod xml;

pub use crate::app::App;
pub use crate::config::load_from_file;
pub use crate::device::Device;
pub use crate::device::DeviceError;
pub use crate::device::network::NetworkType;
pub use crate::device::power::PowerState;
pub use crate::device::reconcile;
pub use crate::device::split_mac;
pub use crate::fields::FieldMap;
pub use crate::remote::button::Button;
pub use crate::session::RecordingWake;
pub use crate::session::ScriptedSession;
pub use crate::session::SessionPort;
pub use crate::session::WakePort;
pub use crate::ssdp::devices_from_datagrams;
pub use crate::ssdp::handle_ssdp_response;
pub use crate::ssdp::parse_ssdp_location;
pub use crate::ssdp::parse_ssdp_mac;
pub use crate::xml::decode_apps;
pub use crate::xml::decode_info;
