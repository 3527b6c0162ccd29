//! Wake-on-LAN orchestration: device registry, magic packet encoding,
//! authorization and the per-request wake state machine.
pub mod auth;
pub mod command;
pub mod mac;
pub mod orchestrator;
pub mod registry;
pub mod reply;
pub mod text;
