//! The daemon: what it does with a request, with the configuration that it owns, and with what
//! happens on the machine.

pub mod dispatch;
pub mod game_json;
pub mod game_rpc;
pub mod game_write;
pub mod launch;
pub mod protocol;
pub mod scale_rpc;
pub mod session;
pub mod state;
pub mod status_rpc;
pub mod sync;
pub mod watch;
