//! PulseVision: the decision logic behind the PulseVision observability
//! server, its session store and its event exporter, stated and proved.

pub mod api;
pub mod client;
pub mod error;
pub mod ident;
pub mod serve;
pub mod session;
pub mod text;
pub mod ws;
