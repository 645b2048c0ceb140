//! Monitor discovery and brightness control over DDC/CI, with an EDID decoder
//! and the rules that tie kernel connectors to display-server outputs.

pub mod text;
pub mod edid;
pub mod dump;
pub mod ddc;
pub mod sim;
pub mod caps;
pub mod correlate;
pub mod connector;
pub mod registry;
pub mod control;
pub mod model;
pub mod ddcutil;
pub mod session;
pub mod details;
pub mod cards;
pub mod gpu;
pub mod profile;
