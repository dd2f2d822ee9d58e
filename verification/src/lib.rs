//! Verified core of a Tailscale node browser: the node records and their
//! cleaning, the order and filtering of the node list, the decisions a node
//! row makes, and the state the user interface keeps.

pub mod text;
pub mod tailscale;
pub mod order;
pub mod search;
pub mod ui;
pub mod state;
