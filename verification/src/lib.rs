//! Verified core of Ubuntu Remote Control: text and number handling, the
//! protocol model, Tailscale peer discovery, session detection, VNC backend
//! commands, supervision policy and health reports, the coordinator's
//! registry and relay tables, the file API's path guard and folder ZIP
//! archives, the client's session bookkeeping, TLS checks and the pairing
//! link.

pub mod agent;
pub mod backend;
pub mod client;
pub mod clock;
pub mod decimal;
pub mod files;
pub mod health;
pub mod order;
pub mod paths;
pub mod protocol;
pub mod registry;
pub mod relay;
pub mod session;
pub mod share;
pub mod supervisor;
pub mod tailscale;
pub mod text;
pub mod tls;
pub mod web;
pub mod zip;
