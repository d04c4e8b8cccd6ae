pub mod text;
pub mod num;
pub mod ports;
pub mod image;
pub mod memory;
pub mod registry;
pub mod paths;
pub mod network;
pub mod compose;
pub mod order;
pub mod compose_plan;
pub mod oci;
pub mod lifecycle;
pub mod script;
pub mod firewall;
pub mod host;
pub mod access;
pub mod gitsync;
pub mod cli;
pub mod certs;
pub mod files;
pub mod listing;
pub mod settings;
