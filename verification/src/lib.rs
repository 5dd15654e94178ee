//! The verified core of a terminal controller for Clash-compatible proxy
//! daemons.
//!
//! The library turns subscription payloads into configuration documents: it
//! tells a full configuration from a list of share links, decodes
//! Shadowsocks, VMess, VLess and Trojan links into proxy records, and
//! installs the records in a base document without disturbing what the
//! document holds besides. It plans where the daemon's configuration and
//! the profile list are looked for, and decides what a scan of the disk
//! keeps. It also holds the rules of the application around this core: its
//! settings, its presets and themes, and the state of a session.
//!
//! Every function states what it returns over the mathematical value of its
//! arguments, and is proved to meet that statement. What outside crates
//! compute comes in through a handful of functions whose statements are
//! taken on trust; each of them says so.

pub mod api;
pub mod clash_config;
pub mod clash_types;
pub mod codec;
pub mod json;
pub mod laws;
pub mod locate;
pub mod mihomo_party;
pub mod mode;
pub mod options;
pub mod order;
pub mod pages;
pub mod preset;
pub mod record;
pub mod routes;
pub mod session;
pub mod settings;
pub mod shadowsocks;
pub mod state;
pub mod subscription;
pub mod synth;
pub mod text;
pub mod theme;
pub mod trojan;
pub mod uri;
pub mod vless;
pub mod vmess;
pub mod yaml;
