//! TunnelBridge: the relay and agent logic of a self-hosted tunnel.
pub mod agent;
pub mod agent_config;
pub mod api;
pub mod auth;
pub mod carrier;
pub mod clock;
pub mod commands;
pub mod config;
pub mod db;
pub mod der;
pub mod dial;
pub mod error;
pub mod flow;
pub mod gateway;
pub mod geoip;
pub mod ids;
pub mod local;
pub mod net;
pub mod protocol;
pub mod readback;
pub mod reconnect;
pub mod registry;
pub mod rows;
pub mod runtime;
pub mod secrets;
pub mod socket;
pub mod state;
pub mod table;
pub mod text;
pub mod timing;
pub mod transport_identity;
pub mod tunnels;
pub mod udp;
pub mod wire;
