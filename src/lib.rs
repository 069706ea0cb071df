//! Runtime logic of a daemon that supervises Minecraft server processes:
//! the wire codecs it speaks, the registry of running servers, port
//! arbitration, server.properties editing and the routing decisions of its
//! handshake-aware reverse proxy.

pub mod varint;
pub mod wire;
pub mod packet;
pub mod frame;
pub mod status;
pub mod proxy;
pub mod properties;
pub mod config;
pub mod port;
pub mod registry;
pub mod rcon;
pub mod supervisor;
pub mod catalog;
pub mod paths;
pub mod manifest;
pub mod extensions;
pub mod control;
pub mod terminal;
pub mod text;
pub mod integrity;
pub mod lifecycle;
pub mod piston;
pub mod runtime;
pub mod autostart;
pub mod info;
pub mod request;
