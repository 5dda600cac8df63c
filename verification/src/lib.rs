//! Decision core of the meow packet tunnel: what the tunnel does with each
//! packet, flow, datagram, configuration document and log event, as verified
//! functions over plain values.

pub mod config;
pub mod dns;
pub mod engine;
pub mod fake_ip_dns;
pub mod ffi;
pub mod flows;
pub mod logging;
pub mod message;
pub mod net;
pub mod packet;
pub mod relay;
pub mod rss;
pub mod text;
pub mod tun2socks;
pub mod udp;
pub mod yaml;
