//! mineshare: a proxy through which a Minecraft server behind a router can be
//! joined without port forwarding.

pub mod byte_map;
pub mod client_impls;
pub mod codec;
pub mod disconnect;
pub mod error;
pub mod limiter;
pub mod message;
pub mod net;
pub mod net_laws;
pub mod packet;
pub mod proxy;
pub mod proxy_laws;
pub mod random;
pub mod reader;
pub mod router;
pub mod router_laws;
pub mod search;
pub mod text;
pub mod varint;
pub mod wire_laws;
