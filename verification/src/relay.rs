//! The relay protocol: frames exchanged between peers and a relay server that
//! introduces them to each other.
pub mod connection;
pub mod frame;
pub mod framehelper;
pub mod peer;
pub mod relay;
pub mod sender;
