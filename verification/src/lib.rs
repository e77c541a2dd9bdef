//! Framing, checksums and decoding decisions of a small folder-transfer tool:
//! a client streams files to a server over TCP, and a relay helps two peers
//! find each other.
pub mod checksum;
pub mod endian;
pub mod byte_buffer;
pub mod relay;
pub mod client;
pub mod text;
pub mod server;
