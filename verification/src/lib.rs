//! Logic of the STALZONE JVM wrapper: which intercepted images get JVM flags
//! and which flags, the tuning profiles, the IFEO health verdicts, hardware
//! table parsing, registry text, running-client ranking, firewall block
//! plans, latency probe bookkeeping and the wrapper log.

pub mod config;
pub mod ifeo;
pub mod ipv4;
pub mod jvm;
pub mod log;
pub mod paths;
pub mod ping;
pub mod process;
pub mod registry;
pub mod server_block;
pub mod service;
pub mod system;
pub mod text;
