//! Local transport and protocol layer between a control-plane front end and two
//! backend processes: a proxy core reached through a small HTTP/1.1 dialect, and a
//! privileged helper reached through length-prefixed JSON frames.

pub mod backup;
pub mod bytes;
pub mod handlers;
pub mod http;
pub mod loopback;
pub mod pool;
pub mod process;
pub mod service;
pub mod signals;
pub mod subscription;
pub mod service_client;
pub mod service_protocol;
