//! USB camera capture: configuration, V4L2 negotiation, capture health,
//! pixel conversion, message building and publication metadata.

pub mod backend;
pub mod backend_v4l;
pub mod batch;
pub mod buffer;
pub mod capture_error;
pub mod capture_health;
pub mod capture_loop;
pub mod channel;
pub mod cli;
pub mod codec;
pub mod config;
pub mod environment;
pub mod fourcc;
pub mod list_devices;
pub mod message;
pub mod metadata;
pub mod negotiation;
pub mod node;
pub mod observability;
pub mod order;
pub mod pixels;
pub mod sink;
pub mod snapshot;
pub mod text;
