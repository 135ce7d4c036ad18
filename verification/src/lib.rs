pub mod chunk;
pub mod client;
pub mod config;
pub mod cronet_client;
pub mod cronet_dist;
pub mod error;
pub mod handler;
pub mod headers;
pub mod laws;
pub mod relay;
pub mod request;
pub mod server;
pub mod text;
pub mod tls;
pub mod tunnel;
pub mod uri;
