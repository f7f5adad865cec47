//! Control logic for Feetech STS servos behind an ESP32-C3 Wi-Fi controller.

pub mod board;
pub mod bounded;
pub mod bridge;
pub mod connect;
pub mod controller;
pub mod executor;
pub mod host;
pub mod host_config;
pub mod host_log;
pub mod json;
pub mod protocol;
pub mod raw_tunnel;
pub mod rpc;
pub mod servo_bus;
pub mod session;
pub mod text;
pub mod websocket;
pub mod wifi_config;
pub mod wire;
