[package]
name = "utility_flow"
version = "0.1.0"
edition = "2021"
publish = false

[dependencies]
bevy_ecs = "0.15"
bevy_hierarchy = "0.15"
bevy_math = "0.15"
bevy_utils = "0.15"
parking_lot = "0.12"
petgraph = "0.6"
smallvec = "1"
thiserror = "2"
tracing = "0.1"
variadics_please = "1"
