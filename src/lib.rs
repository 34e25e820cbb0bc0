//! A small 2D application runtime: resource registries, an entity table,
//! event routing and a frame scheduler, all as verified state machines.
//! Windowing, GPU calls and floating-point math live with the host program.
use vstd::prelude::*;

pub mod input;
pub mod scheduler;
pub mod mesh;
pub mod registry;
pub mod math;
pub mod color;
pub mod material;
pub mod shapes;
pub mod entity;
pub mod events;
pub mod camera;
pub mod paper;
pub mod config;
pub mod utils;
pub mod app;

