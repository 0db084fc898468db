//! Topology, routing and interaction rules of a transit-map diagram editor.

pub mod color;
pub mod counting;
pub mod geometry;
pub mod graph;
pub mod map;
pub mod model;
pub mod rejoin;
pub mod render;
pub mod routing;
pub mod shell;
pub mod view;
