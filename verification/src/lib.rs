//! A Mondrian-style raster generator: line-drawing agents ("ants") walk a
//! pixel canvas, split probabilistically, and halt when blocked, leaving a
//! grid of separated lines.

pub mod ant;
pub mod canvas;
pub mod config;
pub mod driver;
mod rng;
