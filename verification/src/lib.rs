//! Command-driven movement on a tile grid.
//!
//! An entity stands on a cell of a rectangular grid and is drawn at a pixel
//! position. A move command carries the entity from its cell to a target
//! cell over several frames; a controller owns at most one command in
//! flight and asks a control strategy for the next one only when idle.
pub mod point;
pub mod metrics;
pub mod entity;
pub mod command;
pub mod cell;
pub mod records;
pub mod grid;
pub mod control;
pub mod explore;
pub mod render;
