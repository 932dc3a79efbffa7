//! A verified model of an offscreen 3D/2D visualization engine: multi-pass
//! rendering of retained scene tables, depth recovery, and a pointer/scroll
//! interaction state machine.
//!
//! All scalar quantities are held in fixed-point integer scales so that every
//! component is executable and provable; the surrounding shell converts to and
//! from machine floating point at the boundary.

pub mod fixed;

pub mod geom;

pub mod camera;

pub mod depth;

pub mod interactions;

pub mod pipeline;

pub mod plots;

pub mod renderables;

pub mod renderer;

pub mod sim;

pub mod table;

pub mod viewer;
