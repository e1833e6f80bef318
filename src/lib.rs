//! A paddle-and-ball simulation in exact fixed-point arithmetic: geometry for
//! collision tests, the entities of the field, and the tick that advances them.
pub mod fixed;
pub mod geometry;
pub mod mesh;
pub mod entities;
pub mod simulation;
pub mod input;
