//! Perception and motion helpers for a legged soccer robot, centred on the
//! perspective-adaptive sampling grid: rows of sampling circles sized to the
//! ball's projected size, and the candidate circles that image segments claim.
//!
//! Positions and lengths are fixed-point integers; each module states its units.
pub mod calibration;
pub mod candidates;
pub mod image;
pub mod keys;
pub mod limbs;
pub mod nodes;
pub mod rows;
pub mod segments;
pub mod sonar;
pub mod walk;
