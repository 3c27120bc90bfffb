//! Flight control and relative navigation for a small rigid-body space craft,
//! in exact fixed-point arithmetic.
//!
//! Every length, speed, impulse and angle is an integer count of millionths
//! (see [`fixed::SCALE`]). Orientations are quaternions whose length is free:
//! only their direction matters, so a rotation is an exact rational map that is
//! rounded once, at the end.
pub mod body;
pub mod controller;
pub mod dust;
pub mod fixed;
pub mod loading;
pub mod navigation;
pub mod report;
pub mod rotation;
pub mod rotation_laws;
pub mod thruster;
pub mod vector;
