//! Scene extraction, GPU layout and frame control of a progressive path tracer.
//!
//! [`gather`] turns the visible nodes of a scene into flat arrays of records, and
//! [`content`] hashes the same nodes so that a change is noticed without gathering.
//! [`gpu_scene`] lays the arrays out for a backend and moves their instances in place.
//! [`ray_tracer`] decides, frame by frame, what to rebuild and whether the accumulated
//! image is still good. [`laws`] states what holds across these.
//!
//! Floating-point numbers are carried as bit patterns ([`float`]). They are compared
//! and moved here, never computed: functions take computed numbers as arguments.

pub mod bake;
pub mod bounds;
pub mod content;
pub mod float;
pub mod fnv;
pub mod gather;
pub mod gpu_scene;
pub mod laws;
pub mod ray_tracer;
pub mod records;
pub mod resolution;
pub mod scene;
pub mod upload;
