//! Light rays among mirrors.
//!
//! A ray leaves a point in a direction, meets the closest mirror of a scene,
//! is reflected there, and goes on to the next. This crate computes the
//! points where it bounces, in spaces of any dimension, and tells when it
//! leaves the scene or has entered a loop.
//!
//! - [`scalar`] and [`linalg`]: the numbers that everything is computed
//!   with, which the embedding program supplies;
//! - [`vector`], [`ray`], [`hyperplane`]: points, rays, and the tangent
//!   hyperplanes across which directions are reflected;
//! - [`ctx`], [`tangent`], [`mirror`]: the choice of the closest tangent,
//!   and what a mirror is: collections of mirrors are mirrors;
//! - [`sphere`], [`cylinder`], [`simplex`], [`plane`], [`scene`]: the
//!   mirrors themselves; [`hits`]: the one or two tangents that a cylinder
//!   finds;
//! - [`path`]: the path of a ray, one bounce at a time;
//! - [`json`], [`format`], [`read`], [`write`]: scenes written down as
//!   documents;
//! - [`exact`] and [`roundtrip`]: what holds where numbers do not round;
//! - [`equal`]: equality of numbers and of what is made of them;
//! - [`list`], [`collect`] and [`text`]: three small helpers.

pub mod collect;
pub mod ctx;
pub mod cylinder;
pub mod equal;
pub mod exact;
pub mod format;
pub mod hits;
pub mod hyperplane;
pub mod json;
pub mod linalg;
pub mod list;
pub mod mirror;
pub mod path;
pub mod plane;
pub mod ray;
pub mod read;
pub mod roundtrip;
pub mod scalar;
pub mod scene;
pub mod simplex;
pub mod sphere;
pub mod tangent;
pub mod text;
pub mod vector;
pub mod write;
