//! Verified core of a floating fjord widget for the COSMIC desktop: the
//! deterministic scenery generator, the surface placement and its rebuild
//! policy, the parsing of sensor text, and the integer rules of the scene.

pub mod rng;
pub mod config;
pub mod surface;
pub mod text;
pub mod sensors;
pub mod wildlife;
