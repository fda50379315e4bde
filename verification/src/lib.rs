//! A verified core for a small 3D game engine: fixed-point vector math,
//! axis-aligned rigid-body physics with a fixed timestep, scene and object
//! lifecycle management, and the plain data types of the surrounding game
//! framework.
//!
//! All scalar quantities (positions, velocities, masses, coefficients) are
//! fixed-point numbers: an `i64` counting millionths of a unit.  Every
//! arithmetic operation is total (division by zero is defined, results
//! saturate at the `i64` range), so the whole simulation step is a pure
//! function of its inputs and the engine is deterministic by construction.

pub mod fixed;
pub mod idle;
pub mod math;
pub mod objects;
pub mod physics;
pub mod scene;
pub mod framework;
pub mod templates;
pub mod state;
pub mod input;
pub mod power;
pub mod rendering;
pub mod audio;

use vstd::prelude::*;

verus! {

/// Relies on `str`'s `PartialEq`: two string slices are equal exactly when
/// their character sequences are.
#[verifier::external_body]
pub(crate) fn str_eq(a: &str, b: &str) -> (r: bool)
    ensures
        r == (a@ == b@),
{
    a == b
}

/// The version of the engine library.
pub fn get_version() -> (r: &'static str)
    ensures
        r@ == "0.1.0"@,
{
    "0.1.0"
}

/// Configuration for constructing an engine around the core.
#[derive(Debug, Clone)]
pub struct EngineConfig {
    pub window_width: u32,
    pub window_height: u32,
    pub window_title: String,
    pub vsync: bool,
    pub fullscreen: bool,
    pub max_fps: Option<u32>,
    pub enable_physics: bool,
    pub enable_audio: bool,
    pub debug_mode: bool,
}

impl Default for EngineConfig {
    fn default() -> (r: Self)
        ensures
            r.window_width == 1024,
            r.window_height == 768,
            r.vsync,
            !r.fullscreen,
            r.max_fps is None,
            r.enable_physics,
            r.enable_audio,
            !r.debug_mode,
    {
        EngineConfig {
            window_width: 1024,
            window_height: 768,
            window_title: "Epoch of Elria Game Engine".to_owned(),
            vsync: true,
            fullscreen: false,
            max_fps: None,
            enable_physics: true,
            enable_audio: true,
            debug_mode: false,
        }
    }
}

/// The failures an embedding application can see from the engine.
#[derive(Debug, Clone)]
pub enum EngineError {
    InitializationError(String),
    RenderingError(String),
    PhysicsError(String),
    AudioError(String),
    IoError(String),
}

} // verus!
