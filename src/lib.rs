//! A Monte Carlo ray tracer's render engine: parameter validation, compute
//! strategy selection, the row-major RGB buffer layout and the pixel
//! dispatchers that fill it, and the selection of a scene file's loader.

pub mod parser;
pub mod renderer;

use vstd::prelude::*;

use crate::renderer::ComputeEnv;

verus! {

/// The command line of the renderer, as the argument parser fills it.
pub struct Args {
    pub arg_source: String,
    pub arg_dest: String,
    pub flag_compute: Option<ComputeEnv>,
    pub flag_width: isize,
    pub flag_height: isize,
    pub flag_samples: isize,
    pub flag_depth: isize,
}

/// What one run renders with.
pub struct RunSettings {
    pub env: ComputeEnv,
    pub width: u32,
    pub height: u32,
    pub samples: u32,
    pub depth: u32,
}

impl Args {
    /// The render settings of this command line: each number is taken as a
    /// `u32`, as a cast takes it, and the backend is multicore unless one is
    /// named.
    pub fn settings(&self) -> (r: RunSettings)
        ensures
            r.env == (match self.flag_compute {
                Some(env) => env,
                None => ComputeEnv::Multicore,
            }),
            r.width == self.flag_width as u32,
            r.height == self.flag_height as u32,
            r.samples == self.flag_samples as u32,
            r.depth == self.flag_depth as u32,
    {
        let env = match self.flag_compute {
            Some(env) => env,
            None => ComputeEnv::Multicore,
        };
        RunSettings {
            env,
            width: self.flag_width as u32,
            height: self.flag_height as u32,
            samples: self.flag_samples as u32,
            depth: self.flag_depth as u32,
        }
    }
}

} // verus!
