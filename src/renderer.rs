//! The render entry point's decisions: which inputs are refused, and which
//! compute strategy a requested environment runs on.

pub mod context;
pub mod cpurender;
pub mod error;
pub mod layout;

use vstd::prelude::*;

use crate::renderer::error::ComputeError;

verus! {

/// The compute backend requested for a render.
#[derive(Copy, Clone, Debug, PartialEq, Eq, Structural)]
pub enum ComputeEnv {
    Naive,
    Multicore,
    Cuda,
    Opencl,
    SimpleThreaded,
}

/// The lower case name of each compute backend.
pub open spec fn env_name(env: ComputeEnv) -> Seq<char> {
    match env {
        ComputeEnv::Naive => "naive"@,
        ComputeEnv::Multicore => "multicore"@,
        ComputeEnv::Cuda => "cuda"@,
        ComputeEnv::Opencl => "opencl"@,
        ComputeEnv::SimpleThreaded => "simple_threaded"@,
    }
}

impl ComputeEnv {
    /// The backend's name, as it is shown to users.
    pub fn name(&self) -> (r: String)
        ensures
            r@ == env_name(*self),
    {
        proof {
            reveal_strlit("naive");
            reveal_strlit("multicore");
            reveal_strlit("cuda");
            reveal_strlit("opencl");
            reveal_strlit("simple_threaded");
        }
        match self {
            ComputeEnv::Naive => "naive".to_owned(),
            ComputeEnv::Multicore => "multicore".to_owned(),
            ComputeEnv::Cuda => "cuda".to_owned(),
            ComputeEnv::Opencl => "opencl".to_owned(),
            ComputeEnv::SimpleThreaded => "simple_threaded".to_owned(),
        }
    }
}

/// The way the pixels of one render are handed out.
#[derive(Copy, Clone, Debug, PartialEq, Eq, Structural)]
pub enum Strategy {
    /// One thread walks the pixels in row-major order.
    Naive,
    /// Each row of the buffer is a task of its own.
    RowBands,
    /// Contiguous column ranges go to worker threads, whose pixels a single
    /// collector writes.
    ColumnBands,
}

/// The strategy that each backend runs on: the accelerated backends fall
/// back to the row-parallel CPU strategy.
pub open spec fn strategy_of(env: ComputeEnv) -> Strategy {
    match env {
        ComputeEnv::Naive => Strategy::Naive,
        ComputeEnv::SimpleThreaded => Strategy::ColumnBands,
        _ => Strategy::RowBands,
    }
}

/// Picks the strategy that a requested backend runs on.
pub fn select_strategy(env: ComputeEnv) -> (r: Strategy)
    ensures
        r == strategy_of(env),
{
    match env {
        ComputeEnv::Naive => Strategy::Naive,
        ComputeEnv::SimpleThreaded => Strategy::ColumnBands,
        _ => Strategy::RowBands,
    }
}

/// Whether a backend is not available and runs on a CPU strategy instead.
pub fn falls_back(env: ComputeEnv) -> (r: bool)
    ensures
        r == (env == ComputeEnv::Cuda || env == ComputeEnv::Opencl),
{
    match env {
        ComputeEnv::Cuda | ComputeEnv::Opencl => true,
        _ => false,
    }
}

/// Why a render was refused or failed.
pub enum RendererError {
    /// A worker failed while the image was being computed.
    ComputeError(ComputeError),
    /// The image is empty, wider or higher than the largest size, or the
    /// buffer does not hold three bytes for each pixel.
    BufferSize,
    /// No samples per pixel, or no bounce allowed.
    InvalidParameter,
    /// The scene holds no object.
    InvalidScene,
}

/// The largest width and height of an image.
pub const MAX_DIMENSION: u32 = 4096;

/// The number of bytes of a `width` by `height` RGB image.
pub open spec fn image_len(width: int, height: int) -> int {
    width * height * 3
}

/// A dimension that a render accepts.
pub open spec fn dimension_ok(d: u32) -> bool {
    0 < d <= MAX_DIMENSION
}

/// What the render entry point answers to its inputs before any pixel is
/// computed, in the order in which they are tested.
pub open spec fn render_check(
    samples_per_pixel: u32,
    max_depth: u32,
    bounds: (u32, u32),
    buffer_len: usize,
    scene_len: usize,
) -> Option<RendererError> {
    if samples_per_pixel == 0 || max_depth == 0 {
        Some(RendererError::InvalidParameter)
    } else if !dimension_ok(bounds.0) || !dimension_ok(bounds.1) {
        Some(RendererError::BufferSize)
    } else if buffer_len != image_len(bounds.0 as int, bounds.1 as int) {
        Some(RendererError::BufferSize)
    } else if scene_len == 0 {
        Some(RendererError::InvalidScene)
    } else {
        None
    }
}

/// Tests the inputs of a render: `samples_per_pixel` and `max_depth` must
/// be positive, both dimensions in `(0, 4096]`, the buffer exactly three
/// bytes per pixel long, and the scene not empty.
pub fn validate_render(
    samples_per_pixel: u32,
    max_depth: u32,
    bounds: (u32, u32),
    buffer_len: usize,
    scene_len: usize,
) -> (r: Result<(), RendererError>)
    ensures
        r is Ok <==> render_check(samples_per_pixel, max_depth, bounds, buffer_len, scene_len) is None,
        r is Err ==> Some(r->Err_0) == render_check(samples_per_pixel, max_depth, bounds, buffer_len, scene_len),
        r is Ok ==> buffer_len == image_len(bounds.0 as int, bounds.1 as int),
{
    if samples_per_pixel == 0 || max_depth == 0 {
        return Err(RendererError::InvalidParameter);
    }
    if bounds.0 == 0 || bounds.1 == 0 || bounds.0 > MAX_DIMENSION || bounds.1 > MAX_DIMENSION {
        return Err(RendererError::BufferSize);
    }
    let w = bounds.0 as u64;
    let h = bounds.1 as u64;
    assert(w * h <= 4096 * 4096) by (nonlinear_arith)
        requires w <= 4096, h <= 4096;
    let n = w * h * 3;
    if buffer_len as u64 != n {
        return Err(RendererError::BufferSize);
    }
    if scene_len == 0 {
        return Err(RendererError::InvalidScene);
    }
    Ok(())
}

/// An empty image is refused with the buffer-size error, before any pixel
/// is computed, whenever the sample and bounce counts are valid (these are
/// tested first).
pub proof fn lemma_empty_image_refused(
    samples_per_pixel: u32,
    max_depth: u32,
    bounds: (u32, u32),
    buffer_len: usize,
    scene_len: usize,
)
    requires
        samples_per_pixel > 0,
        max_depth > 0,
        bounds.0 == 0 || bounds.1 == 0,
    ensures
        render_check(samples_per_pixel, max_depth, bounds, buffer_len, scene_len) matches Some(
            RendererError::BufferSize,
        ),
{
}

/// The length of the buffer to allocate for a `bounds.0` by `bounds.1`
/// image: three bytes per pixel, or none when a dimension is larger than a
/// render accepts.
pub fn buffer_len(bounds: (u32, u32)) -> (r: usize)
    ensures
        bounds.0 <= MAX_DIMENSION && bounds.1 <= MAX_DIMENSION ==> r == image_len(
            bounds.0 as int,
            bounds.1 as int,
        ),
        !(bounds.0 <= MAX_DIMENSION && bounds.1 <= MAX_DIMENSION) ==> r == 0,
{
    if bounds.0 <= MAX_DIMENSION && bounds.1 <= MAX_DIMENSION {
        let w = bounds.0 as usize;
        let h = bounds.1 as usize;
        assert(w * h <= 4096 * 4096) by (nonlinear_arith)
            requires
                w <= 4096,
                h <= 4096,
        ;
        w * h * 3
    } else {
        0
    }
}

} // verus!
