use rustyrender::renderer::context::RenderContext;
use rustyrender::renderer::cpurender::{
    render_column_band, render_naive, render_row, store_pixel, PixelMessage,
};
use rustyrender::renderer::error::ComputeError;
use rustyrender::renderer::layout::column_bands;
use rustyrender::renderer::{
    buffer_len, falls_back, select_strategy, validate_render, ComputeEnv, RendererError, Strategy,
};

fn clamp(x: f32, min: f32, max: f32) -> f32 {
    if x < min {
        return min;
    }
    if x > max {
        return max;
    }
    x
}

fn to_byte(c: f32) -> u8 {
    (clamp(f32::sqrt(c), 0.0, 0.999) * 256.0) as u8
}

// The deterministic pixel operator: the color (0.013 x, 0.017 y, 0.21),
// gamma corrected and quantized.
fn render_test_pixel(x: usize, y: usize) -> (u8, u8, u8) {
    (
        to_byte(0.013 * (x as f32)),
        to_byte(0.017 * (y as f32)),
        to_byte(0.21),
    )
}

fn full_context(width: u32, height: u32) -> RenderContext<()> {
    RenderContext::new((), 1, 1, 0, 0, width, height)
}

fn naive_image(width: u32, height: u32) -> Vec<u8> {
    let mut img = vec![0; (width * height * 3) as usize];
    render_naive(&full_context(width, height), &mut img, (width, height), render_test_pixel);
    img
}

fn row_image(width: u32, height: u32) -> Vec<u8> {
    let w = width as usize;
    let mut img = vec![0; (width * height * 3) as usize];
    for (y, band) in img.chunks_mut(w * 3).enumerate() {
        render_row(band, y, w, render_test_pixel);
    }
    img
}

fn column_image(width: u32, height: u32, workers: u32) -> Vec<u8> {
    let mut img = vec![0; (width * height * 3) as usize];
    let bands = column_bands(width, workers);
    let outputs: Vec<Vec<PixelMessage>> = bands
        .iter()
        .map(|&(start, end)| render_column_band(start, end, height, render_test_pixel))
        .collect();
    // deliver the messages interleaved, the last band first
    let longest = outputs.iter().map(|o| o.len()).max().unwrap_or(0);
    for i in 0..longest {
        for out in outputs.iter().rev() {
            if let Some(m) = out.get(i) {
                store_pixel(&mut img, width, *m);
            }
        }
    }
    img
}

fn check_test_image(img: &[u8], width: usize, height: usize) {
    for y in 0..height {
        for x in 0..width {
            let (r, g, b) = render_test_pixel(x, y);
            assert_eq!(img[3 * (width * y + x)], r);
            assert_eq!(img[3 * (width * y + x) + 1], g);
            assert_eq!(img[3 * (width * y + x) + 2], b);
        }
    }
}

#[test]
fn test_render_full_naive() {
    let img = naive_image(2, 2);
    check_test_image(&img, 2, 2);
}

#[test]
fn test_render_full_threaded() {
    let img = row_image(2, 2);
    check_test_image(&img, 2, 2);
}

#[test]
fn two_by_two_bytes_under_every_strategy() {
    let expected: Vec<u8> = vec![0, 0, 117, 29, 0, 117, 0, 33, 117, 29, 33, 117];
    assert_eq!(naive_image(2, 2), expected);
    assert_eq!(row_image(2, 2), expected);
    assert_eq!(column_image(2, 2, 4), expected);
    assert_eq!(column_image(2, 2, 1), expected);
}

#[test]
fn strategies_agree_byte_for_byte() {
    for &(w, h) in &[(1u32, 1u32), (7, 5), (13, 3), (64, 9)] {
        let naive = naive_image(w, h);
        assert_eq!(row_image(w, h), naive);
        for workers in 1..10 {
            assert_eq!(column_image(w, h, workers), naive);
        }
    }
}

#[test]
fn column_bands_split_evenly() {
    assert_eq!(column_bands(8, 4), vec![(0, 2), (2, 4), (4, 6), (6, 8)]);
}

#[test]
fn column_bands_last_takes_remainder() {
    assert_eq!(column_bands(7, 3), vec![(0, 2), (2, 4), (4, 7)]);
    assert_eq!(column_bands(11, 4), vec![(0, 2), (2, 4), (4, 6), (6, 11)]);
}

#[test]
fn column_bands_never_outnumber_columns() {
    assert_eq!(column_bands(2, 8), vec![(0, 1), (1, 2)]);
    assert_eq!(column_bands(1, 16), vec![(0, 1)]);
}

#[test]
fn odd_width_renders_every_column_once() {
    for width in [1u32, 3, 7, 9, 101, 333] {
        for workers in 1..17u32 {
            let bands = column_bands(width, workers);
            let mut seen = vec![0u32; width as usize];
            for &(start, end) in &bands {
                for x in start..end {
                    seen[x as usize] += 1;
                }
            }
            assert!(seen.iter().all(|&n| n == 1), "width {} workers {}", width, workers);
        }
    }
}

#[test]
fn column_worker_walks_columns_top_down() {
    let out = render_column_band(3, 5, 2, |x, y| (x as u8, y as u8, 7));
    assert_eq!(
        out,
        vec![
            (3, 0, (3, 0, 7)),
            (3, 1, (3, 1, 7)),
            (4, 0, (4, 0, 7)),
            (4, 1, (4, 1, 7)),
        ]
    );
    assert!(render_column_band(4, 4, 3, render_test_pixel).is_empty());
}

#[test]
fn store_pixel_writes_three_bytes() {
    let mut img = vec![0u8; 3 * 3 * 2];
    store_pixel(&mut img, 3, (2, 1, (10, 20, 30)));
    let mut expected = vec![0u8; 18];
    expected[15] = 10;
    expected[16] = 20;
    expected[17] = 30;
    assert_eq!(img, expected);
}

#[test]
fn naive_tile_leaves_other_pixels() {
    let ctx = RenderContext::new((), 1, 1, 1, 0, 3, 1);
    let mut img = vec![9u8; 3 * 2 * 3];
    render_naive(&ctx, &mut img, (3, 2), |x, y| (x as u8, y as u8, 1));
    assert_eq!(img, vec![9, 9, 9, 1, 0, 1, 2, 0, 1, 9, 9, 9, 9, 9, 9, 9, 9, 9]);
}

#[test]
fn render_row_fills_its_band() {
    let mut band = vec![0u8; 9];
    render_row(&mut band, 4, 3, |x, y| (x as u8, y as u8, 5));
    assert_eq!(band, vec![0, 4, 5, 1, 4, 5, 2, 4, 5]);
}

#[test]
fn render_context_keeps_settings() {
    let ctx = RenderContext::new("camera", 50, 10, 0, 0, 640, 480);
    assert_eq!(ctx.camera, "camera");
    assert_eq!(ctx.max_depth, 50);
    assert_eq!(ctx.samples, 10);
    assert_eq!((ctx.start_x, ctx.start_y, ctx.end_x, ctx.end_y), (0, 0, 640, 480));
}

#[test]
fn zero_width_or_height_is_a_buffer_size_error() {
    assert!(matches!(validate_render(10, 50, (0, 2), 0, 1), Err(RendererError::BufferSize)));
    assert!(matches!(validate_render(10, 50, (2, 0), 0, 1), Err(RendererError::BufferSize)));
    assert!(matches!(validate_render(10, 50, (0, 0), 0, 1), Err(RendererError::BufferSize)));
}

#[test]
fn oversized_image_is_a_buffer_size_error() {
    assert!(matches!(
        validate_render(1, 1, (4097, 1), 4097 * 3, 1),
        Err(RendererError::BufferSize)
    ));
    assert!(matches!(
        validate_render(1, 1, (1, 4097), 4097 * 3, 1),
        Err(RendererError::BufferSize)
    ));
    assert!(validate_render(1, 1, (4096, 4096), 4096 * 4096 * 3, 1).is_ok());
}

#[test]
fn wrong_buffer_length_is_a_buffer_size_error() {
    assert!(matches!(validate_render(1, 1, (2, 2), 11, 1), Err(RendererError::BufferSize)));
    assert!(matches!(validate_render(1, 1, (2, 2), 13, 1), Err(RendererError::BufferSize)));
}

#[test]
fn zero_samples_or_depth_is_an_invalid_parameter() {
    assert!(matches!(validate_render(0, 50, (2, 2), 12, 1), Err(RendererError::InvalidParameter)));
    assert!(matches!(validate_render(10, 0, (2, 2), 12, 1), Err(RendererError::InvalidParameter)));
    // parameters are tested before the dimensions
    assert!(matches!(validate_render(0, 0, (0, 0), 0, 0), Err(RendererError::InvalidParameter)));
}

#[test]
fn empty_scene_is_invalid() {
    assert!(matches!(validate_render(10, 50, (2, 2), 12, 0), Err(RendererError::InvalidScene)));
    assert!(matches!(validate_render(10, 50, (0, 2), 0, 0), Err(RendererError::BufferSize)));
}

#[test]
fn valid_render_inputs_pass() {
    assert!(validate_render(10, 50, (2, 2), 12, 1).is_ok());
    assert!(validate_render(1, 1, (1, 1), 3, 3).is_ok());
}

#[test]
fn strategies_of_backends() {
    assert_eq!(select_strategy(ComputeEnv::Naive), Strategy::Naive);
    assert_eq!(select_strategy(ComputeEnv::Multicore), Strategy::RowBands);
    assert_eq!(select_strategy(ComputeEnv::Cuda), Strategy::RowBands);
    assert_eq!(select_strategy(ComputeEnv::Opencl), Strategy::RowBands);
    assert_eq!(select_strategy(ComputeEnv::SimpleThreaded), Strategy::ColumnBands);
    assert!(falls_back(ComputeEnv::Cuda));
    assert!(falls_back(ComputeEnv::Opencl));
    assert!(!falls_back(ComputeEnv::Naive));
    assert!(!falls_back(ComputeEnv::Multicore));
    assert!(!falls_back(ComputeEnv::SimpleThreaded));
}

#[test]
fn backend_names() {
    assert_eq!(ComputeEnv::Naive.name(), "naive");
    assert_eq!(ComputeEnv::Multicore.name(), "multicore");
    assert_eq!(ComputeEnv::Cuda.name(), "cuda");
    assert_eq!(ComputeEnv::Opencl.name(), "opencl");
    assert_eq!(ComputeEnv::SimpleThreaded.name(), "simple_threaded");
}

#[test]
fn broken_channel_is_a_communication_error() {
    let e: ComputeError = std::sync::mpsc::RecvError.into();
    assert!(matches!(e, ComputeError::Communication(_)));
    let e: ComputeError = std::io::Error::new(std::io::ErrorKind::Other, "disk").into();
    assert!(matches!(e, ComputeError::IO(_)));
    let e = RendererError::ComputeError(ComputeError::ThreadPanicked);
    assert!(matches!(e, RendererError::ComputeError(ComputeError::ThreadPanicked)));
}

#[test]
fn buffer_len_of_images() {
    assert_eq!(buffer_len((2, 2)), 12);
    assert_eq!(buffer_len((1920, 1080)), 1920 * 1080 * 3);
    assert_eq!(buffer_len((4096, 4096)), 4096 * 4096 * 3);
    assert_eq!(buffer_len((0, 7)), 0);
    assert_eq!(buffer_len((4097, 1)), 0);
    assert_eq!(buffer_len((u32::MAX, 1080)), 0);
}
