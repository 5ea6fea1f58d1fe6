use mandelbrot::buffer::allocate;
use mandelbrot::buffer::dealloc;
use mandelbrot::color::iteration_to_rgb;
use mandelbrot::render::calculate;
use mandelbrot::render::pixel_offsets;

/// The escape-time iteration for the point `x0 + i*y0`: how many
/// applications of `z <- z*z + c` complete before the squared modulus
/// leaves 4.0, capped at `max_iterations`.
fn escape_count(x0: f32, y0: f32, max_iterations: i32) -> i32 {
    let mut re: f32 = 0.0;
    let mut im: f32 = 0.0;
    let mut iteration: i32 = 0;
    while iteration < max_iterations {
        let re_temp: f32 = re * re - im * im + x0;
        im = 2.0 * re * im + y0;
        re = re_temp;
        if re * re + im * im > 4.0 {
            break;
        }
        iteration += 1;
    }
    iteration
}

/// The full pipeline: allocate a buffer of `width * height * 4` bytes, run
/// the escape-time iteration over the raster traversal, and fill the buffer.
fn render(width: i32, height: i32, max_iterations: i32, pos_x: f32, pos_y: f32, zoom: f32) -> Vec<u8> {
    let mut buf: Vec<u8> = allocate((width * height * 4) as usize);
    let offsets: Vec<(i32, i32)> = pixel_offsets(width, height);
    let half_zoom: f32 = zoom / 2.0;
    let zoomed_width: f32 = half_zoom * (width as f32);
    let zoomed_height: f32 = half_zoom * (height as f32);
    let mut counts: Vec<i32> = Vec::new();
    for &(x, y) in offsets.iter() {
        let x0: f32 = 1.5 * (x as f32) / zoomed_width + pos_x;
        let y0: f32 = (y as f32) / zoomed_height + pos_y;
        counts.push(escape_count(x0, y0, max_iterations));
    }
    calculate(&mut buf, width, height, max_iterations, &counts);
    buf
}

#[test]
fn test_name() {
    let width: i32 = 80;
    let height: i32 = 40;
    render(width, height, 100, -0.5, 0.0, 1.0);
}

#[test]
fn even_dimensions_fill_every_byte() {
    let width: i32 = 8;
    let height: i32 = 6;
    let buf: Vec<u8> = render(width, height, 10, -0.5, 0.0, 1.0);
    assert_eq!(buf.len(), (width * height * 4) as usize);
    let mut i: usize = 3;
    while i < buf.len() {
        assert_eq!(buf[i], 255);
        i += 4;
    }
}

#[test]
fn identical_inputs_render_identically() {
    let first: Vec<u8> = render(16, 12, 25, -0.7, 0.3, 2.0);
    let second: Vec<u8> = render(16, 12, 25, -0.7, 0.3, 2.0);
    assert_eq!(first, second);
}

#[test]
fn origin_stays_bounded_and_renders_white() {
    let buf: Vec<u8> = render(2, 2, 10, 0.0, 0.0, 1.0);
    // the pixel with centre offsets (0, 0) maps to the plane origin, which
    // never escapes; it is the fourth pixel of the 2x2 raster
    assert_eq!(&buf[12..16], &[255, 255, 255, 255]);
}

#[test]
fn far_point_escapes_quickly_and_renders_dark() {
    let count: i32 = escape_count(2.0, 2.0, 100);
    assert!(count <= 5);
    let rgb: [u8; 3] = iteration_to_rgb(count, 100);
    assert!(rgb[0] <= 12);
    assert!(rgb[1] <= 12);
    assert!(rgb[2] <= 12);
}

#[test]
fn release_leaves_allocation_usable() {
    let first: Vec<u8> = allocate(64);
    assert_eq!(first.len(), 64);
    dealloc(first);
    let second: Vec<u8> = allocate(128);
    assert_eq!(second.len(), 128);
    assert!(second.iter().all(|&b| b == 0));
}

#[test]
fn concrete_scenario_cardioid_pixel_is_white() {
    let buf: Vec<u8> = render(80, 40, 100, -0.5, 0.0, 1.0);
    assert_eq!(buf.len(), 12800);
    // centre offsets (0, 0) map to the plane point (-0.5, 0.0), inside the
    // main cardioid: raster index (0 + 20) * 80 + (0 + 40) = 1640
    let at: usize = 1640 * 4;
    assert_eq!(&buf[at..at + 4], &[255, 255, 255, 255]);
}

#[test]
fn unit_budget_renders_black_or_white_only() {
    let buf: Vec<u8> = render(8, 8, 1, -0.5, 0.0, 1.0);
    let mut k: usize = 0;
    while k < buf.len() {
        let gray: u8 = buf[k];
        assert!(gray == 0 || gray == 255);
        assert_eq!(buf[k + 1], gray);
        assert_eq!(buf[k + 2], gray);
        assert_eq!(buf[k + 3], 255);
        k += 4;
    }
}

#[test]
fn grayscale_is_truncated_ratio() {
    assert_eq!(iteration_to_rgb(50, 100), [127, 127, 127]);
    assert_eq!(iteration_to_rgb(0, 7), [0, 0, 0]);
    assert_eq!(iteration_to_rgb(7, 7), [255, 255, 255]);
    assert_eq!(iteration_to_rgb(1, 3), [85, 85, 85]);
}

#[test]
fn traversal_is_row_major_from_top_left() {
    let offsets: Vec<(i32, i32)> = pixel_offsets(4, 2);
    let expected: Vec<(i32, i32)> = vec![
        (-2, -1),
        (-1, -1),
        (0, -1),
        (1, -1),
        (-2, 0),
        (-1, 0),
        (0, 0),
        (1, 0),
    ];
    assert_eq!(offsets, expected);
}

#[test]
fn odd_dimensions_drop_the_extra_row_and_column() {
    let offsets: Vec<(i32, i32)> = pixel_offsets(3, 3);
    let expected: Vec<(i32, i32)> = vec![(-1, -1), (0, -1), (-1, 0), (0, 0)];
    assert_eq!(offsets, expected);
    // the buffer keeps the nominal size; the bytes past the covered pixels
    // stay as allocated
    let buf: Vec<u8> = render(3, 3, 10, -0.5, 0.0, 1.0);
    assert_eq!(buf.len(), 36);
    assert_eq!(buf[3], 255);
    assert_eq!(buf[15], 255);
    let mut i: usize = 16;
    while i < buf.len() {
        assert_eq!(buf[i], 0);
        i += 1;
    }
}

#[test]
fn fresh_allocation_is_zeroed() {
    let buf: Vec<u8> = allocate(5);
    assert_eq!(buf, vec![0, 0, 0, 0, 0]);
}
