use pathtrace::renderer::partitioned_buffer::deviation;
use pathtrace::renderer::partitioned_buffer::error_of;
use pathtrace::renderer::partitioned_buffer::next_min_error;
use pathtrace::renderer::partitioned_buffer::Partition;
use pathtrace::renderer::renderer_buffer::lit;
use pathtrace::renderer::renderer_buffer::new_rgbau8_vec;
use pathtrace::renderer::renderer_buffer::rgbau8_vec_to_u8_vec;
use pathtrace::renderer::renderer_buffer::to_channel;
use pathtrace::renderer::renderer_buffer::RendererBuffer;
use pathtrace::renderer::renderer_buffer::RgbReal;
use pathtrace::renderer::renderer_buffer::Timer;
use pathtrace::renderer::renderer_buffer::Zeroable;
use pathtrace::renderer::PartitionedBuffer;
use pathtrace::renderer::PixelBuffer;
use pathtrace::scalar::Real;

/// The fixed-point number nearest to `x`.
fn bx(x: f64) -> Real {
    Real::from_raw((x * 4294967296.0).round() as i64)
}

/// The same light in every channel.
fn grey(x: f64) -> RgbReal {
    (bx(x), bx(x), bx(x))
}

/// A sample that tells the row in its red channel and the column in its
/// green channel, each as a share of sixty-four.
fn coordinates(row: usize, col: usize) -> RgbReal {
    let r = Real::from_usize(row) / Real::from_int(64);
    let c = Real::from_usize(col) / Real::from_int(64);
    (r * r, c * c, bx(0.0))
}

#[test]
fn light_turns_into_bytes() {
    assert_eq!(to_channel(bx(0.0)), 0);
    assert_eq!(to_channel(bx(1.0)), 255);
    assert_eq!(to_channel(bx(0.25)), 127);
    assert_eq!(to_channel(bx(0.0625)), 63);
    assert_eq!(to_channel(bx(-3.0)), 0);
    assert_eq!(to_channel(bx(7.0)), 255);
    assert_eq!(to_channel(Real::infinity()), 255);
    assert_eq!(to_channel(Real::from_raw(i64::MIN)), 0);
    let mut last = 0;
    let mut x = 0.0;
    while x <= 1.0 {
        let byte = to_channel(bx(x));
        assert!(byte >= last);
        assert_eq!(byte, (255.999 * x.sqrt()) as u8);
        last = byte;
        x += 1.0 / 64.0;
    }
}

#[test]
fn pictures_start_black_and_opaque() {
    let picture = new_rgbau8_vec(3, 2);
    assert_eq!(picture, vec![(0, 0, 0, 255); 6]);
    assert_eq!(new_rgbau8_vec(0, 5).len(), 0);
    let bytes = rgbau8_vec_to_u8_vec(vec![(1, 2, 3, 4), (5, 6, 7, 8)]);
    assert_eq!(bytes, vec![1, 2, 3, 4, 5, 6, 7, 8]);
    assert_eq!(rgbau8_vec_to_u8_vec(Vec::new()), Vec::<u8>::new());
}

#[test]
fn memory_is_zeroed_in_place() {
    let mut sums = vec![grey(0.5), grey(0.25), grey(1.0)];
    sums.zero_memory();
    assert_eq!(sums, vec![grey(0.0); 3]);
    assert_eq!(lit(grey(0.5), grey(0.25)), grey(0.75));
}

#[test]
fn a_stopwatch_runs() {
    let timer = Timer::new("pass");
    assert_eq!(timer.id(), "pass");
    let first = timer.elapsed_nanos();
    let second = timer.elapsed_nanos();
    assert!(second >= first);
}

#[test]
fn the_plain_buffer_shows_the_mean() {
    let mut buffer = PixelBuffer::new(4, 2);
    assert_eq!(buffer.width(), 4);
    assert_eq!(buffer.height(), 2);
    assert_eq!(buffer.samples_count(), 0);
    assert_eq!(buffer.to_img(), rgbau8_vec_to_u8_vec(new_rgbau8_vec(4, 2)));
    buffer.sample_pixels(|_, _| grey(0.5));
    buffer.sample_pixels(|_, _| grey(0.0));
    assert_eq!(buffer.samples_count(), 2);
    assert_eq!(buffer.sum_at(1, 3), grey(0.5));
    let picture = buffer.to_img();
    assert_eq!(picture.len(), 4 * 2 * 4);
    for pixel in picture.chunks(4) {
        assert_eq!(pixel, [127, 127, 127, 255]);
    }
    buffer.reset();
    assert_eq!(buffer.samples_count(), 0);
    assert_eq!(buffer.sum_at(1, 3), grey(0.0));
    assert_eq!(buffer.to_img(), rgbau8_vec_to_u8_vec(new_rgbau8_vec(4, 2)));
}

#[test]
fn the_plain_buffer_samples_each_pixel_at_its_place() {
    let mut buffer = PixelBuffer::new(5, 3);
    buffer.sample_pixels(coordinates);
    let picture = buffer.to_img();
    for row in 0..3 {
        for col in 0..5 {
            assert_eq!(buffer.sum_at(row, col), coordinates(row, col));
            let at = (row * 5 + col) * 4;
            assert_eq!(picture[at], to_channel(coordinates(row, col).0));
            assert_eq!(picture[at + 1], to_channel(coordinates(row, col).1));
            assert_eq!(picture[at + 2], 0);
            assert_eq!(picture[at + 3], 255);
        }
    }
}

#[test]
fn tiles_are_sampled_at_most_once_in_a_pass() {
    let mut buffer = PartitionedBuffer::new(48, 32);
    assert_eq!(buffer.partitions_count(), 6);
    assert_eq!(buffer.min_error(), Real::from_ratio(1, 15300));
    for q in 0..6 {
        assert_eq!(buffer.partition(q).samples_count, 0);
    }
    for pass in 1..=40 {
        buffer.sample_pixels(|_, _| grey(0.5));
        for q in 0..6 {
            let tile = buffer.partition(q);
            assert!(tile.samples_count <= pass);
            if pass <= 11 {
                assert_eq!(tile.samples_count, pass);
            } else {
                assert!(tile.samples_count >= 11);
            }
            assert!(tile.error.raw >= 0);
        }
    }
    buffer.reset();
    for q in 0..6 {
        let tile = buffer.partition(q);
        assert_eq!(tile.samples_count, 0);
        assert_eq!(tile.error, bx(0.0));
        assert_eq!(tile.error_sums, grey(0.0));
    }
    assert_eq!(buffer.to_img(), rgbau8_vec_to_u8_vec(new_rgbau8_vec(48, 32)));
}

#[test]
fn a_constant_picture_has_no_error() {
    let mut buffer = PartitionedBuffer::new(16, 16);
    for _ in 0..30 {
        buffer.sample_pixels(|_, _| grey(0.25));
    }
    let tile = buffer.partition(0);
    assert_eq!(tile.samples_count, 11);
    assert!(tile.error.raw < 64);
    assert_eq!(buffer.ratio_processed(), bx(0.0));
    for pixel in buffer.to_img().chunks(4) {
        assert_eq!(pixel, [127, 127, 127, 255]);
    }
}

#[test]
fn the_tiled_buffer_samples_each_pixel_at_its_place() {
    let mut buffer = PartitionedBuffer::new(48, 32);
    assert_eq!(buffer.width(), 48);
    assert_eq!(buffer.height(), 32);
    buffer.sample_pixels(coordinates);
    assert_eq!(buffer.ratio_processed(), bx(1.0));
    let picture = buffer.to_img();
    assert_eq!(picture.len(), 48 * 32 * 4);
    for row in 0..32 {
        for col in 0..48 {
            let at = (row * 48 + col) * 4;
            assert_eq!(picture[at], to_channel(coordinates(row, col).0));
            assert_eq!(picture[at + 1], to_channel(coordinates(row, col).1));
            assert_eq!(picture[at + 2], 0);
            assert_eq!(picture[at + 3], 255);
        }
    }
}

#[test]
fn errors_can_be_shown_in_red() {
    let mut buffer = PartitionedBuffer::new(16, 16);
    buffer.sample_pixels(|row, col| if (row + col) % 2 == 0 { grey(1.0) } else { grey(0.0) });
    buffer.sample_pixels(|row, col| if (row + col) % 2 == 0 { grey(0.0) } else { grey(1.0) });
    buffer.debug_error(true);
    let tile = buffer.partition(0);
    let red = to_channel((Real::from_int(300) * tile.error).min(Real::one()));
    for pixel in buffer.to_img().chunks(4) {
        assert_eq!(pixel, [red, 181, 181, 255]);
    }
    buffer.debug_error(false);
    for pixel in buffer.to_img().chunks(4) {
        assert_eq!(pixel, [181, 181, 181, 255]);
    }
}

#[test]
fn a_tile_is_due_while_it_warms_up_or_errs() {
    let mut tile = Partition::new();
    assert_eq!(tile.samples_count, 0);
    assert!(tile.is_due(bx(1.0), bx(0.999)));
    tile.samples_count = 10;
    assert!(tile.is_due(bx(1.0), bx(0.999)));
    tile.samples_count = 11;
    tile.error = bx(0.5);
    assert!(tile.is_due(bx(1.0), bx(0.25)));
    assert!(!tile.is_due(bx(1.0), bx(0.5)));
    assert!(!tile.is_due(bx(1.0), bx(0.75)));
    let left_out = tile.skipped();
    assert_eq!(left_out.samples_count, 11);
    assert_eq!(left_out.error, bx(0.5) * Real::from_ratio(102, 100));
    assert!(left_out.error > tile.error);
    tile.clear();
    assert_eq!(tile.samples_count, 0);
    assert_eq!(tile.error, bx(0.0));
}

#[test]
fn the_error_is_the_mean_deviation() {
    assert_eq!(deviation(grey(1.0), grey(0.25), bx(2.0)), grey(0.25));
    assert_eq!(
        error_of((bx(768.0), bx(-768.0), bx(0.0)), bx(2.0)),
        bx(1.0)
    );
    assert_eq!(error_of(grey(0.0), bx(5.0)), bx(0.0));
}

#[test]
fn the_threshold_follows_the_time() {
    let target = Real::from_int(12000000);
    let on_time = next_min_error(bx(1.0), 12000000, target);
    assert_eq!(on_time, bx(1.0) * Real::from_ratio(2, 10) + bx(1.0) * Real::from_ratio(8, 10));
    assert!((on_time.raw - bx(1.0).raw).abs() <= 2);
    let late = next_min_error(bx(1.0), 24000000, target);
    assert!((late.raw - bx(1.2).raw).abs() <= 4);
    let early = next_min_error(bx(1.0), 0, target);
    assert!((early.raw - bx(0.8).raw).abs() <= 4);
    assert_eq!(
        next_min_error(bx(1.0), u128::MAX, target),
        Real::infinity() / target * Real::from_ratio(2, 10) + Real::from_ratio(8, 10)
    );
}
