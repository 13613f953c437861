//! The tiled frame buffer: the picture is cut into tiles of 16 by 16 pixels,
//! and a pass samples a tile again only while that still pays.
use vstd::prelude::*;
use vstd::arithmetic::div_mod::lemma_fundamental_div_mod;
use vstd::arithmetic::div_mod::lemma_fundamental_div_mod_converse;
use crate::scalar::Real;
use crate::scalar::ONE_RAW;
use crate::scalar::MAX_RAW;
use crate::random::random_fraction;
use crate::renderer::renderer_buffer::RgbReal;
use crate::renderer::renderer_buffer::RgbaU8;
use crate::renderer::renderer_buffer::RendererBuffer;
use crate::renderer::renderer_buffer::Zeroable;
use crate::renderer::renderer_buffer::Timer;
use crate::renderer::renderer_buffer::dark;
use crate::renderer::renderer_buffer::lit;
use crate::renderer::renderer_buffer::spec_lit;
use crate::renderer::renderer_buffer::new_rgbau8_vec;
use crate::renderer::renderer_buffer::rgbau8_vec_to_u8_vec;
use crate::renderer::renderer_buffer::to_channel;
use crate::renderer::renderer_buffer::spec_to_channel;
use crate::renderer::pixel_buffer::fits_picture;

verus! {

/// The width and the height of a tile, in pixels.
pub const PARTITION_WIDTH: usize = 16;

/// The number of pixels of a tile.
pub const PARTITION_SIZE: usize = 256;

/// The number of passes in which a tile is sampled whatever its error.
pub const WARM_UP: usize = 10;

/// The time that a pass should take, in nanoseconds: twelve milliseconds.
pub const TARGET_NANOS: i32 = 12000000;

/// The number of tiles side by side in a picture `width` wide.
pub open spec fn tiles_across(width: usize) -> int {
    width as int / 16
}

/// The number of tiles of a picture `width` wide and `height` high.
pub open spec fn tiles_in(width: usize, height: usize) -> int {
    (width as int / 16) * (height as int / 16)
}

/// The row in the picture of the pixel `k` of the tile `q`.
pub open spec fn tile_row(width: usize, q: int, k: int) -> int {
    (q / tiles_across(width)) * 16 + k / 16
}

/// The column in the picture of the pixel `k` of the tile `q`.
pub open spec fn tile_col(width: usize, q: int, k: int) -> int {
    (q % tiles_across(width)) * 16 + k % 16
}

/// The tile that holds the pixel in the row `row` and the column `col`.
pub open spec fn tile_of(width: usize, row: int, col: int) -> int {
    (row / 16) * tiles_across(width) + col / 16
}

/// The place in the buffer of the pixel in the row `row` and the column
/// `col`: the buffer holds tile after tile, each row by row.
pub open spec fn slot_of(width: usize, row: int, col: int) -> int {
    tile_of(width, row, col) * 256 + (row % 16) * 16 + col % 16
}

/// The pixel `k` of the tile `q` lies in the picture, and its place in the
/// buffer is the `k`-th of the tile's.
pub proof fn lemma_tile_pixel(width: usize, height: usize, q: int, k: int)
    requires
        width % 16 == 0,
        height % 16 == 0,
        0 <= q < tiles_in(width, height),
        0 <= k < 256,
    ensures
        0 <= tile_row(width, q, k) < height,
        0 <= tile_col(width, q, k) < width,
        tile_of(width, tile_row(width, q, k), tile_col(width, q, k)) == q,
        slot_of(width, tile_row(width, q, k), tile_col(width, q, k)) == q * 256 + k,
        0 <= q * 256 + k < width * height,
{
    let tw = tiles_across(width);
    let th = height as int / 16;
    assert(tw > 0 && th > 0) by (nonlinear_arith)
        requires
            0 <= q < tw * th,
            tw >= 0,
            th >= 0,
    ;
    lemma_fundamental_div_mod(q, tw);
    let a = q / tw;
    let b = q % tw;
    assert(0 <= a < th) by (nonlinear_arith)
        requires
            q == tw * a + b,
            0 <= b < tw,
            0 <= q < tw * th,
    ;
    let row = a * 16 + k / 16;
    let col = b * 16 + k % 16;
    assert(row / 16 == a && row % 16 == k / 16);
    assert(col / 16 == b && col % 16 == k % 16);
    assert(width == tw * 16);
    assert(height == th * 16);
    assert(a * tw + b == q) by (nonlinear_arith)
        requires
            q == tw * a + b,
    ;
    assert(q * 256 + k < (tw * 16) * (th * 16)) by (nonlinear_arith)
        requires
            0 <= q < tw * th,
            0 <= k < 256,
    ;
}

/// The pixel in the row `row` and the column `col` of the picture is a pixel
/// of its tile, and has its own place in the buffer.
pub proof fn lemma_pixel_tile(width: usize, height: usize, row: int, col: int)
    requires
        width % 16 == 0,
        height % 16 == 0,
        0 <= row < height,
        0 <= col < width,
    ensures
        0 <= tile_of(width, row, col) < tiles_in(width, height),
        0 <= slot_of(width, row, col) < width * height,
        tile_row(width, tile_of(width, row, col), (row % 16) * 16 + col % 16) == row,
        tile_col(width, tile_of(width, row, col), (row % 16) * 16 + col % 16) == col,
{
    let tw = tiles_across(width);
    let th = height as int / 16;
    let a = row / 16;
    let b = col / 16;
    assert(0 <= a < th && 0 <= b < tw);
    let q = a * tw + b;
    assert(0 <= q < tw * th) by (nonlinear_arith)
        requires
            q == a * tw + b,
            0 <= a < th,
            0 <= b < tw,
    ;
    lemma_fundamental_div_mod_converse(q, tw, a, b);
    let k = (row % 16) * 16 + col % 16;
    assert(k / 16 == row % 16 && k % 16 == col % 16);
    lemma_tile_pixel(width, height, q, k);
}

/// What the buffer keeps for one tile.
#[derive(Clone, Copy, Debug)]
pub struct Partition {
    /// The number of passes that sampled the tile.
    pub samples_count: usize,
    /// The sum, channel by channel, of what each sample was off the mean of
    /// its pixel.
    pub error_sums: RgbReal,
    /// The estimate of the tile's error.
    pub error: Real,
}

impl Partition {
    /// The tile of which nothing is known yet.
    pub open spec fn blank() -> Partition {
        Partition { samples_count: 0, error_sums: dark(), error: Real { raw: 0 } }
    }

    /// What a tile holds before its first sample.
    pub fn new() -> (r: Partition)
        ensures
            r == Partition::blank(),
    {
        Partition {
            samples_count: 0,
            error_sums: (Real::zero(), Real::zero(), Real::zero()),
            error: Real::zero(),
        }
    }

    /// Forgets everything about the tile.
    pub fn clear(&mut self)
        ensures
            *final(self) == Partition::blank(),
    {
        self.samples_count = 0;
        self.error_sums = (Real::zero(), Real::zero(), Real::zero());
        self.error = Real::zero();
    }

    /// Whether a pass samples the tile when it draws `draw` for it: during
    /// the warm-up always, after it where the tile's error is above `draw`
    /// times `min_error`.
    pub open spec fn spec_is_due(&self, min_error: Real, draw: Real) -> bool {
        self.samples_count <= WARM_UP || self.error@ > draw.mul(min_error)@
    }

    /// Whether a pass samples the tile when it draws `draw` for it.
    #[verifier::when_used_as_spec(spec_is_due)]
    pub fn is_due(&self, min_error: Real, draw: Real) -> (r: bool)
        ensures
            r == self.spec_is_due(min_error, draw),
    {
        self.samples_count <= WARM_UP || self.error.gt(draw * min_error)
    }

    /// The tile after a pass that left it out: its error has grown by a
    /// fiftieth.
    pub open spec fn spec_skipped(self) -> Partition {
        Partition { error: self.error.mul(Real::spec_from_ratio(102, 100)), ..self }
    }

    /// The tile after a pass that left it out: its error has grown by a
    /// fiftieth, so that a tile left out long enough comes up again.
    #[verifier::when_used_as_spec(spec_skipped)]
    pub fn skipped(self) -> (r: Partition)
        ensures
            r == self.spec_skipped(),
    {
        Partition { error: self.error * Real::from_ratio(102, 100), ..self }
    }
}

/// The light gathered at the pixel `k` of the tile `q`.
pub open spec fn gathered(pixels: Seq<RgbReal>, q: int, k: int) -> RgbReal {
    pixels[q * 256 + k]
}

/// What the sample `sample` is off the mean of its pixel, whose sum over
/// `passes` passes is `sum`: channel by channel, the mean minus the sample.
pub open spec fn spec_deviation(sum: RgbReal, sample: RgbReal, passes: Real) -> RgbReal {
    (
        sum.0.div(passes).sub(sample.0),
        sum.1.div(passes).sub(sample.1),
        sum.2.div(passes).sub(sample.2),
    )
}

/// What the sample `sample` is off the mean of its pixel.
#[verifier::when_used_as_spec(spec_deviation)]
pub fn deviation(sum: RgbReal, sample: RgbReal, passes: Real) -> (r: RgbReal)
    ensures
        r == spec_deviation(sum, sample, passes),
{
    (sum.0 / passes - sample.0, sum.1 / passes - sample.1, sum.2 / passes - sample.2)
}

/// The error sums of the tile `q` after the first `n` of the samples
/// `samples` have been added to its pixels in `pixels`; `start` is what the
/// error sums were before, and `passes` the number of passes with this one.
pub open spec fn error_sums_after(
    pixels: Seq<RgbReal>,
    q: int,
    samples: Seq<RgbReal>,
    passes: Real,
    start: RgbReal,
    n: int,
) -> RgbReal
    decreases n,
{
    if n <= 0 {
        start
    } else {
        spec_lit(
            error_sums_after(pixels, q, samples, passes, start, n - 1),
            spec_deviation(
                spec_lit(gathered(pixels, q, n - 1), samples[n - 1]),
                samples[n - 1],
                passes,
            ),
        )
    }
}

/// The error sums after `n` samples depend on the first `n` samples only.
pub proof fn lemma_error_sums_prefix(
    pixels: Seq<RgbReal>,
    q: int,
    samples: Seq<RgbReal>,
    more: Seq<RgbReal>,
    passes: Real,
    start: RgbReal,
    n: int,
)
    requires
        n <= samples.len() <= more.len(),
        forall|j: int| 0 <= j < samples.len() ==> samples[j] == more[j],
    ensures
        error_sums_after(pixels, q, samples, passes, start, n) == error_sums_after(
            pixels,
            q,
            more,
            passes,
            start,
            n,
        ),
    decreases n,
{
    if n > 0 {
        lemma_error_sums_prefix(pixels, q, samples, more, passes, start, n - 1);
    }
}

/// The estimate of a tile's error from its error sums after `passes` passes:
/// the sum of the three sums' distances from zero, divided by the number of
/// passes and by three times the number of the tile's pixels.
pub open spec fn spec_error_of(error_sums: RgbReal, passes: Real) -> Real {
    error_sums.0.abs().add(error_sums.1.abs()).add(error_sums.2.abs()).div(
        passes.mul(Real::spec_from_int(768)),
    )
}

/// The estimate of a tile's error from its error sums after `passes` passes.
#[verifier::when_used_as_spec(spec_error_of)]
pub fn error_of(error_sums: RgbReal, passes: Real) -> (r: Real)
    ensures
        r == spec_error_of(error_sums, passes),
{
    let error_div = Real::from_int(768);
    (error_sums.0.abs() + error_sums.1.abs() + error_sums.2.abs()) / (passes * error_div)
}

/// The threshold for the next pass, from the threshold `min_error` of a pass
/// that took `elapsed_nanos` nanoseconds: a fifth of the threshold times the
/// share of the target time that the pass took, plus four fifths of the
/// threshold itself.
pub open spec fn spec_next_min_error(min_error: Real, elapsed_nanos: u128, target_time: Real) -> Real {
    let elapsed = Real {
        raw: if elapsed_nanos > 0x7fff_ffff {
            MAX_RAW
        } else {
            (elapsed_nanos * ONE_RAW) as i64
        },
    };
    min_error.mul(elapsed.div(target_time)).mul(Real::spec_from_ratio(2, 10)).add(
        min_error.mul(Real::spec_from_ratio(8, 10)),
    )
}

/// The threshold for the next pass, from the threshold `min_error` of a pass
/// that took `elapsed_nanos` nanoseconds: it moves a fifth of the way toward
/// what would have met the target time.
#[verifier::when_used_as_spec(spec_next_min_error)]
pub fn next_min_error(min_error: Real, elapsed_nanos: u128, target_time: Real) -> (r: Real)
    ensures
        r == spec_next_min_error(min_error, elapsed_nanos, target_time),
{
    let elapsed = if elapsed_nanos > 0x7fff_ffff {
        Real::infinity()
    } else {
        Real::from_raw((elapsed_nanos as i64) * ONE_RAW)
    };
    let time_error = elapsed / target_time;
    min_error * time_error * Real::from_ratio(2, 10) + min_error * Real::from_ratio(8, 10)
}

/// What a tiled frame buffer holds.
pub struct PartitionedBufferView {
    /// The light gathered at each pixel, tile after tile, each row by row.
    pub pixels: Seq<RgbReal>,
    /// What is kept for each tile, row of tiles by row of tiles.
    pub partitions: Seq<Partition>,
    pub width: usize,
    pub height: usize,
    /// The threshold that a tile's error is held against.
    pub min_error: Real,
    /// The time that a pass should take, in nanoseconds.
    pub target_time: Real,
    /// Whether the picture shows the tiles' errors in its red channel.
    pub debug_error: bool,
    /// The number of tiles that the last pass sampled.
    pub total_partitions_processed: u32,
}

impl PartitionedBufferView {
    /// Whether the buffer holds what a buffer of its width and height holds.
    pub open spec fn wf(self) -> bool {
        &&& self.width % 16 == 0
        &&& self.height % 16 == 0
        &&& fits_picture(self.width, self.height)
        &&& self.pixels.len() == self.width * self.height
        &&& self.partitions.len() == tiles_in(self.width, self.height)
        &&& self.partitions.len() <= u32::MAX
    }

    /// Whether `after` counts, for each tile, as many passes as this buffer or
    /// one more, and has the size of this buffer.
    pub open spec fn counts_follow(self, after: PartitionedBufferView) -> bool {
        &&& after.width == self.width
        &&& after.height == self.height
        &&& after.partitions.len() == self.partitions.len()
        &&& forall|q: int|
            0 <= q < self.partitions.len() ==> {
                ||| (#[trigger] after.partitions[q]).samples_count == self.partitions[q].samples_count
                ||| after.partitions[q].samples_count == self.partitions[q].samples_count + 1
            }
    }

    /// Whether nothing has been gathered: every sum is dark and every tile
    /// blank.
    pub open spec fn is_blank(self) -> bool {
        &&& forall|i: int| 0 <= i < self.pixels.len() ==> self.pixels[i] == dark()
        &&& forall|q: int| 0 <= q < self.partitions.len() ==> self.partitions[q] == Partition::blank()
    }

    /// The number of passes of the tile `q` with the next one, as a number.
    pub open spec fn passes(self, q: int) -> Real {
        Real::spec_from_usize((self.partitions[q].samples_count + 1) as usize)
    }

    /// The tile `q` after a pass that took the samples `samples` for it.
    pub open spec fn resampled(self, q: int, samples: Seq<RgbReal>) -> Partition {
        let error_sums = error_sums_after(
            self.pixels,
            q,
            samples,
            self.passes(q),
            self.partitions[q].error_sums,
            256,
        );
        Partition {
            samples_count: (self.partitions[q].samples_count + 1) as usize,
            error_sums,
            error: spec_error_of(error_sums, self.passes(q)),
        }
    }

    /// The pixel of the picture in the row `row` and the column `col`: the
    /// mean of what was gathered at it over the passes of its tile, turned
    /// into bytes; in its red channel 300 times the tile's error instead, but
    /// no more than one, where the errors are to be shown.
    pub open spec fn shown_at(self, row: int, col: int) -> RgbaU8 {
        let tile = self.partitions[tile_of(self.width, row, col)];
        let sum = self.pixels[slot_of(self.width, row, col)];
        let passes = Real::spec_from_usize(tile.samples_count);
        (
            spec_to_channel(
                if self.debug_error {
                    Real::spec_from_int(300).mul(tile.error).min(Real { raw: ONE_RAW })
                } else {
                    sum.0.div(passes)
                },
            ),
            spec_to_channel(sum.1.div(passes)),
            spec_to_channel(sum.2.div(passes)),
            255u8,
        )
    }
}

/// Whether `samples` can be the samples that a pass takes for the tile `q`:
/// one for each pixel of the tile, one that `may` allows at the pixel's row
/// and column in the picture.
pub open spec fn samples_fit(
    may: spec_fn(usize, usize, RgbReal) -> bool,
    width: usize,
    q: int,
    samples: Seq<RgbReal>,
) -> bool {
    &&& samples.len() == 256
    &&& forall|k: int|
        0 <= k < 256 ==> may(
            tile_row(width, q, k) as usize,
            tile_col(width, q, k) as usize,
            #[trigger] samples[k],
        )
}

/// Whether, in `after`, the tile `q` is what a pass whose samples `may`
/// allows can make of it in `before`. Either the pass sampled the tile, which it can do where
/// the tile is due for some draw: then there are samples that fit, each pixel
/// of the tile has gathered its sample, and the tile's count, error sums and
/// error are those after these samples. Or the pass left the tile out, which
/// it can do where the tile is not due for some draw: then the tile's pixels
/// are as before and its error has grown.
pub open spec fn tile_follows(
    may: spec_fn(usize, usize, RgbReal) -> bool,
    before: PartitionedBufferView,
    q: int,
    after: PartitionedBufferView,
) -> bool {
    ||| {
        &&& exists|draw: Real|
            0 <= draw@ < ONE_RAW && #[trigger] before.partitions[q].spec_is_due(before.min_error, draw)
        &&& exists|samples: Seq<RgbReal>|
            {
                &&& #[trigger] samples_fit(may, before.width, q, samples)
                &&& after.partitions[q] == before.resampled(q, samples)
                &&& forall|k: int|
                    0 <= k < 256 ==> #[trigger] gathered(after.pixels, q, k) == spec_lit(
                        gathered(before.pixels, q, k),
                        samples[k],
                    )
            }
    }
    ||| {
        &&& exists|draw: Real|
            0 <= draw@ < ONE_RAW && !#[trigger] before.partitions[q].spec_is_due(
                before.min_error,
                draw,
            )
        &&& after.partitions[q] == before.partitions[q].spec_skipped()
        &&& forall|k: int|
            0 <= k < 256 ==> #[trigger] gathered(after.pixels, q, k) == gathered(
                before.pixels,
                q,
                k,
            )
    }
}

/// The number of the first `n` tiles that count one pass more in `after`
/// than in `before`.
pub open spec fn sampled_tiles(before: Seq<Partition>, after: Seq<Partition>, n: int) -> int
    decreases n,
{
    if n <= 0 {
        0
    } else if after[n - 1].samples_count == before[n - 1].samples_count + 1 {
        sampled_tiles(before, after, n - 1) + 1
    } else {
        sampled_tiles(before, after, n - 1)
    }
}

/// The number of sampled tiles among the first `n` depends on these tiles
/// only.
pub proof fn lemma_sampled_tiles_same(
    before: Seq<Partition>,
    after: Seq<Partition>,
    other: Seq<Partition>,
    n: int,
)
    requires
        forall|q: int| 0 <= q < n ==> #[trigger] after[q] == other[q],
    ensures
        sampled_tiles(before, after, n) == sampled_tiles(before, other, n),
    decreases n,
{
    if n > 0 {
        lemma_sampled_tiles_same(before, after, other, n - 1);
    }
}

/// Whether `after` can be the buffer `before` after one pass whose samples
/// `may` allows:
/// every tile is what the pass can make of it, the tiles that were sampled
/// have been counted, and the threshold is either
/// as before, where the first tile is still warming up, or the next one for
/// some duration of the pass.
pub open spec fn tiles_follow(
    may: spec_fn(usize, usize, RgbReal) -> bool,
    before: PartitionedBufferView,
    after: PartitionedBufferView,
) -> bool {
    &&& after.pixels.len() == before.pixels.len()
    &&& after.partitions.len() == before.partitions.len()
    &&& after.target_time == before.target_time
    &&& after.debug_error == before.debug_error
    &&& after.total_partitions_processed == sampled_tiles(
        before.partitions,
        after.partitions,
        before.partitions.len() as int,
    )
    &&& forall|q: int|
        0 <= q < before.partitions.len() ==> #[trigger] tile_follows(may, before, q, after)
    &&& if after.partitions.len() > 0 && after.partitions[0].samples_count > WARM_UP {
        exists|elapsed_nanos: u128|
            after.min_error == #[trigger] spec_next_min_error(
                before.min_error,
                elapsed_nanos,
                before.target_time,
            )
    } else {
        after.min_error == before.min_error
    }
}

/// A frame buffer that samples tile by tile, and a tile only while its error
/// is above a threshold that follows the time that the passes take.
pub struct PartitionedBuffer {
    pixels: Vec<RgbReal>,
    partitions: Vec<Partition>,
    width: usize,
    height: usize,
    min_error: Real,
    target_time: Real,
    debug_error: bool,
    total_partitions_processed: u32,
}

impl View for PartitionedBuffer {
    type V = PartitionedBufferView;

    closed spec fn view(&self) -> PartitionedBufferView {
        PartitionedBufferView {
            pixels: self.pixels@,
            partitions: self.partitions@,
            width: self.width,
            height: self.height,
            min_error: self.min_error,
            target_time: self.target_time,
            debug_error: self.debug_error,
            total_partitions_processed: self.total_partitions_processed,
        }
    }
}


/// Samples the tile `partition_index` once: takes a sample from `sampler` for
/// each of its pixels, adds it to the pixel's sum, and returns the tile's
/// error sums with what each sample was off the mean of its pixel.
fn sample_tile<F: Fn(usize, usize) -> RgbReal>(
    pixels: &mut Vec<RgbReal>,
    width: usize,
    height: usize,
    partition_index: usize,
    start: RgbReal,
    samples_now: Real,
    sampler: &F,
) -> (r: (RgbReal, Ghost<Seq<RgbReal>>))
    requires
        width % 16 == 0,
        height % 16 == 0,
        old(pixels)@.len() == width * height,
        partition_index < tiles_in(width, height),
        forall|row: usize, col: usize|
            row < height && col < width ==> call_requires(*sampler, (row, col)),
    ensures
        final(pixels)@.len() == old(pixels)@.len(),
        samples_fit(
            |row: usize, col: usize, sample: RgbReal| call_ensures(*sampler, (row, col), sample),
            width,
            partition_index as int,
            r.1@,
        ),
        r.0 == error_sums_after(
            old(pixels)@,
            partition_index as int,
            r.1@,
            samples_now,
            start,
            256,
        ),
        forall|k: int|
            0 <= k < 256 ==> #[trigger] gathered(final(pixels)@, partition_index as int, k)
                == spec_lit(gathered(old(pixels)@, partition_index as int, k), r.1@[k]),
        forall|i: int|
            0 <= i < old(pixels)@.len() && !(partition_index * 256 <= i < partition_index * 256
                + 256) ==> final(pixels)@[i] == old(pixels)@[i],
{
    let partions_width = width / PARTITION_WIDTH;
    let total = pixels.len();
    proof {
        lemma_tile_pixel(width, height, partition_index as int, 0);
        lemma_tile_pixel(width, height, partition_index as int, 255);
        assert(partition_index * 256 + 255 < total);
    }
    let buffer_x = (partition_index % partions_width) * PARTITION_WIDTH;
    let buffer_y = (partition_index / partions_width) * PARTITION_WIDTH;
    let base = partition_index * PARTITION_SIZE;
    let ghost before = pixels@;
    let ghost mut samples: Seq<RgbReal> = Seq::empty();
    let mut error_sums = start;
    let mut local_index: usize = 0;
    while local_index < PARTITION_SIZE
        invariant
            local_index <= 256,
            width % 16 == 0,
            height % 16 == 0,
            partition_index < tiles_in(width, height),
            partions_width == tiles_across(width),
            buffer_x == tile_col(width, partition_index as int, 0),
            buffer_y == tile_row(width, partition_index as int, 0),
            base == partition_index * 256,
            before.len() == width * height,
            pixels@.len() == before.len(),
            samples.len() == local_index,
            forall|row: usize, col: usize|
                row < height && col < width ==> call_requires(*sampler, (row, col)),
            forall|k: int|
                0 <= k < local_index ==> call_ensures(
                    *sampler,
                    (
                        tile_row(width, partition_index as int, k) as usize,
                        tile_col(width, partition_index as int, k) as usize,
                    ),
                    #[trigger] samples[k],
                ),
            forall|k: int|
                0 <= k < local_index ==> gathered(pixels@, partition_index as int, k) == spec_lit(
                    gathered(before, partition_index as int, k),
                    #[trigger] samples[k],
                ),
            forall|i: int|
                0 <= i < before.len() && !(base <= i < base + local_index) ==> pixels@[i]
                    == before[i],
            error_sums == error_sums_after(
                before,
                partition_index as int,
                samples,
                samples_now,
                start,
                local_index as int,
            ),
        decreases 256 - local_index,
    {
        proof {
            lemma_tile_pixel(width, height, partition_index as int, local_index as int);
        }
        let px = local_index % PARTITION_WIDTH;
        let py = local_index / PARTITION_WIDTH;
        let sampled_color = sampler(buffer_y + py, buffer_x + px);
        let color_sum = lit(pixels[base + local_index], sampled_color);
        pixels.set(base + local_index, color_sum);
        error_sums = lit(error_sums, deviation(color_sum, sampled_color, samples_now));
        proof {
            let grown = samples.push(sampled_color);
            lemma_error_sums_prefix(
                before,
                partition_index as int,
                samples,
                grown,
                samples_now,
                start,
                local_index as int,
            );
            samples = grown;
        }
        local_index = local_index + 1;
    }
    (error_sums, Ghost(samples))
}

impl PartitionedBuffer {
    /// An empty buffer for a picture `width` wide and `height` high, both
    /// multiples of the width of a tile.
    pub fn new(width: usize, height: usize) -> (r: PartitionedBuffer)
        requires
            width % 16 == 0,
            height % 16 == 0,
            fits_picture(width, height),
            tiles_in(width, height) <= u32::MAX,
        ensures
            r.wf(),
            r@.width == width,
            r@.height == height,
            r@.is_blank(),
            r@.min_error == Real::spec_from_ratio(1, 15300),
            r@.target_time == Real::spec_from_int(TARGET_NANOS),
            !r@.debug_error,
            r@.total_partitions_processed == 0,
    {
        assert((width / 16) * (height / 16) <= width * height) by (nonlinear_arith)
            requires
                width >= 0,
                height >= 0,
        ;
        let partitions_count = (width / PARTITION_WIDTH) * (height / PARTITION_WIDTH);
        let mut partitions: Vec<Partition> = Vec::with_capacity(partitions_count);
        let mut i: usize = 0;
        while i < partitions_count
            invariant
                i <= partitions_count,
                partitions@.len() == i,
                forall|q: int| 0 <= q < i ==> partitions@[q] == Partition::blank(),
            decreases partitions_count - i,
        {
            partitions.push(Partition::new());
            i = i + 1;
        }
        let n: usize = width * height;
        let mut pixels: Vec<RgbReal> = Vec::with_capacity(n);
        let mut j: usize = 0;
        while j < n
            invariant
                j <= n,
                pixels@.len() == j,
                forall|i: int| 0 <= i < j ==> pixels@[i] == dark(),
            decreases n - j,
        {
            pixels.push((Real::zero(), Real::zero(), Real::zero()));
            j = j + 1;
        }
        PartitionedBuffer {
            pixels,
            partitions,
            width,
            height,
            min_error: Real::from_ratio(1, 15300),
            target_time: Real::from_int(TARGET_NANOS),
            debug_error: false,
            total_partitions_processed: 0,
        }
    }

    /// The share of the tiles that the last pass sampled.
    pub fn ratio_processed(&self) -> (r: Real)
        ensures
            r == Real::spec_from_usize(self@.total_partitions_processed as usize).div(
                Real::spec_from_usize(self@.partitions.len() as usize),
            ),
    {
        Real::from_usize(self.total_partitions_processed as usize) / Real::from_usize(
            self.partitions.len(),
        )
    }

    /// Sets whether the picture shows the tiles' errors in its red channel.
    pub fn debug_error(&mut self, v: bool)
        ensures
            final(self)@ == (PartitionedBufferView { debug_error: v, ..old(self)@ }),
    {
        self.debug_error = v;
    }

    /// What is kept for the tile `q`.
    pub fn partition(&self, q: usize) -> (r: Partition)
        requires
            q < self@.partitions.len(),
        ensures
            r == self@.partitions[q as int],
    {
        self.partitions[q]
    }

    /// The number of tiles.
    pub fn partitions_count(&self) -> (r: usize)
        ensures
            r == self@.partitions.len(),
    {
        self.partitions.len()
    }

    /// The threshold that a tile's error is held against.
    pub fn min_error(&self) -> (r: Real)
        ensures
            r == self@.min_error,
    {
        self.min_error
    }
}


/// What a pass has made of a tile stays so while the tile is left alone.
pub proof fn lemma_tile_follows_frame(
    may: spec_fn(usize, usize, RgbReal) -> bool,
    before: PartitionedBufferView,
    q: int,
    mid: PartitionedBufferView,
    after: PartitionedBufferView,
)
    requires
        tile_follows(may, before, q, mid),
        after.partitions[q] == mid.partitions[q],
        forall|k: int|
            0 <= k < 256 ==> #[trigger] gathered(after.pixels, q, k) == gathered(mid.pixels, q, k),
    ensures
        tile_follows(may, before, q, after),
{
    if exists|samples: Seq<RgbReal>|
        {
            &&& #[trigger] samples_fit(may, before.width, q, samples)
            &&& mid.partitions[q] == before.resampled(q, samples)
            &&& forall|k: int|
                0 <= k < 256 ==> #[trigger] gathered(mid.pixels, q, k) == spec_lit(
                    gathered(before.pixels, q, k),
                    samples[k],
                )
        } {
        let samples = choose|samples: Seq<RgbReal>|
            {
                &&& #[trigger] samples_fit(may, before.width, q, samples)
                &&& mid.partitions[q] == before.resampled(q, samples)
                &&& forall|k: int|
                    0 <= k < 256 ==> #[trigger] gathered(mid.pixels, q, k) == spec_lit(
                        gathered(before.pixels, q, k),
                        samples[k],
                    )
            };
        assert forall|k: int| 0 <= k < 256 implies #[trigger] gathered(after.pixels, q, k)
            == spec_lit(gathered(before.pixels, q, k), samples[k]) by {
            assert(gathered(after.pixels, q, k) == gathered(mid.pixels, q, k));
        }
        assert(samples_fit(may, before.width, q, samples));
    } else {
        assert forall|k: int| 0 <= k < 256 implies #[trigger] gathered(after.pixels, q, k)
            == gathered(before.pixels, q, k) by {
            assert(gathered(after.pixels, q, k) == gathered(mid.pixels, q, k));
        }
    }
}

/// What a pass can make of a tile with samples that `may` allows, it can
/// make with samples that anything allows that allows at least as much.
pub proof fn lemma_tile_follows_weaker(
    may: spec_fn(usize, usize, RgbReal) -> bool,
    weaker: spec_fn(usize, usize, RgbReal) -> bool,
    before: PartitionedBufferView,
    q: int,
    after: PartitionedBufferView,
)
    requires
        tile_follows(may, before, q, after),
        forall|row: usize, col: usize, sample: RgbReal| #[trigger]
            may(row, col, sample) ==> weaker(row, col, sample),
    ensures
        tile_follows(weaker, before, q, after),
{
    if exists|samples: Seq<RgbReal>|
        {
            &&& #[trigger] samples_fit(may, before.width, q, samples)
            &&& after.partitions[q] == before.resampled(q, samples)
            &&& forall|k: int|
                0 <= k < 256 ==> #[trigger] gathered(after.pixels, q, k) == spec_lit(
                    gathered(before.pixels, q, k),
                    samples[k],
                )
        } {
        let samples = choose|samples: Seq<RgbReal>|
            {
                &&& #[trigger] samples_fit(may, before.width, q, samples)
                &&& after.partitions[q] == before.resampled(q, samples)
                &&& forall|k: int|
                    0 <= k < 256 ==> #[trigger] gathered(after.pixels, q, k) == spec_lit(
                        gathered(before.pixels, q, k),
                        samples[k],
                    )
            };
        assert forall|k: int| 0 <= k < 256 implies weaker(
            tile_row(before.width, q, k) as usize,
            tile_col(before.width, q, k) as usize,
            #[trigger] samples[k],
        ) by {
            assert(may(
                tile_row(before.width, q, k) as usize,
                tile_col(before.width, q, k) as usize,
                samples[k],
            ));
        }
        assert(samples_fit(weaker, before.width, q, samples));
    }
}

impl RendererBuffer for PartitionedBuffer {
    open spec fn spec_width(&self) -> usize {
        self@.width
    }

    open spec fn spec_height(&self) -> usize {
        self@.height
    }

    /// The size is a whole number of tiles, there is a sum for every pixel
    /// and an entry for every tile, and the picture's bytes can be counted.
    open spec fn wf(&self) -> bool {
        self@.wf()
    }

    /// The count of every tile can still grow.
    open spec fn has_room(&self) -> bool {
        forall|q: int|
            0 <= q < self@.partitions.len() ==> (#[trigger] self@.partitions[q]).samples_count
                < usize::MAX
    }

    /// Every tile counts as many passes as before, or one more.
    open spec fn may_follow(&self, after: &Self) -> bool {
        self@.counts_follow(after@)
    }

    /// Every tile is what a pass whose samples `may` allows can make of it.
    open spec fn can_follow(&self, after: &Self, may: spec_fn(usize, usize, RgbReal) -> bool) -> bool {
        tiles_follow(may, self@, after@)
    }

    proof fn lemma_can_follow_weaker(
        &self,
        after: &Self,
        may: spec_fn(usize, usize, RgbReal) -> bool,
        weaker: spec_fn(usize, usize, RgbReal) -> bool,
    ) {
        assert forall|q: int| 0 <= q < self@.partitions.len() implies #[trigger] tile_follows(
            weaker,
            self@,
            q,
            after@,
        ) by {
            lemma_tile_follows_weaker(may, weaker, self@, q, after@);
        }
    }

    /// Nothing is gathered; the size, the threshold, the target time and the
    /// choice of what to show are as before.
    open spec fn is_reset_of(&self, before: &Self) -> bool {
        &&& self@.width == before@.width
        &&& self@.height == before@.height
        &&& self@.min_error == before@.min_error
        &&& self@.target_time == before@.target_time
        &&& self@.debug_error == before@.debug_error
        &&& self@.is_blank()
    }

    /// Each pixel shows the mean of what was gathered at it over the passes
    /// of its tile.
    open spec fn picture(&self) -> Seq<RgbaU8> {
        Seq::new(
            (self@.width * self@.height) as nat,
            |i: int| self@.shown_at(i / (self@.width as int), i % (self@.width as int)),
        )
    }

    fn sample_pixels<F: Fn(usize, usize) -> RgbReal + Send + Sync>(&mut self, sampler: F) {
        let ghost may = |row: usize, col: usize, sample: RgbReal|
            call_ensures(sampler, (row, col), sample);
        let timer = Timer::new("sample_pixels");
        let min_error = self.min_error;
        let n = self.partitions.len();
        let ghost before = self@;
        let mut processed: u32 = 0;
        let mut partition_index: usize = 0;
        while partition_index < n
            invariant
                partition_index <= n,
                processed <= partition_index,
                processed == sampled_tiles(
                    before.partitions,
                    self@.partitions,
                    partition_index as int,
                ),
                before.wf(),
                before == old(self)@,
                may == |row: usize, col: usize, sample: RgbReal|
                    call_ensures(sampler, (row, col), sample),
                n == before.partitions.len(),
                min_error == before.min_error,
                self@.width == before.width,
                self@.height == before.height,
                self@.min_error == before.min_error,
                self@.target_time == before.target_time,
                self@.debug_error == before.debug_error,
                self@.pixels.len() == before.pixels.len(),
                self@.partitions.len() == before.partitions.len(),
                forall|q: int|
                    0 <= q < n ==> (#[trigger] before.partitions[q]).samples_count < usize::MAX,
                forall|row: usize, col: usize|
                    row < before.height && col < before.width ==> call_requires(
                        sampler,
                        (row, col),
                    ),
                forall|q: int|
                    0 <= q < partition_index ==> #[trigger] tile_follows(
                        may,
                        before,
                        q,
                        self@,
                    ),
                forall|q: int|
                    0 <= q < partition_index ==> {
                        ||| (#[trigger] self@.partitions[q]).samples_count
                            == before.partitions[q].samples_count
                        ||| self@.partitions[q].samples_count == before.partitions[q].samples_count
                            + 1
                    },
                forall|q: int|
                    partition_index <= q < n ==> #[trigger] self@.partitions[q]
                        == before.partitions[q],
                forall|i: int|
                    partition_index * 256 <= i < before.pixels.len() ==> #[trigger] self@.pixels[i]
                        == before.pixels[i],
            decreases n - partition_index,
        {
            let ghost mid = self@;
            let partition = self.partitions[partition_index];
            proof {
                lemma_tile_pixel(before.width, before.height, partition_index as int, 0);
                lemma_tile_pixel(before.width, before.height, partition_index as int, 255);
                assert(partition == before.partitions[partition_index as int]);
            }
            let mut draw = Real::zero();
            let due = if partition.samples_count <= WARM_UP {
                true
            } else {
                draw = random_fraction();
                partition.is_due(min_error, draw)
            };
            if due {
                let count = partition.samples_count + 1;
                let samples_now = Real::from_usize(count);
                let (error_sums, samples) = sample_tile(
                    &mut self.pixels,
                    self.width,
                    self.height,
                    partition_index,
                    partition.error_sums,
                    samples_now,
                    &sampler,
                );
                let error = error_of(error_sums, samples_now);
                self.partitions.set(
                    partition_index,
                    Partition { samples_count: count, error_sums, error },
                );
                processed = processed + 1;
                proof {
                    let q = partition_index as int;
                    assert(before.partitions[q].spec_is_due(before.min_error, draw));
                    assert forall|k: int| 0 <= k < 256 implies gathered(mid.pixels, q, k)
                        == gathered(before.pixels, q, k) by {
                        assert(mid.pixels[q * 256 + k] == before.pixels[q * 256 + k]);
                    }
                    assert(error_sums_after(
                        mid.pixels,
                        q,
                        samples@,
                        samples_now,
                        partition.error_sums,
                        256,
                    ) == error_sums_after(
                        before.pixels,
                        q,
                        samples@,
                        samples_now,
                        partition.error_sums,
                        256,
                    )) by {
                        lemma_error_sums_same(
                            mid.pixels,
                            before.pixels,
                            q,
                            samples@,
                            samples_now,
                            partition.error_sums,
                            256,
                        );
                    }
                    assert(self@.partitions[q] == before.resampled(q, samples@));
                    assert(samples_fit(may, before.width, q, samples@));
                    assert(tile_follows(may, before, q, self@));
                }
            } else {
                self.partitions.set(partition_index, partition.skipped());
                proof {
                    let q = partition_index as int;
                    assert(!before.partitions[q].spec_is_due(before.min_error, draw));
                    assert forall|k: int| 0 <= k < 256 implies #[trigger] gathered(
                        self@.pixels,
                        q,
                        k,
                    ) == gathered(before.pixels, q, k) by {
                        assert(self@.pixels[q * 256 + k] == before.pixels[q * 256 + k]);
                    }
                    assert(tile_follows(may, before, q, self@));
                }
            }
            proof {
                let now = self@;
                lemma_sampled_tiles_same(
                    before.partitions,
                    mid.partitions,
                    now.partitions,
                    partition_index as int,
                );
                assert forall|q: int| 0 <= q < partition_index implies #[trigger] tile_follows(
                    may,
                    before,
                    q,
                    now,
                ) by {
                    assert(now.partitions[q] == mid.partitions[q]);
                    assert forall|k: int| 0 <= k < 256 implies #[trigger] gathered(
                        now.pixels,
                        q,
                        k,
                    ) == gathered(mid.pixels, q, k) by {
                        lemma_tile_pixel(before.width, before.height, q, k);
                        assert(now.pixels[q * 256 + k] == mid.pixels[q * 256 + k]);
                    }
                    lemma_tile_follows_frame(may, before, q, mid, now);
                }
            }
            partition_index = partition_index + 1;
        }
        let ghost done = self@;
        self.total_partitions_processed = processed;
        if n > 0 && self.partitions[0].samples_count > WARM_UP {
            let elapsed = timer.elapsed_nanos();
            self.min_error = next_min_error(self.min_error, elapsed, self.target_time);
            assert(self@.min_error == spec_next_min_error(
                before.min_error,
                elapsed,
                before.target_time,
            ));
        }
        proof {
            let now = self@;
            assert forall|q: int| 0 <= q < n implies #[trigger] tile_follows(
                may,
                before,
                q,
                now,
            ) by {
                lemma_tile_follows_frame(may, before, q, done, now);
            }
        }
    }

    fn to_img(&self) -> (r: Vec<u8>) {
        let partions_width = self.width / PARTITION_WIDTH;
        let mut img = new_rgbau8_vec(self.width, self.height);
        let w = self.width;
        let h = self.height;
        let mut row: usize = 0;
        while row < h
            invariant
                row <= h,
                self@.wf(),
                w == self.width,
                h == self.height,
                partions_width == tiles_across(w),
                img@.len() == w * h,
                forall|i: int|
                    0 <= i < img@.len() && i < row * w ==> #[trigger] img@[i] == self@.shown_at(
                        i / (w as int),
                        i % (w as int),
                    ),
            decreases h - row,
        {
            let mut col: usize = 0;
            while col < w
                invariant
                    col <= w,
                    row < h,
                    self@.wf(),
                    w == self.width,
                    h == self.height,
                    partions_width == tiles_across(w),
                    img@.len() == w * h,
                    forall|i: int|
                        0 <= i < img@.len() && i < row * w + col ==> #[trigger] img@[i]
                            == self@.shown_at(i / (w as int), i % (w as int)),
                decreases w - col,
            {
                proof {
                    lemma_pixel_tile(w, h, row as int, col as int);
                    assert(row * w + col < w * h) by (nonlinear_arith)
                        requires
                            row < h,
                            col < w,
                    ;
                    lemma_fundamental_div_mod_converse(
                        row * w + col,
                        w as int,
                        row as int,
                        col as int,
                    );
                }
                let partition_index = (row / PARTITION_WIDTH) * partions_width + col
                    / PARTITION_WIDTH;
                let partition = self.partitions[partition_index];
                let local = (row % PARTITION_WIDTH) * PARTITION_WIDTH + col % PARTITION_WIDTH;
                let buffer_color = self.pixels[partition_index * PARTITION_SIZE + local];
                let sc = Real::from_usize(partition.samples_count);
                let red = to_channel(
                    if self.debug_error {
                        (Real::from_int(300) * partition.error).min(Real::one())
                    } else {
                        buffer_color.0 / sc
                    },
                );
                let green = to_channel(buffer_color.1 / sc);
                let blue = to_channel(buffer_color.2 / sc);
                img.set(row * w + col, (red, green, blue, 255u8));
                col = col + 1;
            }
            assert(row * w + w == (row + 1) * w) by (nonlinear_arith);
            row = row + 1;
        }
        assert(h * w == w * h) by (nonlinear_arith);
        assert(img@ =~= self.picture());
        rgbau8_vec_to_u8_vec(img)
    }

    fn width(&self) -> (r: usize) {
        self.width
    }

    fn height(&self) -> (r: usize) {
        self.height
    }

    fn reset(&mut self) {
        self.pixels.zero_memory();
        let n = self.partitions.len();
        let mut q: usize = 0;
        while q < n
            invariant
                q <= n,
                n == self.partitions@.len(),
                self.partitions@.len() == old(self).partitions@.len(),
                self.width == old(self).width,
                self.height == old(self).height,
                self.min_error == old(self).min_error,
                self.target_time == old(self).target_time,
                self.debug_error == old(self).debug_error,
                self.pixels@.len() == old(self).pixels@.len(),
                forall|i: int| 0 <= i < self.pixels@.len() ==> self.pixels@[i] == dark(),
                forall|j: int| 0 <= j < q ==> self.partitions@[j] == Partition::blank(),
            decreases n - q,
        {
            self.partitions.set(q, Partition::new());
            q = q + 1;
        }
    }
}

/// The error sums do not depend on pixels outside the tile.
pub proof fn lemma_error_sums_same(
    pixels: Seq<RgbReal>,
    other: Seq<RgbReal>,
    q: int,
    samples: Seq<RgbReal>,
    passes: Real,
    start: RgbReal,
    n: int,
)
    requires
        forall|k: int| 0 <= k < n ==> #[trigger] gathered(pixels, q, k) == gathered(other, q, k),
    ensures
        error_sums_after(pixels, q, samples, passes, start, n) == error_sums_after(
            other,
            q,
            samples,
            passes,
            start,
            n,
        ),
    decreases n,
{
    if n > 0 {
        lemma_error_sums_same(pixels, other, q, samples, passes, start, n - 1);
    }
}

/// A tile cannot have been sampled in more passes than were made: after any
/// number of passes from a blank buffer, the count of every tile is at most
/// the number of passes, whatever the samples and the draws were.
pub proof fn lemma_counts_bounded(states: Seq<PartitionedBufferView>)
    requires
        states.len() >= 1,
        states[0].is_blank(),
        forall|i: int| 0 <= i < states.len() - 1 ==> states[i].counts_follow(#[trigger] states[i + 1]),
    ensures
        states.last().partitions.len() == states[0].partitions.len(),
        forall|q: int|
            0 <= q < states.last().partitions.len() ==> (#[trigger] states.last().partitions[q]).samples_count
                <= states.len() - 1,
    decreases states.len(),
{
    if states.len() > 1 {
        let shorter = states.drop_last();
        assert forall|i: int| 0 <= i < shorter.len() - 1 implies shorter[i].counts_follow(
            #[trigger] shorter[i + 1],
        ) by {
            assert(states[i].counts_follow(states[i + 1]));
        }
        lemma_counts_bounded(shorter);
        let i = states.len() - 2;
        assert(states[i].counts_follow(states[i + 1]));
        assert(shorter.last() == states[i]);
    }
}


} // verus!
