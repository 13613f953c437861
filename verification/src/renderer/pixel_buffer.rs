//! The plain frame buffer: every pass samples every pixel once.
use vstd::prelude::*;
use crate::scalar::Real;
use crate::renderer::renderer_buffer::RgbReal;
use crate::renderer::renderer_buffer::RgbaU8;
use crate::renderer::renderer_buffer::RendererBuffer;
use crate::renderer::renderer_buffer::Zeroable;
use crate::renderer::renderer_buffer::dark;
use crate::renderer::renderer_buffer::lit;
use crate::renderer::renderer_buffer::spec_lit;
use crate::renderer::renderer_buffer::new_rgbau8_vec;
use crate::renderer::renderer_buffer::rgbau8_vec_to_u8_vec;
use crate::renderer::renderer_buffer::to_channel;
use crate::renderer::renderer_buffer::spec_to_channel;

verus! {

/// Whether the bytes of a picture `width` wide and `height` high can be
/// counted: four for each pixel.
pub open spec fn fits_picture(width: usize, height: usize) -> bool {
    4 * (width * height) <= usize::MAX
}

/// Whether `after` can be the light gathered at the pixel in the row `row`
/// and the column `col` once a sample that `may` allows there has been added
/// to `before`.
pub open spec fn pixel_follows(
    may: spec_fn(usize, usize, RgbReal) -> bool,
    row: usize,
    col: usize,
    before: RgbReal,
    after: RgbReal,
) -> bool {
    exists|sample: RgbReal| #[trigger] may(row, col, sample) && after == spec_lit(before, sample)
}

/// The pixel that shows the light `sum` gathered in `samples_count` passes:
/// the mean, channel by channel, turned into bytes; black before the first
/// pass.
pub open spec fn shown(sum: RgbReal, samples_count: usize) -> RgbaU8 {
    if samples_count > 0 {
        let passes = Real::spec_from_usize(samples_count);
        (
            spec_to_channel(sum.0.div(passes)),
            spec_to_channel(sum.1.div(passes)),
            spec_to_channel(sum.2.div(passes)),
            255u8,
        )
    } else {
        (0u8, 0u8, 0u8, 255u8)
    }
}

/// Whether `after` holds what `before` held and one sample more for every
/// pixel, one that `may` allows at the pixel's row and column.
pub open spec fn pass_follows(
    may: spec_fn(usize, usize, RgbReal) -> bool,
    before: PixelBufferView,
    after: PixelBufferView,
) -> bool {
    &&& after.sums.len() == before.sums.len()
    &&& forall|i: int|
        0 <= i < before.sums.len() ==> pixel_follows(
            may,
            (i / (before.width as int)) as usize,
            (i % (before.width as int)) as usize,
            before.sums[i],
            #[trigger] after.sums[i],
        )
}

/// What a plain frame buffer holds.
pub struct PixelBufferView {
    /// The light gathered at each pixel, row by row.
    pub sums: Seq<RgbReal>,
    /// The number of passes made.
    pub samples_count: usize,
    pub width: usize,
    pub height: usize,
}

/// A frame buffer that samples every pixel once in every pass.
pub struct PixelBuffer {
    rbg_summed: Vec<RgbReal>,
    samples_count: usize,
    width: usize,
    height: usize,
}

impl View for PixelBuffer {
    type V = PixelBufferView;

    closed spec fn view(&self) -> PixelBufferView {
        PixelBufferView {
            sums: self.rbg_summed@,
            samples_count: self.samples_count,
            width: self.width,
            height: self.height,
        }
    }
}

impl PixelBuffer {
    /// An empty buffer for a picture `width` wide and `height` high.
    pub fn new(width: usize, height: usize) -> (r: PixelBuffer)
        requires
            fits_picture(width, height),
        ensures
            r.wf(),
            r@.width == width,
            r@.height == height,
            r@.samples_count == 0,
            r@.sums == Seq::new((width * height) as nat, |i: int| dark()),
    {
        let n: usize = width * height;
        let mut sums: Vec<RgbReal> = Vec::with_capacity(n);
        let mut i: usize = 0;
        while i < n
            invariant
                i <= n,
                sums@.len() == i,
                forall|j: int| 0 <= j < i ==> sums@[j] == dark(),
            decreases n - i,
        {
            sums.push((Real::zero(), Real::zero(), Real::zero()));
            i = i + 1;
        }
        assert(sums@ =~= Seq::new((width * height) as nat, |i: int| dark()));
        PixelBuffer { rbg_summed: sums, samples_count: 0, width, height }
    }

    /// The number of passes made.
    pub fn samples_count(&self) -> (r: usize)
        ensures
            r == self@.samples_count,
    {
        self.samples_count
    }

    /// The light gathered so far at the pixel in the row `row` and the column
    /// `col`.
    pub fn sum_at(&self, row: usize, col: usize) -> (r: RgbReal)
        requires
            self.wf(),
            row < self@.height,
            col < self@.width,
        ensures
            r == self@.sums[row * self@.width + col],
    {
        assert(row * self.width + col < self.width * self.height) by (nonlinear_arith)
            requires
                row < self.height,
                col < self.width,
        ;
        self.rbg_summed[row * self.width + col]
    }
}

impl RendererBuffer for PixelBuffer {
    open spec fn spec_width(&self) -> usize {
        self@.width
    }

    open spec fn spec_height(&self) -> usize {
        self@.height
    }

    /// There is a sum for every pixel, and the picture's bytes can be counted.
    open spec fn wf(&self) -> bool {
        &&& self@.sums.len() == self@.width * self@.height
        &&& fits_picture(self@.width, self@.height)
    }

    /// The count of passes can still grow.
    open spec fn has_room(&self) -> bool {
        self@.samples_count < usize::MAX
    }

    /// One pass more has been made.
    open spec fn may_follow(&self, after: &Self) -> bool {
        &&& after@.width == self@.width
        &&& after@.height == self@.height
        &&& after@.samples_count == self@.samples_count + 1
        &&& after@.sums.len() == self@.sums.len()
    }

    /// Every pixel has gathered one sample more, one that `may` allows.
    open spec fn can_follow(&self, after: &Self, may: spec_fn(usize, usize, RgbReal) -> bool) -> bool {
        pass_follows(may, self@, after@)
    }

    proof fn lemma_can_follow_weaker(
        &self,
        after: &Self,
        may: spec_fn(usize, usize, RgbReal) -> bool,
        weaker: spec_fn(usize, usize, RgbReal) -> bool,
    ) {
        assert forall|i: int| 0 <= i < self@.sums.len() implies pixel_follows(
            weaker,
            (i / (self@.width as int)) as usize,
            (i % (self@.width as int)) as usize,
            self@.sums[i],
            #[trigger] after@.sums[i],
        ) by {
            let row = (i / (self@.width as int)) as usize;
            let col = (i % (self@.width as int)) as usize;
            assert(pixel_follows(may, row, col, self@.sums[i], after@.sums[i]));
            let sample = choose|sample: RgbReal| #[trigger]
                may(row, col, sample) && after@.sums[i] == spec_lit(self@.sums[i], sample);
            assert(weaker(row, col, sample));
        }
    }

    /// No pass has been made and every sum is dark; the size is as before.
    open spec fn is_reset_of(&self, before: &Self) -> bool {
        &&& self@.width == before@.width
        &&& self@.height == before@.height
        &&& self@.samples_count == 0
        &&& self@.sums.len() == before@.sums.len()
        &&& forall|i: int| 0 <= i < self@.sums.len() ==> self@.sums[i] == dark()
    }

    /// Each pixel shows the mean of what was gathered at it.
    open spec fn picture(&self) -> Seq<RgbaU8> {
        Seq::new(self@.sums.len(), |i: int| shown(self@.sums[i], self@.samples_count))
    }

    fn sample_pixels<F: Fn(usize, usize) -> RgbReal + Send + Sync>(&mut self, sampler: F) {
        let w = self.width;
        let n = self.rbg_summed.len();
        let ghost before = self.rbg_summed@;
        let ghost may = |row: usize, col: usize, sample: RgbReal|
            call_ensures(sampler, (row, col), sample);
        let mut pixel_index: usize = 0;
        while pixel_index < n
            invariant
                pixel_index <= n,
                n == w * self.height,
                w == self.width,
                self.width == old(self).width,
                self.height == old(self).height,
                self.samples_count == old(self).samples_count,
                before == old(self).rbg_summed@,
                self.rbg_summed@.len() == n,
                before.len() == n,
                forall|row: usize, col: usize|
                    row < self.height && col < w ==> call_requires(sampler, (row, col)),
                forall|i: int|
                    0 <= i < pixel_index ==> pixel_follows(
                        may,
                        (i / (w as int)) as usize,
                        (i % (w as int)) as usize,
                        before[i],
                        #[trigger] self.rbg_summed@[i],
                    ),
                forall|i: int| pixel_index <= i < n ==> self.rbg_summed@[i] == before[i],
                may == |row: usize, col: usize, sample: RgbReal|
                    call_ensures(sampler, (row, col), sample),
            decreases n - pixel_index,
        {
            assert(w > 0 && pixel_index / w < self.height) by (nonlinear_arith)
                requires
                    pixel_index < n,
                    n == w * self.height,
            ;
            let sampled = sampler(pixel_index / w, pixel_index % w);
            assert(may(pixel_index / w, pixel_index % w, sampled));
            let sum = lit(self.rbg_summed[pixel_index], sampled);
            self.rbg_summed.set(pixel_index, sum);
            pixel_index = pixel_index + 1;
        }
        self.samples_count = self.samples_count + 1;
    }

    fn to_img(&self) -> (r: Vec<u8>) {
        let mut img = new_rgbau8_vec(self.width, self.height);
        let n = img.len();
        if self.samples_count > 0 {
            let sc = Real::from_usize(self.samples_count);
            let mut index: usize = 0;
            while index < n
                invariant
                    index <= n,
                    n == self.rbg_summed@.len(),
                    img@.len() == n,
                    self.samples_count > 0,
                    sc == Real::spec_from_usize(self.samples_count),
                    forall|i: int|
                        0 <= i < index ==> img@[i] == shown(
                            self.rbg_summed@[i],
                            self.samples_count,
                        ),
                decreases n - index,
            {
                let rgb_sum = self.rbg_summed[index];
                img.set(
                    index,
                    (
                        to_channel(rgb_sum.0 / sc),
                        to_channel(rgb_sum.1 / sc),
                        to_channel(rgb_sum.2 / sc),
                        255u8,
                    ),
                );
                index = index + 1;
            }
        }
        assert(img@ =~= self.picture());
        rgbau8_vec_to_u8_vec(img)
    }

    fn width(&self) -> (r: usize) {
        self.width
    }

    fn height(&self) -> (r: usize) {
        self.height
    }

    fn reset(&mut self) {
        self.samples_count = 0;
        self.rbg_summed.zero_memory();
    }
}

} // verus!
