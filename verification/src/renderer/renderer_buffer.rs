//! What every frame buffer offers, and the conversion of light to bytes.
use vstd::prelude::*;
use std::time::Instant;
use crate::scalar::Real;
use crate::scalar::ONE_RAW;
use crate::scalar::lemma_mul_share;
use crate::scalar::lemma_sqrt_share;

verus! {

/// Light in three channels: red, green and blue.
pub type RgbReal = (Real, Real, Real);

/// A pixel of a picture: red, green, blue and opacity.
pub type RgbaU8 = (u8, u8, u8, u8);

/// No light.
pub open spec fn dark() -> RgbReal {
    (Real { raw: 0 }, Real { raw: 0 }, Real { raw: 0 })
}

/// The sum of the light `a` and the light `b`, channel by channel.
pub open spec fn spec_lit(a: RgbReal, b: RgbReal) -> RgbReal {
    (a.0.add(b.0), a.1.add(b.1), a.2.add(b.2))
}

/// The sum of the light `a` and the light `b`, channel by channel.
#[verifier::when_used_as_spec(spec_lit)]
pub fn lit(a: RgbReal, b: RgbReal) -> (r: RgbReal)
    ensures
        r == spec_lit(a, b),
{
    (a.0 + b.0, a.1 + b.1, a.2 + b.2)
}

/// Values that can be set back to zero in place.
pub trait Zeroable {
    /// Whether this value is `before` with everything in it set to zero.
    spec fn is_zero_of(&self, before: &Self) -> bool;

    /// Sets everything in the value to zero.
    fn zero_memory(&mut self)
        ensures
            final(self).is_zero_of(old(self)),
    ;
}

impl Zeroable for Vec<RgbReal> {
    /// As long as `before`, and dark throughout.
    open spec fn is_zero_of(&self, before: &Self) -> bool {
        &&& self@.len() == before@.len()
        &&& forall|i: int| 0 <= i < self@.len() ==> self@[i] == dark()
    }

    fn zero_memory(&mut self) {
        let n = self.len();
        let mut i: usize = 0;
        while i < n
            invariant
                i <= n,
                self@.len() == n,
                forall|j: int| 0 <= j < i ==> self@[j] == dark(),
            decreases n - i,
        {
            self.set(i, (Real::zero(), Real::zero(), Real::zero()));
            i = i + 1;
        }
    }
}

/// `std::time::Instant`, a point in time of which nothing is known here.
#[verifier::external_type_specification]
#[verifier::external_body]
pub struct ExInstant(std::time::Instant);

/// A stopwatch with a name, started when it is made.
pub struct Timer<'a>(Instant, &'a str);

/// The present instant, by `std::time::Instant::now`. Nothing is claimed of
/// it.
#[verifier::external_body]
fn now() -> (r: Instant) {
    Instant::now()
}

impl<'a> Timer<'a> {
    /// The name of the stopwatch.
    pub closed spec fn name(&self) -> &'a str {
        self.1
    }

    /// A stopwatch named `id` that starts now.
    pub fn new(id: &'a str) -> (r: Timer<'a>)
        ensures
            r.name() == id,
    {
        Timer(now(), id)
    }

    /// The nanoseconds since the stopwatch was started, by
    /// `std::time::Instant::elapsed`. Nothing is claimed of their number.
    #[verifier::external_body]
    fn since_start(&self) -> (r: u128) {
        self.0.elapsed().as_nanos()
    }

    /// The nanoseconds since the stopwatch was started.
    pub fn elapsed_nanos(&self) -> (r: u128) {
        self.since_start()
    }

    /// The name of the stopwatch.
    pub fn id(&self) -> (r: &'a str)
        ensures
            r == self.name(),
    {
        self.1
    }
}

/// The number of pixels of a picture `width` wide and `height` high fits.
pub open spec fn fits(width: usize, height: usize) -> bool {
    width * height <= usize::MAX
}

/// A picture `width` wide and `height` high, black and opaque.
pub fn new_rgbau8_vec(width: usize, height: usize) -> (r: Vec<RgbaU8>)
    requires
        fits(width, height),
    ensures
        r@.len() == width * height,
        forall|i: int| 0 <= i < r@.len() ==> r@[i] == (0u8, 0u8, 0u8, 255u8),
{
    let n: usize = width * height;
    let mut img: Vec<RgbaU8> = Vec::with_capacity(n);
    let mut i: usize = 0;
    while i < n
        invariant
            i <= n,
            img@.len() == i,
            forall|j: int| 0 <= j < i ==> img@[j] == (0u8, 0u8, 0u8, 255u8),
        decreases n - i,
    {
        img.push((0u8, 0u8, 0u8, 255u8));
        i = i + 1;
    }
    img
}

/// The byte at `i` of the pixels `memory` laid out one after the other, four
/// bytes each: red, green, blue, opacity.
pub open spec fn byte_of(memory: Seq<RgbaU8>, i: int) -> u8 {
    let pixel = memory[i / 4];
    if i % 4 == 0 {
        pixel.0
    } else if i % 4 == 1 {
        pixel.1
    } else if i % 4 == 2 {
        pixel.2
    } else {
        pixel.3
    }
}

/// The pixels of `memory` laid out one after the other, four bytes each: red,
/// green, blue, opacity.
pub fn rgbau8_vec_to_u8_vec(memory: Vec<RgbaU8>) -> (r: Vec<u8>)
    requires
        memory@.len() * 4 <= usize::MAX,
    ensures
        r@.len() == memory@.len() * 4,
        forall|i: int| 0 <= i < r@.len() ==> r@[i] == byte_of(memory@, i),
{
    let n = memory.len();
    let mut bytes: Vec<u8> = Vec::with_capacity(n * 4);
    let mut i: usize = 0;
    while i < n
        invariant
            i <= n,
            n == memory@.len(),
            n * 4 <= usize::MAX,
            bytes@.len() == i * 4,
            forall|j: int| 0 <= j < bytes@.len() ==> bytes@[j] == byte_of(memory@, j),
        decreases n - i,
    {
        let pixel = memory[i];
        bytes.push(pixel.0);
        bytes.push(pixel.1);
        bytes.push(pixel.2);
        bytes.push(pixel.3);
        i = i + 1;
    }
    bytes
}

/// `x` kept between zero and one.
pub open spec fn clamp_share(x: Real) -> Real {
    if x@ < 0 {
        Real { raw: 0 }
    } else if x@ > ONE_RAW {
        Real { raw: ONE_RAW }
    } else {
        x
    }
}

/// The factor from the square root of a share of light to a byte: 255.999.
pub open spec fn byte_scale() -> Real {
    Real::spec_from_ratio(255999, 1000)
}

/// The value of the byte scale.
pub proof fn lemma_byte_scale()
    ensures
        byte_scale()@ == 1099507332808,
{
    assert(255999 * 0x1_0000_0000 == 1099507332808704int);
    assert(1000 * 0x1_0000_0000 == 4294967296000int);
    assert((1099507332808704int * 0x1_0000_0000) / 4294967296000int == 1099507332808);
}

/// The byte that shows the share `x` of light: the whole part of 255.999
/// times the square root of `x`, with `x` brought between zero and one first.
pub open spec fn spec_to_channel(x: Real) -> u8 {
    (byte_scale().mul(clamp_share(x).sqrt())@ / (ONE_RAW as int)) as u8
}

/// The byte that shows the share `x` of light: the whole part of 255.999
/// times the square root of `x`, with `x` brought between zero and one first.
#[verifier::when_used_as_spec(spec_to_channel)]
pub fn to_channel(x: Real) -> (r: u8)
    ensures
        r == spec_to_channel(x),
        r == byte_scale().mul(clamp_share(x).sqrt())@ / (ONE_RAW as int),
{
    let mut x = x;
    if x.lt(Real::zero()) {
        x = Real::zero();
    } else if x.gt(Real::one()) {
        x = Real::one();
    }
    let scaled = Real::from_ratio(255999, 1000) * x.sqrt();
    proof {
        lemma_byte_scale();
        lemma_sqrt_share(x);
        lemma_mul_share(byte_scale(), x.sqrt());
    }
    (scaled.raw / ONE_RAW) as u8
}

/// A frame buffer: it gathers samples of light pixel by pixel and shows them
/// as a picture.
pub trait RendererBuffer {
    /// The width of the picture, in pixels.
    spec fn spec_width(&self) -> usize;

    /// The height of the picture, in pixels.
    spec fn spec_height(&self) -> usize;

    /// Whether the buffer is in order: it holds what a buffer of its width and
    /// height holds.
    spec fn wf(&self) -> bool;

    /// Whether the buffer has room for one more pass.
    spec fn has_room(&self) -> bool;

    /// Whether `after` can be this buffer after one pass, whatever the
    /// samples were.
    spec fn may_follow(&self, after: &Self) -> bool;

    /// Whether `after` can be this buffer after one pass in which every
    /// sample taken for the pixel in a row and a column is one that `may`
    /// allows there.
    spec fn can_follow(&self, after: &Self, may: spec_fn(usize, usize, RgbReal) -> bool) -> bool;

    /// A pass whose samples are allowed by `may` is a pass whose samples are
    /// allowed by anything that allows at least as much.
    proof fn lemma_can_follow_weaker(
        &self,
        after: &Self,
        may: spec_fn(usize, usize, RgbReal) -> bool,
        weaker: spec_fn(usize, usize, RgbReal) -> bool,
    )
        requires
            self.can_follow(after, may),
            forall|row: usize, col: usize, sample: RgbReal| #[trigger]
                may(row, col, sample) ==> weaker(row, col, sample),
        ensures
            self.can_follow(after, weaker),
    ;

    /// Whether this buffer is `before` with nothing gathered.
    spec fn is_reset_of(&self, before: &Self) -> bool;

    /// The picture that the buffer shows.
    spec fn picture(&self) -> Seq<RgbaU8>;

    /// Makes one pass: takes new samples from `sampler`, which is called with
    /// the row and the column of a pixel, and adds them to what was gathered.
    /// Every sample taken is one that `sampler` can return for its pixel.
    fn sample_pixels<F: Fn(usize, usize) -> RgbReal + Send + Sync>(&mut self, sampler: F)
        requires
            old(self).wf(),
            old(self).has_room(),
            forall|row: usize, col: usize|
                row < old(self).spec_height() && col < old(self).spec_width() ==> call_requires(
                    sampler,
                    (row, col),
                ),
        ensures
            final(self).wf(),
            final(self).spec_width() == old(self).spec_width(),
            final(self).spec_height() == old(self).spec_height(),
            old(self).may_follow(final(self)),
            old(self).can_follow(
                final(self),
                |row: usize, col: usize, sample: RgbReal| call_ensures(sampler, (row, col), sample),
            ),
    ;

    /// The width of the picture, in pixels.
    fn width(&self) -> (r: usize)
        ensures
            r == self.spec_width(),
    ;

    /// The height of the picture, in pixels.
    fn height(&self) -> (r: usize)
        ensures
            r == self.spec_height(),
    ;

    /// Forgets everything that was gathered.
    fn reset(&mut self)
        requires
            old(self).wf(),
        ensures
            final(self).wf(),
            final(self).is_reset_of(old(self)),
    ;

    /// The picture as bytes: row by row from the top, four bytes for each
    /// pixel, the last of them 255.
    fn to_img(&self) -> (r: Vec<u8>)
        requires
            self.wf(),
        ensures
            self.picture().len() == self.spec_width() * self.spec_height(),
            r@.len() == 4 * self.picture().len(),
            forall|i: int| 0 <= i < r@.len() ==> r@[i] == byte_of(self.picture(), i),
            forall|p: int| 0 <= p < self.picture().len() ==> (#[trigger] self.picture()[p]).3 == 255,
    ;
}

} // verus!
