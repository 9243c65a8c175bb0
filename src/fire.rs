use vstd::prelude::*;
use rand::Rng;
use crate::color::{Color, rgb_spec};
use crate::convolution::{Convolution, ConvolutionAdvanced, TickInput, filled};

verus! {

/// Intensities and heat are fixed-point numbers in thousandths: `SCALE` is 1.0.
pub const SCALE: u32 = 1000;

/// Relies on rand's `thread_rng` and `Rng::gen_range` over `0..bound`, which
/// returns a value in that range and panics only on an empty range.
#[verifier::external_body]
fn random_below(bound: u32) -> (r: u32)
    requires
        bound > 0,
    ensures
        r < bound,
{
    rand::thread_rng().gen_range(0..bound)
}

/// A value below `bound`, drawn at random; zero when `bound` is zero.
pub fn sample_below(bound: u32) -> (r: u32)
    ensures
        bound == 0 ==> r == 0,
        bound > 0 ==> r < bound,
{
    if bound == 0 {
        0
    } else {
        random_below(bound)
    }
}

/// Channel value of intensity `v` (in thousandths) at scale factor `k`,
/// saturated at 255.
pub open spec fn channel(v: u32, k: u32) -> u8 {
    if v as int * k as int / SCALE as int >= 255 {
        255u8
    } else {
        (v as int * k as int / SCALE as int) as u8
    }
}

/// Computes [`channel`].
pub fn scale_channel(v: u32, k: u32) -> (r: u8)
    ensures
        r == channel(v, k),
{
    let (a, b) = (v as u64, k as u64);
    assert(a * b <= 0xffff_ffff * 0xffff_ffff) by (nonlinear_arith)
        requires
            a <= 0xffff_ffff,
            b <= 0xffff_ffff,
    ;
    let p: u64 = a * b / SCALE as u64;
    if p >= 255 {
        255
    } else {
        p as u8
    }
}

/// Color of a noise-fire sample: warm hues at scale factors 255, 180 and 100.
pub open spec fn noise_color(s: u32) -> u32 {
    rgb_spec(channel(s, 255), channel(s, 180), channel(s, 100))
}

/// Color of a heat value: scale factors 255, 150 and 50.
pub open spec fn heat_color(h: u32) -> u32 {
    rgb_spec(channel(h, 255), channel(h, 150), channel(h, 50))
}

/// `c` is the color of some noise sample below `intensity` (of sample zero
/// when the intensity is zero).
pub open spec fn noise_pixel(c: u32, intensity: u32) -> bool {
    exists|s: u32| (s < intensity || s == 0) && #[trigger] noise_color(s) == c
}

/// Noise-intensity fire: each pixel gets the color of its own random sample
/// in `[0, intensity)`.
pub struct FireConvolution {
    /// Upper bound of the samples, in thousandths.
    pub intensity: u32,
}

impl Convolution for FireConvolution {
    open spec fn fits(&self, width: nat, height: nat) -> bool {
        true
    }

    open spec fn step(
        &self,
        next: Self,
        before: Seq<u32>,
        after: Seq<u32>,
        width: nat,
        height: nat,
        input: TickInput,
    ) -> bool {
        &&& next == *self
        &&& after.len() == before.len()
        &&& forall|i: int| 0 <= i < after.len() ==> noise_pixel(#[trigger] after[i], self.intensity)
    }

    fn name(&self) -> &'static str {
        "Fire"
    }

    fn transform(&mut self, pixels: &mut Vec<u32>, width: usize, height: usize, input: &TickInput) {
        let n = pixels.len();
        let mut i: usize = 0;
        while i < n
            invariant
                n == pixels@.len(),
                i <= n,
                forall|j: int| 0 <= j < i ==> noise_pixel(#[trigger] pixels@[j], self.intensity),
            decreases n - i,
        {
            let s = sample_below(self.intensity);
            let c = Color::rgb(scale_channel(s, 255), scale_channel(s, 180), scale_channel(s, 100));
            assert(noise_color(s) == c);
            pixels[i] = c;
            i += 1;
        }
    }
}

} // verus!

verus! {

/// Ceiling of the heat drawn on row `y` of `height` rows:
/// `base * (1 - falloff * y / height)`, with `falloff` in thousandths, and zero
/// where that is not positive.
pub open spec fn row_ceiling(base: u32, falloff: u32, y: int, height: int) -> u32 {
    let whole = SCALE as int * height;
    let drop = falloff as int * y;
    if drop >= whole {
        0
    } else {
        (base as int * (whole - drop) / whole) as u32
    }
}

/// A heat cell after one tick: unchanged under a zero ceiling, else raised by
/// less than the ceiling, saturating at `u32::MAX`.
pub open spec fn heat_grown(before: u32, after: u32, ceiling: u32) -> bool {
    if ceiling == 0 {
        after == before
    } else {
        before <= after && (after as int) < before as int + ceiling as int
    }
}

/// Computes [`row_ceiling`].
pub fn ceiling_at(base: u32, falloff: u32, y: usize, height: usize) -> (r: u32)
    requires
        height >= 1,
    ensures
        r == row_ceiling(base, falloff, y as int, height as int),
        r <= base,
{
    let (f, yy, hh) = (falloff as u128, y as u128, height as u128);
    assert(f * yy <= 0xffff_ffff * 0xffff_ffff_ffff_ffff && 1000 * hh <= 1000 * 0xffff_ffff_ffff_ffff)
        by (nonlinear_arith)
        requires
            f <= 0xffff_ffff,
            yy <= 0xffff_ffff_ffff_ffff,
            hh <= 0xffff_ffff_ffff_ffff,
    ;
    let whole: u128 = SCALE as u128 * hh;
    let drop: u128 = f * yy;
    if drop >= whole {
        0
    } else {
        let rest: u128 = whole - drop;
        let b: u128 = base as u128;
        assert(b * rest <= 0xffff_ffff * whole) by (nonlinear_arith)
            requires
                b <= 0xffff_ffff,
                rest <= whole,
                whole <= 0xffff_ffff_ffff_ffff_ffff,
        ;
        assert((b * rest) as int / whole as int <= b as int) by (nonlinear_arith)
            requires
                rest <= whole,
                whole > 0,
        ;
        (b * rest / whole) as u32
    }
}

/// Heat-accumulation fire: every tick each cell gains a random heat below its
/// row's ceiling, and the frame shows the heat of each cell.
pub struct HeatFireConvolution {
    base_intensity: u32,
    falloff: u32,
    heat_buffer: Vec<u32>,
}

impl HeatFireConvolution {
    /// The heat buffer, in thousandths.
    pub closed spec fn heat(&self) -> Seq<u32> {
        self.heat_buffer@
    }

    /// The heat drawn on the top row, in thousandths.
    pub closed spec fn base(&self) -> u32 {
        self.base_intensity
    }

    /// How far the ceiling falls from the top row to past the bottom row, in
    /// thousandths.
    pub closed spec fn fall(&self) -> u32 {
        self.falloff
    }

    /// A heat fire for a `width` by `height` frame, with no heat yet.
    pub fn new(base_intensity: u32, falloff: u32, width: usize, height: usize) -> (r: Self)
        requires
            width * height <= usize::MAX,
        ensures
            r.heat() == Seq::new((width * height) as nat, |i: int| 0u32),
            r.base() == base_intensity,
            r.fall() == falloff,
    {
        let r = HeatFireConvolution { base_intensity, falloff, heat_buffer: vec![0; width * height] };
        assert(r.heat() =~= Seq::new((width * height) as nat, |i: int| 0u32));
        r
    }

    /// A copy of the heat buffer.
    pub fn heat_values(&self) -> (r: Vec<u32>)
        ensures
            r@ == self.heat(),
    {
        let r = self.heat_buffer.clone();
        assert(r@ =~= self.heat());
        r
    }

    /// Adds one tick of random heat to every cell.
    fn update_heat_buffer(&mut self, width: usize, height: usize)
        requires
            width >= 1,
            height >= 1,
            old(self).heat().len() == width * height,
        ensures
            final(self).base() == old(self).base(),
            final(self).fall() == old(self).fall(),
            final(self).heat().len() == old(self).heat().len(),
            forall|i: int|
                0 <= i < old(self).heat().len() ==> heat_grown(
                    old(self).heat()[i],
                    #[trigger] final(self).heat()[i],
                    row_ceiling(old(self).base(), old(self).fall(), i / width as int, height as int),
                ),
    {
        let n = self.heat_buffer.len();
        let mut index: usize = 0;
        while index < n
            invariant
                n == self.heat_buffer@.len(),
                n == old(self).heat().len(),
                n == width * height,
                width >= 1,
                height >= 1,
                index <= n,
                self.base_intensity == old(self).base(),
                self.falloff == old(self).fall(),
                forall|i: int|
                    0 <= i < index ==> heat_grown(
                        old(self).heat()[i],
                        #[trigger] self.heat_buffer@[i],
                        row_ceiling(self.base_intensity, self.falloff, i / width as int, height as int),
                    ),
                forall|i: int| index <= i < n ==> self.heat_buffer@[i] == old(self).heat()[i],
            decreases n - index,
        {
            let y = index / width;
            let ceiling = ceiling_at(self.base_intensity, self.falloff, y, height);
            let flame = sample_below(ceiling);
            let h = self.heat_buffer[index];
            self.heat_buffer[index] = h.saturating_add(flame);
            index += 1;
        }
    }

    /// Writes the color of every heat cell into `pixels`.
    fn apply_heat_to_pixels(&self, pixels: &mut Vec<u32>)
        requires
            old(pixels)@.len() == self.heat().len(),
        ensures
            final(pixels)@ == Seq::new(self.heat().len(), |i: int| heat_color(self.heat()[i])),
    {
        let n = pixels.len();
        let mut i: usize = 0;
        while i < n
            invariant
                n == pixels@.len(),
                n == self.heat_buffer@.len(),
                i <= n,
                forall|j: int| 0 <= j < i ==> pixels@[j] == heat_color(self.heat_buffer@[j]),
            decreases n - i,
        {
            let heat = self.heat_buffer[i];
            pixels[i] = Color::rgb(scale_channel(heat, 255), scale_channel(heat, 150), scale_channel(heat, 50));
            i += 1;
        }
        assert(pixels@ =~= Seq::new(self.heat().len(), |i: int| heat_color(self.heat()[i])));
    }
}

impl Convolution for HeatFireConvolution {
    open spec fn fits(&self, width: nat, height: nat) -> bool {
        self.heat().len() == width * height
    }

    open spec fn step(
        &self,
        next: Self,
        before: Seq<u32>,
        after: Seq<u32>,
        width: nat,
        height: nat,
        input: TickInput,
    ) -> bool {
        &&& next.base() == self.base()
        &&& next.fall() == self.fall()
        &&& next.heat().len() == self.heat().len()
        &&& forall|i: int|
            0 <= i < self.heat().len() ==> heat_grown(
                self.heat()[i],
                #[trigger] next.heat()[i],
                row_ceiling(self.base(), self.fall(), i / width as int, height as int),
            )
        &&& after == Seq::new(next.heat().len(), |i: int| heat_color(next.heat()[i]))
    }

    fn name(&self) -> &'static str {
        "HeatFire"
    }

    fn transform(&mut self, pixels: &mut Vec<u32>, width: usize, height: usize, input: &TickInput) {
        self.update_heat_buffer(width, height);
        self.apply_heat_to_pixels(pixels);
    }
}

impl ConvolutionAdvanced for HeatFireConvolution {
    open spec fn reset_from(&self, before: Self) -> bool {
        &&& self.heat() == Seq::new(before.heat().len(), |i: int| 0u32)
        &&& self.base() == before.base()
        &&& self.fall() == before.fall()
    }

    fn reset(&mut self) {
        let n = self.heat_buffer.len();
        let mut i: usize = 0;
        while i < n
            invariant
                n == self.heat_buffer@.len(),
                i <= n,
                self.base_intensity == old(self).base(),
                self.falloff == old(self).fall(),
                n == old(self).heat().len(),
                forall|j: int| 0 <= j < i ==> self.heat_buffer@[j] == 0,
            decreases n - i,
        {
            self.heat_buffer[i] = 0;
            i += 1;
        }
        assert(self.heat() =~= Seq::new(old(self).heat().len(), |i: int| 0u32));
    }
}

/// A tick of a heat fire whose base intensity is zero adds no heat: every cell
/// keeps its value, so from an all-zero buffer (after `new` or `reset`) the
/// cells stay zero and the frame comes out black.
pub proof fn lemma_zero_base_adds_no_heat(
    fire: HeatFireConvolution,
    next: HeatFireConvolution,
    before: Seq<u32>,
    after: Seq<u32>,
    width: nat,
    height: nat,
    input: TickInput,
)
    requires
        fire.fits(width, height),
        fire.base() == 0,
        fire.step(next, before, after, width, height, input),
    ensures
        next.heat() == fire.heat(),
        fire.heat() == Seq::new(fire.heat().len(), |i: int| 0u32) ==> after == filled(0, fire.heat().len()),
{
    assert forall|i: int| 0 <= i < fire.heat().len() implies next.heat()[i] == fire.heat()[i] by {
        let y = i / width as int;
        if height == 0 {
            assert(width * height == 0) by (nonlinear_arith)
                requires
                    height == 0,
            ;
        }
        assert(row_ceiling(0, fire.fall(), y, height as int) == 0) by (nonlinear_arith)
            requires
                height >= 1,
        ;
    }
    assert(next.heat() =~= fire.heat());
    if fire.heat() == Seq::new(fire.heat().len(), |i: int| 0u32) {
        assert forall|i: int| 0 <= i < after.len() implies after[i] == 0u32 by {
            assert(next.heat()[i] == 0u32);
        }
        assert(after =~= filled(0, fire.heat().len()));
    }
}

} // verus!
