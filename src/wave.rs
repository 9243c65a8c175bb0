use vstd::prelude::*;
use rayon::iter::{IndexedParallelIterator, IntoParallelIterator, IntoParallelRefMutIterator, ParallelIterator};
use crate::color::{Palette, band_color, fire_entry, fire_palette};
use crate::convolution::{Convolution, ConvolutionAdvanced, TickInput};

verus! {

/// Coordinate `x` of a side `dim` pixels long lies beyond the 2.5% margin at
/// both ends: `dim/40 < x < dim - dim/40` over the rationals.
pub open spec fn beyond_margin(x: int, dim: int) -> bool {
    x > dim / 40 && dim - x > dim / 40
}

/// Pixel `i` of a `width` by `height` frame lies inside the margin frame.
pub open spec fn in_frame(i: int, width: int, height: int) -> bool {
    beyond_margin(i % width, width) && beyond_margin(i / width, height)
}

/// A wave amplitude clamped into the palette range `[10, 254]`.
pub open spec fn wave_level(v: i32) -> u32 {
    if v < 10 {
        10
    } else if v > 254 {
        254
    } else {
        v as u32
    }
}

/// The amplitude buffer of one tick: the clamped wave inside the margin
/// frame, zero on the margin.
pub open spec fn wave_cells(wave: Seq<i32>, width: int, height: int) -> Seq<u32> {
    Seq::new(
        wave.len(),
        |i: int|
            if in_frame(i, width, height) {
                wave_level(wave[i])
            } else {
                0u32
            },
    )
}

/// A pixel after the palette pass: a non-zero cell paints its palette entry,
/// a zero cell leaves the pixel as it was.
pub open spec fn shade(pixel: u32, cell: u32, palette: Seq<u32>) -> u32 {
    if cell != 0 && cell < palette.len() {
        palette[cell as int]
    } else {
        pixel
    }
}

/// The frame after the palette pass over `cells`.
pub open spec fn shaded(before: Seq<u32>, cells: Seq<u32>, palette: Seq<u32>) -> Seq<u32> {
    Seq::new(before.len(), |i: int| shade(before[i], cells[i], palette))
}

/// One tick of a wave layer whose state is `cells` and `palette`.
pub open spec fn wave_step(
    next_cells: Seq<u32>,
    before: Seq<u32>,
    after: Seq<u32>,
    width: nat,
    height: nat,
    input: TickInput,
) -> bool {
    &&& next_cells == wave_cells(input.wave@, width as int, height as int)
    &&& after == shaded(before, next_cells, fire_palette())
}

/// Amplitude cell `i` of the frame, zero past the end of `wave`.
pub fn wave_cell(wave: &Vec<i32>, i: usize, width: usize, height: usize) -> (r: u32)
    requires
        width >= 1,
        height >= 1,
    ensures
        i < wave@.len() ==> r == wave_cells(wave@, width as int, height as int)[i as int],
        i >= wave@.len() ==> r == 0,
{
    if i >= wave.len() {
        return 0;
    }
    let x = i % width;
    let y = i / width;
    if x > width / 40 && width - x > width / 40 && y > height / 40 && y < height
        && height - y > height / 40 {
        let v = wave[i];
        if v < 10 {
            10
        } else if v > 254 {
            254
        } else {
            v as u32
        }
    } else {
        0
    }
}

/// Pixel `i` after the palette pass; a pixel past the end of `cells` is kept.
pub fn shade_at(pixel: u32, cells: &Vec<u32>, i: usize, palette: &Palette) -> (r: u32)
    ensures
        i < cells@.len() ==> r == shade(pixel, cells@[i as int], palette@),
        i >= cells@.len() ==> r == pixel,
{
    if i >= cells.len() {
        return pixel;
    }
    let cell = cells[i];
    if cell == 0 {
        return pixel;
    }
    match palette.get(cell as usize) {
        Some(c) => *c,
        None => pixel,
    }
}

/// Builds the three-band fire palette in order.
fn fire_palette_seq() -> (r: Palette)
    ensures
        r@ == fire_palette(),
{
    let mut palette = Palette::new();
    let mut band: u8 = 0;
    while band < 3
        invariant
            band <= 3,
            palette@.len() == band as int * 85,
            forall|j: int| 0 <= j < palette@.len() ==> palette@[j] == fire_entry(j),
        decreases 3 - band,
    {
        let mut k: u8 = 1;
        while k <= 85
            invariant
                band < 3,
                1 <= k <= 86,
                palette@.len() == band as int * 85 + k - 1,
                forall|j: int| 0 <= j < palette@.len() ==> palette@[j] == fire_entry(j),
            decreases 86 - k,
        {
            let c = band_color(band, k);
            palette.add_color(c);
            k += 1;
        }
        band += 1;
    }
    assert(palette@ =~= fire_palette());
    palette
}

/// Writes the amplitude buffer of one tick into `cells`.
fn fill_cells(cells: &mut Vec<u32>, wave: &Vec<i32>, width: usize, height: usize)
    requires
        width >= 1,
        height >= 1,
        old(cells)@.len() == wave@.len(),
    ensures
        final(cells)@ == wave_cells(wave@, width as int, height as int),
{
    let n = cells.len();
    let mut i: usize = 0;
    while i < n
        invariant
            n == cells@.len(),
            n == wave@.len(),
            i <= n,
            width >= 1,
            height >= 1,
            forall|j: int| 0 <= j < i ==> cells@[j] == wave_cells(wave@, width as int, height as int)[j],
        decreases n - i,
    {
        cells[i] = wave_cell(wave, i, width, height);
        i += 1;
    }
    assert(cells@ =~= wave_cells(wave@, width as int, height as int));
}

/// Paints the palette entry of every non-zero cell over `pixels`.
pub(crate) fn paint_cells(pixels: &mut Vec<u32>, cells: &Vec<u32>, palette: &Palette)
    requires
        old(pixels)@.len() == cells@.len(),
    ensures
        final(pixels)@ == shaded(old(pixels)@, cells@, palette@),
{
    let n = pixels.len();
    let mut i: usize = 0;
    while i < n
        invariant
            n == pixels@.len(),
            n == old(pixels)@.len(),
            n == cells@.len(),
            i <= n,
            forall|j: int| 0 <= j < i ==> pixels@[j] == shade(old(pixels)@[j], cells@[j], palette@),
            forall|j: int| i <= j < n ==> pixels@[j] == old(pixels)@[j],
        decreases n - i,
    {
        let p = pixels[i];
        pixels[i] = shade_at(p, cells, i, palette);
        i += 1;
    }
    assert(pixels@ =~= shaded(old(pixels)@, cells@, palette@));
}

/// Relies on rayon's indexed `collect` of a mapped inclusive range: one item per
/// value of `lo..=hi`, in the range's order.
#[verifier::external_body]
fn par_band(band: u8, lo: u8, hi: u8) -> (r: Vec<u32>)
    requires
        band < 3,
        1 <= lo <= hi <= 85,
    ensures
        r@.len() == hi - lo + 1,
        forall|j: int| 0 <= j < r@.len() ==> r@[j] == fire_entry(band as int * 85 + lo + j - 1),
{
    (lo..=hi).into_par_iter().map(|k| band_color(band, k)).collect()
}

/// Relies on rayon's `par_iter_mut().enumerate().for_each`: the closure runs
/// once on each element, with its index.
#[verifier::external_body]
fn par_fill_cells(cells: &mut Vec<u32>, wave: &Vec<i32>, width: usize, height: usize)
    requires
        width >= 1,
        height >= 1,
        old(cells)@.len() == wave@.len(),
    ensures
        final(cells)@ == wave_cells(wave@, width as int, height as int),
{
    cells.par_iter_mut().enumerate().for_each(|(i, c)| *c = wave_cell(wave, i, width, height));
}

/// Relies on rayon's `par_iter_mut().enumerate().for_each`: the closure runs
/// once on each element, with its index.
#[verifier::external_body]
fn par_paint_cells(pixels: &mut Vec<u32>, cells: &Vec<u32>, palette: &Palette)
    requires
        old(pixels)@.len() == cells@.len(),
    ensures
        final(pixels)@ == shaded(old(pixels)@, cells@, palette@),
{
    pixels.par_iter_mut().enumerate().for_each(|(i, p)| *p = shade_at(*p, cells, i, palette));
}

} // verus!

verus! {

/// Wave-field palette fire: each tick the wave amplitude, clamped into
/// `[10, 254]` inside a 2.5% margin frame, indexes the fire palette; the margin
/// and zero cells leave the frame untouched.
pub struct IdkConvolution {
    local_buffer: Vec<u32>,
    palette: Palette,
}

/// The wave-field palette fire computed with data-parallel passes; its results
/// are those of [`IdkConvolution`].
pub struct IdkParConvolution {
    local_buffer: Vec<u32>,
    palette: Palette,
}

impl IdkConvolution {
    /// The amplitude buffer.
    pub closed spec fn cells(&self) -> Seq<u32> {
        self.local_buffer@
    }

    /// The palette.
    pub closed spec fn colors(&self) -> Seq<u32> {
        self.palette@
    }

    /// A wave layer for a `width` by `height` frame, with a zero amplitude buffer.
    pub fn new(width: usize, height: usize) -> (r: Self)
        requires
            width * height <= usize::MAX,
        ensures
            r.cells() == Seq::new((width * height) as nat, |i: int| 0u32),
            r.colors() == fire_palette(),
    {
        let r = IdkConvolution { local_buffer: vec![0; width * height], palette: Self::gen_palette() };
        assert(r.cells() =~= Seq::new((width * height) as nat, |i: int| 0u32));
        r
    }

    /// The three-band fire palette, built band after band.
    pub fn gen_palette() -> (r: Palette)
        ensures
            r@ == fire_palette(),
    {
        fire_palette_seq()
    }

    /// Recomputes the amplitude buffer from this tick's wave field.
    fn calculation(&mut self, width: usize, height: usize, wave: &Vec<i32>)
        requires
            width >= 1,
            height >= 1,
            old(self).cells().len() == wave@.len(),
        ensures
            final(self).cells() == wave_cells(wave@, width as int, height as int),
            final(self).colors() == old(self).colors(),
    {
        fill_cells(&mut self.local_buffer, wave, width, height);
    }
}

impl Convolution for IdkConvolution {
    open spec fn fits(&self, width: nat, height: nat) -> bool {
        &&& self.cells().len() == width * height
        &&& self.colors() == fire_palette()
    }

    open spec fn step(
        &self,
        next: Self,
        before: Seq<u32>,
        after: Seq<u32>,
        width: nat,
        height: nat,
        input: TickInput,
    ) -> bool {
        &&& next.colors() == self.colors()
        &&& wave_step(next.cells(), before, after, width, height, input)
    }

    fn name(&self) -> &'static str {
        "RisingFire"
    }

    fn transform(&mut self, pixels: &mut Vec<u32>, width: usize, height: usize, input: &TickInput) {
        self.calculation(width, height, &input.wave);
        paint_cells(pixels, &self.local_buffer, &self.palette);
    }
}

impl ConvolutionAdvanced for IdkConvolution {
    open spec fn reset_from(&self, before: Self) -> bool {
        &&& self.cells() == Seq::new(before.cells().len(), |i: int| 0u32)
        &&& self.colors() == before.colors()
    }

    fn reset(&mut self) {
        self.local_buffer = vec![0; self.local_buffer.len()];
        assert(self.cells() =~= Seq::new(old(self).cells().len(), |i: int| 0u32));
    }
}

} // verus!

verus! {

impl IdkParConvolution {
    /// The amplitude buffer.
    pub closed spec fn cells(&self) -> Seq<u32> {
        self.local_buffer@
    }

    /// The palette.
    pub closed spec fn colors(&self) -> Seq<u32> {
        self.palette@
    }

    /// A data-parallel wave layer for a `width` by `height` frame, with a zero
    /// amplitude buffer.
    pub fn new(width: usize, height: usize) -> (r: Self)
        requires
            width * height <= usize::MAX,
        ensures
            r.cells() == Seq::new((width * height) as nat, |i: int| 0u32),
            r.colors() == fire_palette(),
    {
        let r = IdkParConvolution { local_buffer: vec![0; width * height], palette: Self::gen_palette() };
        assert(r.cells() =~= Seq::new((width * height) as nat, |i: int| 0u32));
        r
    }

    /// The three-band fire palette, each band computed in parallel and the
    /// bands appended in order: the same palette as the sequential build.
    pub fn gen_palette() -> (r: Palette)
        ensures
            r@ == fire_palette(),
    {
        let mut palette = Palette::new();
        let red_colors = par_band(0, 1, 85);
        let green_colors = par_band(1, 1, 85);
        let blue_colors = par_band(2, 1, 85);
        palette.add_colors(red_colors);
        palette.add_colors(green_colors);
        palette.add_colors(blue_colors);
        assert(palette@ =~= fire_palette());
        palette
    }

    /// Recomputes the amplitude buffer from this tick's wave field.
    fn calculation(&mut self, width: usize, height: usize, wave: &Vec<i32>)
        requires
            width >= 1,
            height >= 1,
            old(self).cells().len() == wave@.len(),
        ensures
            final(self).cells() == wave_cells(wave@, width as int, height as int),
            final(self).colors() == old(self).colors(),
    {
        par_fill_cells(&mut self.local_buffer, wave, width, height);
    }
}

impl Convolution for IdkParConvolution {
    open spec fn fits(&self, width: nat, height: nat) -> bool {
        &&& self.cells().len() == width * height
        &&& self.colors() == fire_palette()
    }

    open spec fn step(
        &self,
        next: Self,
        before: Seq<u32>,
        after: Seq<u32>,
        width: nat,
        height: nat,
        input: TickInput,
    ) -> bool {
        &&& next.colors() == self.colors()
        &&& wave_step(next.cells(), before, after, width, height, input)
    }

    fn name(&self) -> &'static str {
        "RisingFire"
    }

    fn transform(&mut self, pixels: &mut Vec<u32>, width: usize, height: usize, input: &TickInput) {
        self.calculation(width, height, &input.wave);
        par_paint_cells(pixels, &self.local_buffer, &self.palette);
    }
}

impl ConvolutionAdvanced for IdkParConvolution {
    open spec fn reset_from(&self, before: Self) -> bool {
        &&& self.cells() == Seq::new(before.cells().len(), |i: int| 0u32)
        &&& self.colors() == before.colors()
    }

    fn reset(&mut self) {
        self.local_buffer = vec![0; self.local_buffer.len()];
        assert(self.cells() =~= Seq::new(old(self).cells().len(), |i: int| 0u32));
    }
}

} // verus!

verus! {

/// In a tick of a wave layer, a pixel on the 2.5% margin keeps its color, and
/// a pixel inside the margin frame takes the palette entry of its clamped
/// amplitude, which lies in `[10, 254]`; a zero cell leaves its pixel as it was
/// and a non-zero cell paints its palette entry.
pub proof fn lemma_wave_tick(
    next_cells: Seq<u32>,
    before: Seq<u32>,
    after: Seq<u32>,
    width: nat,
    height: nat,
    input: TickInput,
    i: int,
)
    requires
        before.len() == width * height,
        input.wave@.len() == width * height,
        wave_step(next_cells, before, after, width, height, input),
        0 <= i < width * height,
    ensures
        !in_frame(i, width as int, height as int) ==> after[i] == before[i],
        in_frame(i, width as int, height as int) ==> {
            &&& 10 <= wave_level(input.wave@[i]) <= 254
            &&& after[i] == fire_entry(wave_level(input.wave@[i]) as int)
        },
        next_cells[i] == 0 ==> after[i] == before[i],
        next_cells[i] != 0 ==> after[i] == fire_palette()[next_cells[i] as int],
{
}

} // verus!
