use vstd::prelude::*;
use crate::color::{Palette, fire_palette};
use crate::convolution::{Convolution, ConvolutionAdvanced, TickInput};
use crate::fire::sample_below;
use crate::wave::{shaded, paint_cells};
use crate::wave::IdkConvolution;

verus! {

/// Intensity of the cell at `p` after the cellular step: the weighted mean of
/// its left, own and right values (weights 10, 20, 10) and of the three cells
/// below them (weights 160, 320, 160), divided by `680 * 1.01`.
pub open spec fn cell_update(c: Seq<u32>, w: int, p: int) -> u32 {
    let sum = 10 * c[p - 1] + 20 * c[p] + 10 * c[p + 1] + 160 * c[p + w - 1] + 320 * c[p + w] + 160 * c[
        p + w + 1
    ];
    (sum * 100 / 68680) as u32
}

/// Last column reached in a row of a `w`-wide frame by the cellular step,
/// which updates columns `1..w-1`.
pub open spec fn row_end(w: int) -> int {
    if w >= 2 {
        w - 1
    } else {
        1
    }
}

/// The cells after the in-place cellular step has updated, in row-major order,
/// every interior cell of the rows above `y` and columns `1..x` of row `y`.
pub open spec fn relax_to(c: Seq<u32>, w: int, y: int, x: int) -> Seq<u32>
    decreases y, x,
{
    if y <= 0 && x <= 1 {
        c
    } else if x <= 1 {
        relax_to(c, w, y - 1, row_end(w))
    } else {
        let prev = relax_to(c, w, y, x - 1);
        let p = y * w + x - 1;
        prev.update(p, cell_update(prev, w, p))
    }
}

/// `seeded` is `c` with its bottom row redrawn in `[0, 255)`.
pub open spec fn reseeded(c: Seq<u32>, seeded: Seq<u32>, w: int, h: int) -> bool {
    &&& seeded.len() == c.len()
    &&& forall|i: int| 0 <= i < (h - 1) * w ==> seeded[i] == c[i]
    &&& forall|i: int| (h - 1) * w <= i < c.len() ==> #[trigger] seeded[i] < 255
}

/// Every cell is below 255.
pub open spec fn below_255(c: Seq<u32>) -> bool {
    forall|i: int| 0 <= i < c.len() ==> #[trigger] c[i] < 255
}

proof fn lemma_update_bound(c: Seq<u32>, w: int, p: int)
    requires
        below_255(c),
        w >= 1,
        1 <= p,
        p + w + 1 < c.len(),
    ensures
        cell_update(c, w, p) < 255,
{
    let (a, b, d, e, f, g) = (c[p - 1], c[p], c[p + 1], c[p + w - 1], c[p + w], c[p + w + 1]);
    assert(a < 255 && b < 255 && d < 255 && e < 255 && f < 255 && g < 255);
    let sum = 10 * a + 20 * b + 10 * d + 160 * e + 320 * f + 160 * g;
    assert(sum * 100 / 68680 < 255) by (nonlinear_arith)
        requires
            sum <= 680 * 254,
            sum >= 0,
    ;
}

/// The cellular step keeps cells below 255 and leaves the bottom row as it was.
proof fn lemma_relax(c: Seq<u32>, w: int, h: int, y: int, x: int)
    requires
        w >= 1,
        h >= 1,
        c.len() == w * h,
        below_255(c),
        0 <= y <= h - 1,
        1 <= x <= row_end(w),
        y == h - 1 ==> x == 1,
    ensures
        relax_to(c, w, y, x).len() == c.len(),
        below_255(relax_to(c, w, y, x)),
        forall|i: int| (h - 1) * w <= i < c.len() ==> #[trigger] relax_to(c, w, y, x)[i] == c[i],
    decreases y, x,
{
    if y <= 0 && x <= 1 {
    } else if x <= 1 {
        lemma_relax(c, w, h, y - 1, row_end(w));
    } else {
        lemma_relax(c, w, h, y, x - 1);
        let prev = relax_to(c, w, y, x - 1);
        let p = y * w + x - 1;
        assert(y * w + w <= (h - 1) * w) by (nonlinear_arith)
            requires
                y <= h - 2,
                w >= 1,
        ;
        assert((h - 1) * w + w == c.len()) by (nonlinear_arith)
            requires
                c.len() == w * h,
        ;
        lemma_update_bound(prev, w, p);
    }
}

/// Rising cellular fire: every tick the bottom row is reseeded at random, the
/// other rows drift upwards by a weighted mean with the row below, and non-zero
/// cells paint their palette entry over the frame.
pub struct CellularFireConvolution {
    fire_buffer: Vec<u32>,
    palette: Palette,
}

impl CellularFireConvolution {
    /// The intensity buffer.
    pub closed spec fn cells(&self) -> Seq<u32> {
        self.fire_buffer@
    }

    /// The palette.
    pub closed spec fn colors(&self) -> Seq<u32> {
        self.palette@
    }

    /// A cellular fire for a `width` by `height` frame, with every cell at zero.
    pub fn new(width: usize, height: usize) -> (r: Self)
        requires
            width * height <= usize::MAX,
        ensures
            r.cells() == Seq::new((width * height) as nat, |i: int| 0u32),
            r.colors() == fire_palette(),
    {
        let r = CellularFireConvolution {
            fire_buffer: vec![0; width * height],
            palette: IdkConvolution::gen_palette(),
        };
        assert(r.cells() =~= Seq::new((width * height) as nat, |i: int| 0u32));
        r
    }

    /// A copy of the intensity buffer.
    pub fn cell_values(&self) -> (r: Vec<u32>)
        ensures
            r@ == self.cells(),
    {
        let r = self.fire_buffer.clone();
        assert(r@ =~= self.cells());
        r
    }

    /// Redraws the bottom row in `[0, 255)`.
    fn seed_bottom_row(&mut self, width: usize, height: usize)
        requires
            width >= 1,
            height >= 1,
            old(self).cells().len() == width * height,
        ensures
            reseeded(old(self).cells(), final(self).cells(), width as int, height as int),
            final(self).colors() == old(self).colors(),
    {
        let n = self.fire_buffer.len();
        assert((height - 1) * width + width == n) by (nonlinear_arith)
            requires
                n == width * height,
        ;
        let start: usize = (height - 1) * width;
        let mut i: usize = start;
        while i < n
            invariant
                n == self.fire_buffer@.len(),
                n == old(self).cells().len(),
                start == (height - 1) * width,
                start <= i <= n,
                self.palette == old(self).palette,
                forall|j: int| 0 <= j < start ==> self.fire_buffer@[j] == old(self).cells()[j],
                forall|j: int| start <= j < i ==> #[trigger] self.fire_buffer@[j] < 255,
            decreases n - i,
        {
            self.fire_buffer[i] = sample_below(255);
            i += 1;
        }
    }

    /// The in-place cellular step over the rows above the bottom one.
    fn relax(&mut self, width: usize, height: usize)
        requires
            width >= 1,
            height >= 1,
            old(self).cells().len() == width * height,
            below_255(old(self).cells()),
        ensures
            final(self).cells() == relax_to(old(self).cells(), width as int, height as int - 1, 1),
            final(self).colors() == old(self).colors(),
    {
        let n = self.fire_buffer.len();
        let ghost c = self.fire_buffer@;
        let ghost w = width as int;
        let ghost h = height as int;
        let mut y: usize = 0;
        while y + 1 < height
            invariant
                width >= 1,
                height >= 1,
                c.len() == w * h,
                c.len() == n,
                w == width,
                h == height,
                below_255(c),
                y + 1 <= height,
                self.fire_buffer@ == relax_to(c, w, y as int, 1),
                self.palette == old(self).palette,
            decreases height - y,
        {
            let mut x: usize = 1;
            while x + 1 < width
                invariant
                    width >= 1,
                    height >= 1,
                    c.len() == w * h,
                    c.len() == n,
                    w == width,
                    h == height,
                    below_255(c),
                    y + 1 < height,
                    1 <= x <= row_end(w),
                    self.fire_buffer@ == relax_to(c, w, y as int, x as int),
                    self.palette == old(self).palette,
                decreases width - x,
            {
                proof {
                    lemma_relax(c, w, h, y as int, x as int);
                    assert(y * w + w <= (h - 1) * w) by (nonlinear_arith)
                        requires
                            y <= h - 2,
                            w >= 1,
                    ;
                    assert((h - 1) * w + w == c.len()) by (nonlinear_arith)
                        requires
                            c.len() == w * h,
                    ;
                }
                let p: usize = y * width + x;
                let cur = &self.fire_buffer;
                let sum: u32 = 10 * cur[p - 1] + 20 * cur[p] + 10 * cur[p + 1] + 160 * cur[p + width - 1]
                    + 320 * cur[p + width] + 160 * cur[p + width + 1];
                self.fire_buffer[p] = sum * 100 / 68680;
                x += 1;
            }
            y += 1;
        }
    }
}

} // verus!

verus! {

impl Convolution for CellularFireConvolution {
    open spec fn fits(&self, width: nat, height: nat) -> bool {
        &&& self.cells().len() == width * height
        &&& below_255(self.cells())
        &&& self.colors() == fire_palette()
    }

    open spec fn step(
        &self,
        next: Self,
        before: Seq<u32>,
        after: Seq<u32>,
        width: nat,
        height: nat,
        input: TickInput,
    ) -> bool {
        &&& next.colors() == self.colors()
        &&& exists|seeded: Seq<u32>|
            #[trigger] reseeded(self.cells(), seeded, width as int, height as int) && next.cells()
                == relax_to(seeded, width as int, height as int - 1, 1)
        &&& after == shaded(before, next.cells(), fire_palette())
    }

    fn name(&self) -> &'static str {
        "CellularFire"
    }

    fn transform(&mut self, pixels: &mut Vec<u32>, width: usize, height: usize, input: &TickInput) {
        let ghost c = self.cells();
        self.seed_bottom_row(width, height);
        let ghost seeded = self.cells();
        proof {
            assert forall|i: int| 0 <= i < seeded.len() implies #[trigger] seeded[i] < 255 by {
                if i < (height - 1) * width {
                    assert(seeded[i] == c[i]);
                }
            }
        }
        self.relax(width, height);
        proof {
            lemma_relax(seeded, width as int, height as int, height as int - 1, 1);
            assert(reseeded(c, seeded, width as int, height as int));
        }
        paint_cells(pixels, &self.fire_buffer, &self.palette);
    }
}

impl ConvolutionAdvanced for CellularFireConvolution {
    open spec fn reset_from(&self, before: Self) -> bool {
        &&& self.cells() == Seq::new(before.cells().len(), |i: int| 0u32)
        &&& self.colors() == before.colors()
    }

    fn reset(&mut self) {
        self.fire_buffer = vec![0; self.fire_buffer.len()];
        assert(self.cells() =~= Seq::new(old(self).cells().len(), |i: int| 0u32));
    }
}

/// After a tick of the cellular fire, every bottom-row cell holds a fresh value
/// in `[0, 255)`, and every pixel whose cell is zero keeps the color it had.
pub proof fn lemma_cellular_tick(
    fire: CellularFireConvolution,
    next: CellularFireConvolution,
    before: Seq<u32>,
    after: Seq<u32>,
    width: nat,
    height: nat,
    input: TickInput,
)
    requires
        width >= 1,
        height >= 1,
        before.len() == width * height,
        fire.fits(width, height),
        fire.step(next, before, after, width, height, input),
    ensures
        after.len() == before.len(),
        forall|i: int|
            (height - 1) * width <= i < width * height ==> #[trigger] next.cells()[i] < 255,
        forall|i: int| 0 <= i < before.len() && #[trigger] next.cells()[i] == 0 ==> after[i] == before[i],
{
    let seeded = choose|seeded: Seq<u32>|
        #[trigger] reseeded(fire.cells(), seeded, width as int, height as int) && next.cells()
            == relax_to(seeded, width as int, height as int - 1, 1);
    assert forall|i: int| 0 <= i < seeded.len() implies #[trigger] seeded[i] < 255 by {
        if i < (height - 1) * width {
            assert(seeded[i] == fire.cells()[i]);
        }
    }
    lemma_relax(seeded, width as int, height as int, height as int - 1, 1);
}

} // verus!
