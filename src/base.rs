use vstd::prelude::*;
use crate::color::{Color, rgb_spec};
use crate::convolution::{Convolution, TickInput, filled};

verus! {

/// Paints every pixel green.
pub struct ToGreenConvolution;

/// Paints every pixel one fixed color.
pub struct SingleColorConvolution {
    pub red: u8,
    pub green: u8,
    pub blue: u8,
}

/// Sets every entry of `pixels` to `c`.
fn fill(pixels: &mut Vec<u32>, c: u32)
    ensures
        final(pixels)@ == filled(c, old(pixels)@.len()),
{
    let n = pixels.len();
    let mut i: usize = 0;
    while i < n
        invariant
            n == pixels@.len(),
            n == old(pixels)@.len(),
            i <= n,
            forall|j: int| 0 <= j < i ==> pixels@[j] == c,
        decreases n - i,
    {
        pixels[i] = c;
        i += 1;
    }
    assert(pixels@ =~= filled(c, n as nat));
}

impl Convolution for ToGreenConvolution {
    open spec fn fits(&self, width: nat, height: nat) -> bool {
        true
    }

    open spec fn step(
        &self,
        next: Self,
        before: Seq<u32>,
        after: Seq<u32>,
        width: nat,
        height: nat,
        input: TickInput,
    ) -> bool {
        after == filled(rgb_spec(0, 255, 0), before.len())
    }

    fn name(&self) -> &'static str {
        "ToGreen"
    }

    fn transform(&mut self, pixels: &mut Vec<u32>, width: usize, height: usize, input: &TickInput) {
        let c = Color::rgb(0, 0xFF, 0);
        fill(pixels, c);
    }
}

impl Convolution for SingleColorConvolution {
    open spec fn fits(&self, width: nat, height: nat) -> bool {
        true
    }

    open spec fn step(
        &self,
        next: Self,
        before: Seq<u32>,
        after: Seq<u32>,
        width: nat,
        height: nat,
        input: TickInput,
    ) -> bool {
        &&& next == *self
        &&& after == filled(rgb_spec(self.red, self.green, self.blue), before.len())
    }

    fn name(&self) -> &'static str {
        "ToColor"
    }

    fn transform(&mut self, pixels: &mut Vec<u32>, width: usize, height: usize, input: &TickInput) {
        let c = Color::rgb(self.red, self.green, self.blue);
        fill(pixels, c);
    }
}

} // verus!
