use vstd::prelude::*;
use crate::color::is_packed;

verus! {

/// What a tick hands to the layers from outside the library: the wave field
/// sampled for this tick (one signed amplitude per pixel, row-major) and an
/// accent color, a packed 24-bit color, for layers that have no color of their
/// own.
pub struct TickInput {
    pub wave: Vec<i32>,
    pub accent: u32,
}

/// Every pixel of `s` is a packed 24-bit color.
pub open spec fn all_packed(s: Seq<u32>) -> bool {
    forall|i: int| 0 <= i < s.len() ==> is_packed(#[trigger] s[i])
}

/// A buffer of `len` pixels, all of color `c`.
pub open spec fn filled(c: u32, len: nat) -> Seq<u32> {
    Seq::new(len, |i: int| c)
}

/// A transform of the frame buffer, applied once per tick.
pub trait Convolution: Sized {
    /// The transform's state is sized for a `width` by `height` frame.
    spec fn fits(&self, width: nat, height: nat) -> bool;

    /// One tick may take the transform from `self` to `next` and the frame
    /// from `before` to `after`.
    spec fn step(
        &self,
        next: Self,
        before: Seq<u32>,
        after: Seq<u32>,
        width: nat,
        height: nat,
        input: TickInput,
    ) -> bool;

    /// The transform's name.
    fn name(&self) -> &'static str;

    /// Transforms `pixels`, a `width` by `height` frame, in place.
    fn transform(&mut self, pixels: &mut Vec<u32>, width: usize, height: usize, input: &TickInput)
        requires
            width >= 1,
            height >= 1,
            old(pixels)@.len() == width * height,
            input.wave@.len() == width * height,
            is_packed(input.accent),
            old(self).fits(width as nat, height as nat),
        ensures
            final(pixels)@.len() == old(pixels)@.len(),
            final(self).fits(width as nat, height as nat),
            old(self).step(*final(self), old(pixels)@, final(pixels)@, width as nat, height as nat, *input),
    ;
}

/// A transform with internal state that can be returned to its starting value.
pub trait ConvolutionAdvanced: Convolution {
    /// `self` is the state that `reset` leaves when it starts from `before`.
    spec fn reset_from(&self, before: Self) -> bool;

    /// Returns the internal state to its construction-time value, keeping the
    /// configuration.
    fn reset(&mut self)
        ensures
            final(self).reset_from(*old(self)),
            forall|w: nat, h: nat| old(self).fits(w, h) ==> final(self).fits(w, h),
    ;
}

} // verus!
