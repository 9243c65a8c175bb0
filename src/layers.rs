use vstd::prelude::*;
use crate::base::{SingleColorConvolution, ToGreenConvolution};
use crate::convolution::{Convolution, ConvolutionAdvanced, TickInput};
use crate::fire::{FireConvolution, HeatFireConvolution};
use crate::rising::CellularFireConvolution;
use crate::time::TimeConvolution;
use crate::wave::{IdkConvolution, IdkParConvolution};

verus! {

/// The stateless transforms, which have no reset.
pub enum SimpleConvolution {
    ToGreen(ToGreenConvolution),
    SingleColor(SingleColorConvolution),
    Fire(FireConvolution),
    Time(TimeConvolution),
}

/// The transforms with resettable internal state.
pub enum AdvancedConvolution {
    HeatFire(HeatFireConvolution),
    Wave(IdkConvolution),
    WavePar(IdkParConvolution),
    Cellular(CellularFireConvolution),
}

/// A layer of the compositor: a simple transform or an advanced one.
pub enum ConvolutionType {
    Simple(SimpleConvolution),
    Advanced(AdvancedConvolution),
}

impl Convolution for SimpleConvolution {
    open spec fn fits(&self, width: nat, height: nat) -> bool {
        match self {
            SimpleConvolution::ToGreen(c) => c.fits(width, height),
            SimpleConvolution::SingleColor(c) => c.fits(width, height),
            SimpleConvolution::Fire(c) => c.fits(width, height),
            SimpleConvolution::Time(c) => c.fits(width, height),
        }
    }

    open spec fn step(
        &self,
        next: Self,
        before: Seq<u32>,
        after: Seq<u32>,
        width: nat,
        height: nat,
        input: TickInput,
    ) -> bool {
        match (*self, next) {
            (SimpleConvolution::ToGreen(a), SimpleConvolution::ToGreen(b)) => a.step(b, before, after, width, height, input),
            (SimpleConvolution::SingleColor(a), SimpleConvolution::SingleColor(b)) => a.step(b, before, after, width, height, input),
            (SimpleConvolution::Fire(a), SimpleConvolution::Fire(b)) => a.step(b, before, after, width, height, input),
            (SimpleConvolution::Time(a), SimpleConvolution::Time(b)) => a.step(b, before, after, width, height, input),
            _ => false,
        }
    }

    fn name(&self) -> &'static str {
        match self {
            SimpleConvolution::ToGreen(c) => c.name(),
            SimpleConvolution::SingleColor(c) => c.name(),
            SimpleConvolution::Fire(c) => c.name(),
            SimpleConvolution::Time(c) => c.name(),
        }
    }

    fn transform(&mut self, pixels: &mut Vec<u32>, width: usize, height: usize, input: &TickInput) {
        match self {
            SimpleConvolution::ToGreen(c) => c.transform(pixels, width, height, input),
            SimpleConvolution::SingleColor(c) => c.transform(pixels, width, height, input),
            SimpleConvolution::Fire(c) => c.transform(pixels, width, height, input),
            SimpleConvolution::Time(c) => c.transform(pixels, width, height, input),
        }
    }
}

} // verus!

verus! {

impl Convolution for AdvancedConvolution {
    open spec fn fits(&self, width: nat, height: nat) -> bool {
        match self {
            AdvancedConvolution::HeatFire(c) => c.fits(width, height),
            AdvancedConvolution::Wave(c) => c.fits(width, height),
            AdvancedConvolution::WavePar(c) => c.fits(width, height),
            AdvancedConvolution::Cellular(c) => c.fits(width, height),
        }
    }

    open spec fn step(
        &self,
        next: Self,
        before: Seq<u32>,
        after: Seq<u32>,
        width: nat,
        height: nat,
        input: TickInput,
    ) -> bool {
        match (*self, next) {
            (AdvancedConvolution::HeatFire(a), AdvancedConvolution::HeatFire(b)) => a.step(b, before, after, width, height, input),
            (AdvancedConvolution::Wave(a), AdvancedConvolution::Wave(b)) => a.step(b, before, after, width, height, input),
            (AdvancedConvolution::WavePar(a), AdvancedConvolution::WavePar(b)) => a.step(b, before, after, width, height, input),
            (AdvancedConvolution::Cellular(a), AdvancedConvolution::Cellular(b)) => a.step(b, before, after, width, height, input),
            _ => false,
        }
    }

    fn name(&self) -> &'static str {
        match self {
            AdvancedConvolution::HeatFire(c) => c.name(),
            AdvancedConvolution::Wave(c) => c.name(),
            AdvancedConvolution::WavePar(c) => c.name(),
            AdvancedConvolution::Cellular(c) => c.name(),
        }
    }

    fn transform(&mut self, pixels: &mut Vec<u32>, width: usize, height: usize, input: &TickInput) {
        match self {
            AdvancedConvolution::HeatFire(c) => c.transform(pixels, width, height, input),
            AdvancedConvolution::Wave(c) => c.transform(pixels, width, height, input),
            AdvancedConvolution::WavePar(c) => c.transform(pixels, width, height, input),
            AdvancedConvolution::Cellular(c) => c.transform(pixels, width, height, input),
        }
    }
}

impl ConvolutionAdvanced for AdvancedConvolution {
    open spec fn reset_from(&self, before: Self) -> bool {
        match (*self, before) {
            (AdvancedConvolution::HeatFire(a), AdvancedConvolution::HeatFire(b)) => a.reset_from(b),
            (AdvancedConvolution::Wave(a), AdvancedConvolution::Wave(b)) => a.reset_from(b),
            (AdvancedConvolution::WavePar(a), AdvancedConvolution::WavePar(b)) => a.reset_from(b),
            (AdvancedConvolution::Cellular(a), AdvancedConvolution::Cellular(b)) => a.reset_from(b),
            _ => false,
        }
    }

    fn reset(&mut self) {
        match self {
            AdvancedConvolution::HeatFire(c) => c.reset(),
            AdvancedConvolution::Wave(c) => c.reset(),
            AdvancedConvolution::WavePar(c) => c.reset(),
            AdvancedConvolution::Cellular(c) => c.reset(),
        }
    }
}

impl Convolution for ConvolutionType {
    open spec fn fits(&self, width: nat, height: nat) -> bool {
        match self {
            ConvolutionType::Simple(c) => c.fits(width, height),
            ConvolutionType::Advanced(c) => c.fits(width, height),
        }
    }

    open spec fn step(
        &self,
        next: Self,
        before: Seq<u32>,
        after: Seq<u32>,
        width: nat,
        height: nat,
        input: TickInput,
    ) -> bool {
        match (*self, next) {
            (ConvolutionType::Simple(a), ConvolutionType::Simple(b)) => a.step(b, before, after, width, height, input),
            (ConvolutionType::Advanced(a), ConvolutionType::Advanced(b)) => a.step(b, before, after, width, height, input),
            _ => false,
        }
    }

    fn name(&self) -> &'static str {
        match self {
            ConvolutionType::Simple(c) => c.name(),
            ConvolutionType::Advanced(c) => c.name(),
        }
    }

    fn transform(&mut self, pixels: &mut Vec<u32>, width: usize, height: usize, input: &TickInput) {
        match self {
            ConvolutionType::Simple(c) => c.transform(pixels, width, height, input),
            ConvolutionType::Advanced(c) => c.transform(pixels, width, height, input),
        }
    }
}

impl ConvolutionType {
    /// The layer after a reset request: an advanced layer is reset, a simple
    /// one stays as it is.
    pub open spec fn reset_from(&self, before: Self) -> bool {
        match (*self, before) {
            (ConvolutionType::Advanced(a), ConvolutionType::Advanced(b)) => a.reset_from(b),
            (ConvolutionType::Simple(a), ConvolutionType::Simple(b)) => a == b,
            _ => false,
        }
    }

    /// Resets an advanced layer; a simple layer has nothing to reset.
    pub fn reset(&mut self)
        ensures
            final(self).reset_from(*old(self)),
            forall|w: nat, h: nat| old(self).fits(w, h) ==> final(self).fits(w, h),
    {
        match self {
            ConvolutionType::Simple(_) => {},
            ConvolutionType::Advanced(c) => c.reset(),
        }
    }
}

} // verus!
