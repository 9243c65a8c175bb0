use vstd::prelude::*;
use crate::base::SingleColorConvolution;
use crate::color::{Color, fire_palette, is_packed, rgb_spec};
use crate::convolution::{Convolution, TickInput, all_packed, filled};
use crate::fire::{channel, noise_color, noise_pixel};
use crate::layers::{AdvancedConvolution, ConvolutionType, SimpleConvolution};
use crate::time::TimeConvolution;
use crate::wave::{IdkConvolution, IdkParConvolution, shaded};

verus! {

/// One layer over one tick: its enabled flag stays; an enabled layer takes a
/// step of its transform from `f0` to `f1`; a disabled one is left as it was and
/// so is the frame.
pub open spec fn layer_tick(
    before: (ConvolutionType, bool),
    after: (ConvolutionType, bool),
    f0: Seq<u32>,
    f1: Seq<u32>,
    width: nat,
    height: nat,
    input: TickInput,
) -> bool {
    &&& after.1 == before.1
    &&& if before.1 {
        before.0.step(after.0, f0, f1, width, height, input)
    } else {
        after.0 == before.0 && f1 == f0
    }
}

/// `frames` is the frame before each layer and after the last: each layer in
/// registration order took the frame left by the one before.
pub open spec fn composed(
    before: Seq<(ConvolutionType, bool)>,
    after: Seq<(ConvolutionType, bool)>,
    frames: Seq<Seq<u32>>,
    width: nat,
    height: nat,
    input: TickInput,
) -> bool {
    &&& after.len() == before.len()
    &&& frames.len() == before.len() + 1
    &&& forall|k: int|
        0 <= k < before.len() ==> #[trigger] layer_tick(
            before[k],
            after[k],
            frames[k],
            frames[k + 1],
            width,
            height,
            input,
        )
}

/// The layers after flipping the enabled flag of layer `i`; an index past the
/// end changes nothing.
pub open spec fn toggled(layers: Seq<(ConvolutionType, bool)>, i: int) -> Seq<(ConvolutionType, bool)> {
    if 0 <= i < layers.len() {
        layers.update(i, (layers[i].0, !layers[i].1))
    } else {
        layers
    }
}

/// The layers after a reset request: each enabled layer is reset, the others
/// are left as they were.
pub open spec fn reset_layers(before: Seq<(ConvolutionType, bool)>, after: Seq<(ConvolutionType, bool)>) -> bool {
    &&& after.len() == before.len()
    &&& forall|k: int|
        0 <= k < before.len() ==> {
            &&& (#[trigger] after[k]).1 == before[k].1
            &&& if before[k].1 {
                after[k].0.reset_from(before[k].0)
            } else {
                after[k].0 == before[k].0
            }
        }
}

/// The input state of one tick, as far as the compositor reacts to it.
pub struct Keys {
    /// The display surface is still open.
    pub open: bool,
    /// An exit key is held down.
    pub exit: bool,
    /// The key of the first background layer was pressed.
    pub first_background: bool,
    /// The key of the second background layer was pressed.
    pub second_background: bool,
    /// The reset key is held down.
    pub reset: bool,
    /// The clock key was released.
    pub clock: bool,
}

/// The compositor: an ordered stack of layers, each with its enabled flag, and
/// the frame buffer they are applied to.
pub struct Window {
    buffer: Vec<u32>,
    convolutions: Vec<(ConvolutionType, bool)>,
    width: usize,
    height: usize,
}

impl Window {
    /// The frame buffer.
    pub closed spec fn frame(&self) -> Seq<u32> {
        self.buffer@
    }

    /// The layers, in registration order.
    pub closed spec fn layers(&self) -> Seq<(ConvolutionType, bool)> {
        self.convolutions@
    }

    /// Frame width.
    pub closed spec fn frame_width(&self) -> nat {
        self.width as nat
    }

    /// Frame height.
    pub closed spec fn frame_height(&self) -> nat {
        self.height as nat
    }

    /// The frame has `width * height` pixels and every layer fits it.
    pub open spec fn wf(&self) -> bool {
        &&& self.frame_width() >= 1
        &&& self.frame_height() >= 1
        &&& self.frame().len() == self.frame_width() * self.frame_height()
        &&& forall|k: int|
            0 <= k < self.layers().len() ==> (#[trigger] self.layers()[k]).0.fits(
                self.frame_width(),
                self.frame_height(),
            )
    }

    /// A compositor for a `width` by `height` frame, all black, with no layers.
    pub fn new(width: usize, height: usize) -> (r: Self)
        requires
            width >= 1,
            height >= 1,
            width * height <= usize::MAX,
        ensures
            r.wf(),
            r.frame() == filled(0, (width * height) as nat),
            r.layers() == Seq::<(ConvolutionType, bool)>::empty(),
            r.frame_width() == width,
            r.frame_height() == height,
    {
        let r = Window { buffer: vec![0; width * height], convolutions: Vec::new(), width, height };
        assert(r.frame() =~= filled(0, (width * height) as nat));
        r
    }

    /// The frame width.
    pub fn width(&self) -> (r: usize)
        ensures
            r == self.frame_width(),
    {
        self.width
    }

    /// The frame height.
    pub fn height(&self) -> (r: usize)
        ensures
            r == self.frame_height(),
    {
        self.height
    }

    /// A copy of the frame buffer.
    pub fn buffer(&self) -> (r: Vec<u32>)
        ensures
            r@ == self.frame(),
    {
        let r = self.buffer.clone();
        assert(r@ =~= self.frame());
        r
    }

    /// The number of layers.
    pub fn len(&self) -> (r: usize)
        ensures
            r == self.layers().len(),
    {
        self.convolutions.len()
    }

    /// Whether layer `i` is enabled; `None` past the end.
    pub fn is_enabled(&self, i: usize) -> (r: Option<bool>)
        ensures
            i < self.layers().len() ==> r == Some(self.layers()[i as int].1),
            i >= self.layers().len() ==> r.is_none(),
    {
        if i < self.convolutions.len() {
            Some(self.convolutions[i].1)
        } else {
            None
        }
    }

    /// Appends a layer on top of the stack.
    pub fn push(&mut self, convolution: ConvolutionType, enabled: bool)
        requires
            old(self).wf(),
            convolution.fits(old(self).frame_width(), old(self).frame_height()),
        ensures
            final(self).wf(),
            final(self).layers() == old(self).layers().push((convolution, enabled)),
            final(self).frame() == old(self).frame(),
            final(self).frame_width() == old(self).frame_width(),
            final(self).frame_height() == old(self).frame_height(),
    {
        self.convolutions.push((convolution, enabled));
        assert forall|k: int| 0 <= k < self.layers().len() implies (#[trigger] self.layers()[k]).0.fits(
            self.frame_width(),
            self.frame_height(),
        ) by {
            if k < old(self).layers().len() {
                assert(self.layers()[k] == old(self).layers()[k]);
            }
        }
    }

    /// Flips the enabled flag of layer `i`; an index past the end is ignored.
    pub fn toggle(&mut self, i: usize)
        requires
            old(self).wf(),
        ensures
            final(self).wf(),
            final(self).layers() == toggled(old(self).layers(), i as int),
            final(self).frame() == old(self).frame(),
            final(self).frame_width() == old(self).frame_width(),
            final(self).frame_height() == old(self).frame_height(),
    {
        if i < self.convolutions.len() {
            let entry = &mut self.convolutions[i];
            entry.1 = !entry.1;
            assert(self.layers() =~= toggled(old(self).layers(), i as int));
        }
        assert forall|k: int| 0 <= k < self.layers().len() implies (#[trigger] self.layers()[k]).0.fits(
            self.frame_width(),
            self.frame_height(),
        ) by {
            assert(self.layers()[k].0 == old(self).layers()[k].0);
        }
    }
}

} // verus!

verus! {

impl Window {
    /// Resets every enabled advanced layer; simple and disabled layers, and the
    /// frame, are left as they were.
    pub fn reset_convolutions(&mut self)
        requires
            old(self).wf(),
        ensures
            final(self).wf(),
            reset_layers(old(self).layers(), final(self).layers()),
            final(self).frame() == old(self).frame(),
            final(self).frame_width() == old(self).frame_width(),
            final(self).frame_height() == old(self).frame_height(),
    {
        let n = self.convolutions.len();
        assert forall|k: int| 0 <= k < n implies (#[trigger] self.convolutions@[k]).0.fits(
            self.width as nat,
            self.height as nat,
        ) by {
            assert(self.layers()[k] == self.convolutions@[k]);
        }
        let mut i: usize = 0;
        while i < n
            invariant
                n == self.convolutions@.len(),
                n == old(self).layers().len(),
                i <= n,
                self.buffer == old(self).buffer,
                self.width == old(self).width,
                self.height == old(self).height,
                forall|k: int|
                    0 <= k < n ==> (#[trigger] self.convolutions@[k]).0.fits(self.width as nat, self.height as nat),
                forall|k: int| i <= k < n ==> #[trigger] self.convolutions@[k] == old(self).layers()[k],
                forall|k: int|
                    0 <= k < i ==> {
                        &&& (#[trigger] self.convolutions@[k]).1 == old(self).layers()[k].1
                        &&& if old(self).layers()[k].1 {
                            self.convolutions@[k].0.reset_from(old(self).layers()[k].0)
                        } else {
                            self.convolutions@[k].0 == old(self).layers()[k].0
                        }
                    },
            decreases n - i,
        {
            let entry = &mut self.convolutions[i];
            if entry.1 {
                entry.0.reset();
            }
            i += 1;
        }
    }

    /// Applies every enabled layer in registration order: each takes a copy of
    /// the frame, transforms it, and the copy becomes the frame. Disabled layers
    /// are not run.
    pub fn apply_convolutions(&mut self, input: &TickInput)
        requires
            old(self).wf(),
            input.wave@.len() == old(self).frame().len(),
            is_packed(input.accent),
        ensures
            final(self).wf(),
            final(self).frame_width() == old(self).frame_width(),
            final(self).frame_height() == old(self).frame_height(),
            exists|frames: Seq<Seq<u32>>|
                #[trigger] composed(
                    old(self).layers(),
                    final(self).layers(),
                    frames,
                    old(self).frame_width(),
                    old(self).frame_height(),
                    *input,
                ) && frames[0] == old(self).frame() && frames.last() == final(self).frame(),
    {
        let n = self.convolutions.len();
        let ghost w = self.width as nat;
        let ghost h = self.height as nat;
        let ghost frames: Seq<Seq<u32>> = seq![self.buffer@];
        assert forall|k: int| 0 <= k < n implies (#[trigger] self.convolutions@[k]).0.fits(w, h) by {
            assert(self.layers()[k] == self.convolutions@[k]);
        }
        let mut i: usize = 0;
        while i < n
            invariant
                n == self.convolutions@.len(),
                n == old(self).layers().len(),
                i <= n,
                w == self.width,
                h == self.height,
                self.width == old(self).width,
                self.height == old(self).height,
                self.width >= 1,
                self.height >= 1,
                self.buffer@.len() == w * h,
                input.wave@.len() == w * h,
                is_packed(input.accent),
                forall|k: int|
                    0 <= k < n ==> (#[trigger] self.convolutions@[k]).0.fits(w, h),
                forall|k: int| i <= k < n ==> #[trigger] self.convolutions@[k] == old(self).layers()[k],
                frames.len() == i + 1,
                frames[0] == old(self).frame(),
                frames[i as int] == self.buffer@,
                forall|k: int|
                    0 <= k < i ==> #[trigger] layer_tick(
                        old(self).layers()[k],
                        self.convolutions@[k],
                        frames[k],
                        frames[k + 1],
                        w,
                        h,
                        *input,
                    ),
            decreases n - i,
        {
            let ghost before = self.buffer@;
            let width = self.width;
            let height = self.height;
            let entry = &mut self.convolutions[i];
            if entry.1 {
                let mut work = self.buffer.clone();
                assert(work@ =~= before);
                entry.0.transform(&mut work, width, height, input);
                self.buffer = work;
            }
            proof {
                frames = frames.push(self.buffer@);
                assert(layer_tick(
                    old(self).layers()[i as int],
                    self.convolutions@[i as int],
                    frames[i as int],
                    frames[i + 1],
                    w,
                    h,
                    *input,
                ));
            }
            i += 1;
        }
        assert(composed(old(self).layers(), self.layers(), frames, w, h, *input));
    }
}

} // verus!

verus! {

/// Frames are left alone by a run of disabled layers.
proof fn lemma_disabled_run(
    before: Seq<(ConvolutionType, bool)>,
    after: Seq<(ConvolutionType, bool)>,
    frames: Seq<Seq<u32>>,
    width: nat,
    height: nat,
    input: TickInput,
    from: int,
    to: int,
)
    requires
        composed(before, after, frames, width, height, input),
        0 <= from <= to <= before.len(),
        forall|k: int| from <= k < to ==> !(#[trigger] before[k]).1,
    ensures
        frames[to] == frames[from],
    decreases to - from,
{
    if from < to {
        lemma_disabled_run(before, after, frames, width, height, input, from, to - 1);
        let k = to - 1;
        assert(layer_tick(before[k], after[k], frames[k], frames[k + 1], width, height, input));
    }
}

/// Registration order is compositing order: when the last enabled layer `j`
/// paints every pixel one color `y`, whatever frame it is given, the frame after
/// the tick is `y` everywhere, whatever the layers below it painted.
pub proof fn lemma_top_fill_wins(
    before: Seq<(ConvolutionType, bool)>,
    after: Seq<(ConvolutionType, bool)>,
    frames: Seq<Seq<u32>>,
    width: nat,
    height: nat,
    input: TickInput,
    j: int,
    y: u32,
)
    requires
        composed(before, after, frames, width, height, input),
        0 <= j < before.len(),
        before[j].1,
        forall|next: ConvolutionType, f0: Seq<u32>, f1: Seq<u32>|
            #[trigger] before[j].0.step(next, f0, f1, width, height, input) ==> f1 == filled(y, f0.len()),
        forall|k: int| j < k < before.len() ==> !(#[trigger] before[k]).1,
    ensures
        frames.last() == filled(y, frames[j].len()),
{
    assert(layer_tick(before[j], after[j], frames[j], frames[j + 1], width, height, input));
    lemma_disabled_run(before, after, frames, width, height, input, j + 1, before.len() as int);
}

/// A single-color layer paints every pixel its color, so as the last enabled
/// layer it decides the whole frame.
pub proof fn lemma_top_single_color_wins(
    before: Seq<(ConvolutionType, bool)>,
    after: Seq<(ConvolutionType, bool)>,
    frames: Seq<Seq<u32>>,
    width: nat,
    height: nat,
    input: TickInput,
    j: int,
    top: SingleColorConvolution,
)
    requires
        composed(before, after, frames, width, height, input),
        0 <= j < before.len(),
        before[j] == (ConvolutionType::Simple(SimpleConvolution::SingleColor(top)), true),
        forall|k: int| j < k < before.len() ==> !(#[trigger] before[k]).1,
    ensures
        frames.last() == filled(rgb_spec(top.red, top.green, top.blue), frames[j].len()),
{
    lemma_top_fill_wins(before, after, frames, width, height, input, j, rgb_spec(top.red, top.green, top.blue));
}

/// A disabled layer is never run: across a tick it keeps its state and the
/// frame passes it unchanged.
pub proof fn lemma_disabled_untouched(
    before: Seq<(ConvolutionType, bool)>,
    after: Seq<(ConvolutionType, bool)>,
    frames: Seq<Seq<u32>>,
    width: nat,
    height: nat,
    input: TickInput,
    k: int,
)
    requires
        composed(before, after, frames, width, height, input),
        0 <= k < before.len(),
        !before[k].1,
    ensures
        after[k] == before[k],
        frames[k + 1] == frames[k],
{
    assert(layer_tick(before[k], after[k], frames[k], frames[k + 1], width, height, input));
}

/// Toggling a layer twice restores its enabled flag, and the whole stack.
pub proof fn lemma_toggle_twice(layers: Seq<(ConvolutionType, bool)>, i: int)
    ensures
        toggled(toggled(layers, i), i) == layers,
{
    if 0 <= i < layers.len() {
        assert(toggled(toggled(layers, i), i) =~= layers);
    }
}

/// A reset request on a stack with every layer disabled changes no layer (and
/// `reset_convolutions` never touches the frame).
pub proof fn lemma_reset_all_disabled(before: Seq<(ConvolutionType, bool)>, after: Seq<(ConvolutionType, bool)>)
    requires
        forall|k: int| 0 <= k < before.len() ==> !(#[trigger] before[k]).1,
        reset_layers(before, after),
    ensures
        after == before,
{
    assert forall|k: int| 0 <= k < before.len() implies after[k] == before[k] by {
        assert(!before[k].1);
    }
    assert(after =~= before);
}

} // verus!

verus! {

/// `toggled(layers, i)` when `flip` holds, else `layers`.
pub open spec fn toggled_if(layers: Seq<(ConvolutionType, bool)>, i: int, flip: bool) -> Seq<
    (ConvolutionType, bool),
> {
    if flip {
        toggled(layers, i)
    } else {
        layers
    }
}

/// `after` is `before` reset when `reset` holds, else `before` itself.
pub open spec fn reset_if(before: Seq<(ConvolutionType, bool)>, after: Seq<(ConvolutionType, bool)>, reset: bool) -> bool {
    if reset {
        reset_layers(before, after)
    } else {
        after == before
    }
}

/// The layers after one tick's keys: the first and second background keys flip
/// layers 1 and 2, then the reset key resets the enabled layers, then the
/// clock key flips the top layer.
pub open spec fn keys_applied(before: Seq<(ConvolutionType, bool)>, after: Seq<(ConvolutionType, bool)>, keys: Keys) -> bool {
    let flipped = toggled_if(toggled_if(before, 1, keys.first_background), 2, keys.second_background);
    exists|mid: Seq<(ConvolutionType, bool)>|
        #[trigger] reset_if(flipped, mid, keys.reset) && after == toggled_if(mid, mid.len() - 1, keys.clock)
}

impl Window {
    /// Reacts to one tick's keys. Returns `false`, changing nothing, once the
    /// surface is closed or an exit key is down; otherwise applies the keys as
    /// [`keys_applied`] states and returns `true`.
    pub fn handle_keys(&mut self, keys: &Keys) -> (running: bool)
        requires
            old(self).wf(),
        ensures
            final(self).wf(),
            running == (keys.open && !keys.exit),
            final(self).frame() == old(self).frame(),
            final(self).frame_width() == old(self).frame_width(),
            final(self).frame_height() == old(self).frame_height(),
            !running ==> final(self).layers() == old(self).layers(),
            running ==> keys_applied(old(self).layers(), final(self).layers(), *keys),
    {
        if !keys.open || keys.exit {
            return false;
        }
        if keys.first_background {
            self.toggle(1);
        }
        if keys.second_background {
            self.toggle(2);
        }
        let ghost flipped = self.layers();
        assert(flipped == toggled_if(
            toggled_if(old(self).layers(), 1, keys.first_background),
            2,
            keys.second_background,
        ));
        if keys.reset {
            self.reset_convolutions();
        }
        let ghost mid = self.layers();
        assert(reset_if(flipped, mid, keys.reset));
        if keys.clock {
            let n = self.convolutions.len();
            if n > 0 {
                self.toggle(n - 1);
            } else {
                assert(toggled(mid, mid.len() - 1) == mid);
            }
        }
        assert(self.layers() == toggled_if(mid, mid.len() - 1, keys.clock));
        true
    }

    /// The widget's stack for a `width` by `height` frame: a dark background
    /// (enabled), the sequential and the data-parallel wave fires (disabled),
    /// and a 24-hour clock in a fixed purple (enabled).
    pub fn with_default_layers(width: usize, height: usize) -> (r: Self)
        requires
            width >= 1,
            height >= 1,
            width * height <= usize::MAX,
        ensures
            r.wf(),
            r.frame() == filled(0, (width * height) as nat),
            r.frame_width() == width,
            r.frame_height() == height,
            r.layers().len() == 4,
            r.layers()[0] == (
            ConvolutionType::Simple(
                SimpleConvolution::SingleColor(SingleColorConvolution { red: 20, green: 20, blue: 20 }),
            ),
            true),
            r.layers()[1].0 is Advanced && r.layers()[1].0->Advanced_0 is Wave && !r.layers()[1].1,
            r.layers()[1].0->Advanced_0->Wave_0.cells() == Seq::new((width * height) as nat, |i: int| 0u32),
            r.layers()[1].0->Advanced_0->Wave_0.colors() == fire_palette(),
            r.layers()[2].0 is Advanced && r.layers()[2].0->Advanced_0 is WavePar && !r.layers()[2].1,
            r.layers()[2].0->Advanced_0->WavePar_0.cells() == Seq::new((width * height) as nat, |i: int| 0u32),
            r.layers()[2].0->Advanced_0->WavePar_0.colors() == fire_palette(),
            r.layers()[3] == (
            ConvolutionType::Simple(
                SimpleConvolution::Time(TimeConvolution { f24: true, color: Some(rgb_spec(50, 0, 125)) }),
            ),
            true),
    {
        let mut window = Window::new(width, height);
        window.push(
            ConvolutionType::Simple(
                SimpleConvolution::SingleColor(SingleColorConvolution { red: 20, green: 20, blue: 20 }),
            ),
            true,
        );
        window.push(ConvolutionType::Advanced(AdvancedConvolution::Wave(IdkConvolution::new(width, height))), false);
        window.push(
            ConvolutionType::Advanced(AdvancedConvolution::WavePar(IdkParConvolution::new(width, height))),
            false,
        );
        let purple = Color::rgb(50, 0, 125);
        window.push(ConvolutionType::Simple(SimpleConvolution::Time(TimeConvolution { f24: true, color: Some(purple) })), true);
        window
    }
}

} // verus!

verus! {

/// Every color that layer `c` is configured with is a packed 24-bit color: a
/// clock's configured color must be; the other layers only draw packed colors.
pub open spec fn draws_packed(c: ConvolutionType) -> bool {
    match c {
        ConvolutionType::Simple(SimpleConvolution::Time(t)) => match t.color {
            Some(color) => is_packed(color),
            None => true,
        },
        _ => true,
    }
}

proof fn lemma_rgb_packed(r: u8, g: u8, b: u8)
    ensures
        is_packed(rgb_spec(r, g, b)),
{
}

proof fn lemma_shaded_packed(before: Seq<u32>, cells: Seq<u32>)
    requires
        all_packed(before),
    ensures
        all_packed(shaded(before, cells, fire_palette())),
{
    assert forall|i: int| 0 <= i < before.len() implies is_packed(
        #[trigger] shaded(before, cells, fire_palette())[i],
    ) by {
        let c = cells[i];
        if c != 0 && c < 255 {
            let k = c as int;
            let step = ((k % 85 + 1) * 3) as u8;
            lemma_rgb_packed(step, 0, 0);
            lemma_rgb_packed(255, step, 0);
            lemma_rgb_packed(255, 255, step);
        }
    }
}

/// One tick of one layer keeps the frame's length.
proof fn lemma_step_len(
    c: ConvolutionType,
    next: ConvolutionType,
    before: Seq<u32>,
    after: Seq<u32>,
    width: nat,
    height: nat,
    input: TickInput,
)
    requires
        c.fits(width, height),
        before.len() == width * height,
        c.step(next, before, after, width, height, input),
    ensures
        after.len() == before.len(),
{
}

/// One tick of one layer keeps every pixel a packed 24-bit color.
proof fn lemma_step_packed(
    c: ConvolutionType,
    next: ConvolutionType,
    before: Seq<u32>,
    after: Seq<u32>,
    width: nat,
    height: nat,
    input: TickInput,
)
    requires
        c.fits(width, height),
        before.len() == width * height,
        input.wave@.len() == width * height,
        c.step(next, before, after, width, height, input),
        all_packed(before),
        draws_packed(c),
        is_packed(input.accent),
    ensures
        all_packed(after),
{
    match (c, next) {
        (ConvolutionType::Simple(a), ConvolutionType::Simple(b)) => match (a, b) {
            (SimpleConvolution::ToGreen(_), _) => lemma_rgb_packed(0, 255, 0),
            (SimpleConvolution::SingleColor(f), _) => lemma_rgb_packed(f.red, f.green, f.blue),
            (SimpleConvolution::Fire(f), _) => {
                assert forall|i: int| 0 <= i < after.len() implies is_packed(#[trigger] after[i]) by {
                    assert(noise_pixel(after[i], f.intensity));
                    let s = choose|s: u32| (s < f.intensity || s == 0) && #[trigger] noise_color(s) == after[i];
                    lemma_rgb_packed(channel(s, 255), channel(s, 180), channel(s, 100));
                }
            },
            (SimpleConvolution::Time(_), _) => {},
        },
        (ConvolutionType::Advanced(a), ConvolutionType::Advanced(b)) => match (a, b) {
            (AdvancedConvolution::HeatFire(_), AdvancedConvolution::HeatFire(n)) => {
                assert forall|i: int| 0 <= i < after.len() implies is_packed(#[trigger] after[i]) by {
                    let h = n.heat()[i];
                    lemma_rgb_packed(channel(h, 255), channel(h, 150), channel(h, 50));
                }
            },
            (AdvancedConvolution::Wave(_), AdvancedConvolution::Wave(n)) => lemma_shaded_packed(before, n.cells()),
            (AdvancedConvolution::WavePar(_), AdvancedConvolution::WavePar(n)) => lemma_shaded_packed(before, n.cells()),
            (AdvancedConvolution::Cellular(_), AdvancedConvolution::Cellular(n)) => lemma_shaded_packed(before, n.cells()),
            _ => {},
        },
        _ => {},
    }
}

/// Every layer's output has `width * height` pixels (the transforms keep the
/// length), and when the frame starts out packed and every configured color is
/// packed, every pixel after a tick is a packed 24-bit color (the tick's accent
/// color is packed, as `apply_convolutions` requires).
pub proof fn lemma_tick_packed(
    before: Seq<(ConvolutionType, bool)>,
    after: Seq<(ConvolutionType, bool)>,
    frames: Seq<Seq<u32>>,
    width: nat,
    height: nat,
    input: TickInput,
)
    requires
        composed(before, after, frames, width, height, input),
        frames[0].len() == width * height,
        input.wave@.len() == width * height,
        all_packed(frames[0]),
        forall|k: int| 0 <= k < before.len() ==> (#[trigger] before[k]).0.fits(width, height),
        forall|k: int| 0 <= k < before.len() ==> draws_packed((#[trigger] before[k]).0),
        is_packed(input.accent),
    ensures
        forall|k: int| 0 <= k < frames.len() ==> (#[trigger] frames[k]).len() == width * height,
        all_packed(frames.last()),
{
    lemma_frames_packed(before, after, frames, width, height, input, before.len() as int);
}

proof fn lemma_frames_packed(
    before: Seq<(ConvolutionType, bool)>,
    after: Seq<(ConvolutionType, bool)>,
    frames: Seq<Seq<u32>>,
    width: nat,
    height: nat,
    input: TickInput,
    upto: int,
)
    requires
        composed(before, after, frames, width, height, input),
        0 <= upto <= before.len(),
        frames[0].len() == width * height,
        input.wave@.len() == width * height,
        all_packed(frames[0]),
        forall|k: int| 0 <= k < before.len() ==> (#[trigger] before[k]).0.fits(width, height),
        forall|k: int| 0 <= k < before.len() ==> draws_packed((#[trigger] before[k]).0),
        is_packed(input.accent),
    ensures
        forall|k: int| 0 <= k <= upto ==> (#[trigger] frames[k]).len() == width * height,
        all_packed(frames[upto]),
    decreases upto,
{
    if upto > 0 {
        lemma_frames_packed(before, after, frames, width, height, input, upto - 1);
        let k = upto - 1;
        assert(layer_tick(before[k], after[k], frames[k], frames[k + 1], width, height, input));
        if before[k].1 {
            lemma_step_len(before[k].0, after[k].0, frames[k], frames[k + 1], width, height, input);
            lemma_step_packed(before[k].0, after[k].0, frames[k], frames[k + 1], width, height, input);
        }
    }
}

} // verus!
