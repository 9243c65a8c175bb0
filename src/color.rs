use vstd::prelude::*;

verus! {

/// The packed value of an RGB triple: red in bits 16..24, green in 8..16, blue in 0..8.
pub open spec fn rgb_spec(red: u8, green: u8, blue: u8) -> u32 {
    (red as int * 65536 + green as int * 256 + blue as int) as u32
}

/// A pixel value whose top eight bits are clear.
pub open spec fn is_packed(c: u32) -> bool {
    c < 0x100_0000
}

/// Color packing for the frame buffer.
pub struct Color;

impl Color {
    /// Returns the packed `0x00RRGGBB` value of an RGB triple.
    pub fn rgb(red: u8, green: u8, blue: u8) -> (r: u32)
        ensures
            r == rgb_spec(red, green, blue),
            r as int == red as int * 65536 + green as int * 256 + blue as int,
            is_packed(r),
    {
        let (r, g, b) = (red as u32, green as u32, blue as u32);
        assert(((r << 16u32) | (g << 8u32) | b) == r * 65536 + g * 256 + b) by (bit_vector)
            requires
                r < 256,
                g < 256,
                b < 256,
        ;
        (r << 16) | (g << 8) | b
    }
}

/// The three-band fire palette, entry by entry: band one raises red, band two
/// green at full red, band three blue at full red and green, each in steps of 3
/// from 3 to 255 over 85 entries.
pub open spec fn fire_entry(i: int) -> u32 {
    let step = ((i % 85 + 1) * 3) as u8;
    if i < 85 {
        rgb_spec(step, 0, 0)
    } else if i < 170 {
        rgb_spec(255, step, 0)
    } else {
        rgb_spec(255, 255, step)
    }
}

/// Number of entries of the fire palette.
pub const FIRE_PALETTE_LEN: usize = 255;

/// The whole fire palette.
pub open spec fn fire_palette() -> Seq<u32> {
    Seq::new(FIRE_PALETTE_LEN as nat, |i: int| fire_entry(i))
}

/// Color of entry `k` (1 to 85) of band `band` (0, 1 or 2) of the fire palette.
pub fn band_color(band: u8, k: u8) -> (r: u32)
    requires
        band < 3,
        1 <= k <= 85,
    ensures
        r == fire_entry(band as int * 85 + k - 1),
{
    let step: u8 = k * 3;
    if band == 0 {
        Color::rgb(step, 0, 0)
    } else if band == 1 {
        Color::rgb(255, step, 0)
    } else {
        Color::rgb(255, 255, step)
    }
}

/// An ordered color lookup table.
pub struct Palette {
    colors: Vec<u32>,
}

impl View for Palette {
    type V = Seq<u32>;

    closed spec fn view(&self) -> Seq<u32> {
        self.colors@
    }
}

impl Palette {
    /// An empty palette.
    pub fn new() -> (r: Palette)
        ensures
            r@ == Seq::<u32>::empty(),
    {
        Palette { colors: Vec::new() }
    }

    /// The entry at `index`, or `None` past the end.
    pub fn get(&self, index: usize) -> (r: Option<&u32>)
        ensures
            index < self@.len() ==> r == Some(&self@[index as int]),
            index >= self@.len() ==> r.is_none(),
    {
        if index < self.colors.len() {
            Some(&self.colors[index])
        } else {
            None
        }
    }

    /// Appends one color.
    pub fn add_color(&mut self, color: u32)
        ensures
            final(self)@ == old(self)@.push(color),
    {
        self.colors.push(color);
    }

    /// Appends colors in order.
    pub fn add_colors(&mut self, colors: Vec<u32>)
        ensures
            final(self)@ == old(self)@ + colors@,
    {
        let mut colors = colors;
        self.colors.append(&mut colors);
    }

    /// Number of entries.
    pub fn len(&self) -> (r: usize)
        ensures
            r == self@.len(),
    {
        self.colors.len()
    }
}

} // verus!
