use clock_widget::base::{SingleColorConvolution, ToGreenConvolution};
use clock_widget::color::Color;
use clock_widget::convolution::{Convolution, ConvolutionAdvanced, TickInput};
use clock_widget::fire::{FireConvolution, HeatFireConvolution};
use clock_widget::rising::CellularFireConvolution;
use clock_widget::time::{format_clock, text_origin, overlay, ClockTime, TimeConvolution};
use clock_widget::wave::{IdkConvolution, IdkParConvolution};

const SENTINEL: u32 = 0x123456;

fn input(width: usize, height: usize, wave: i32) -> TickInput {
    TickInput { wave: vec![wave; width * height], accent: 0x00AB_CDEF }
}

fn text(v: Vec<char>) -> String {
    v.into_iter().collect()
}

#[test]
fn single_color_fills_frame() {
    let mut c = SingleColorConvolution { red: 20, green: 20, blue: 20 };
    let mut pixels = vec![SENTINEL; 12];
    c.transform(&mut pixels, 4, 3, &input(4, 3, 0));
    assert_eq!(c.name(), "ToColor");
    assert!(pixels.iter().all(|&p| p == 0x141414));
}

#[test]
fn to_green_fills_frame() {
    let mut c = ToGreenConvolution;
    let mut pixels = vec![SENTINEL; 6];
    c.transform(&mut pixels, 3, 2, &input(3, 2, 0));
    assert_eq!(c.name(), "ToGreen");
    assert!(pixels.iter().all(|&p| p == 0x00FF00));
}

fn noise_color(s: u32) -> u32 {
    let ch = |k: u64| ((s as u64 * k / 1000).min(255)) as u8;
    Color::rgb(ch(255), ch(180), ch(100))
}

#[test]
fn noise_fire_draws_warm_colors() {
    let mut c = FireConvolution { intensity: 1000 };
    let mut pixels = vec![SENTINEL; 40];
    c.transform(&mut pixels, 8, 5, &input(8, 5, 0));
    assert_eq!(pixels.len(), 40);
    for &p in &pixels {
        assert!(p < 0x100_0000);
        assert!((0..1000).any(|s| noise_color(s) == p));
    }
    assert!(pixels.iter().any(|&p| p != pixels[0]));
}

#[test]
fn noise_fire_zero_intensity_is_black() {
    let mut c = FireConvolution { intensity: 0 };
    let mut pixels = vec![SENTINEL; 4];
    c.transform(&mut pixels, 2, 2, &input(2, 2, 0));
    assert_eq!(pixels, vec![0; 4]);
}

#[test]
fn heat_fire_zero_base_adds_no_heat() {
    let mut c = HeatFireConvolution::new(0, 500, 6, 4);
    let mut pixels = vec![SENTINEL; 24];
    c.transform(&mut pixels, 6, 4, &input(6, 4, 0));
    assert_eq!(c.heat_values(), vec![0; 24]);
    assert_eq!(pixels, vec![0; 24]);
}

#[test]
fn heat_fire_accumulates_then_resets() {
    let (w, h) = (10usize, 10usize);
    let mut c = HeatFireConvolution::new(4000, 1000, w, h);
    let mut pixels = vec![SENTINEL; w * h];
    let mut last = c.heat_values();
    for _ in 0..5 {
        c.transform(&mut pixels, w, h, &input(w, h, 0));
        let heat = c.heat_values();
        for i in 0..w * h {
            let ceiling = 4000u32 * (10 - (i / w) as u32) / 10;
            assert!(heat[i] >= last[i]);
            assert!(heat[i] < last[i] + ceiling.max(1));
            let ch = |k: u64| ((heat[i] as u64 * k / 1000).min(255)) as u8;
            assert_eq!(pixels[i], Color::rgb(ch(255), ch(150), ch(50)));
        }
        last = heat;
    }
    assert!(last.iter().any(|&v| v > 0));
    c.reset();
    assert_eq!(c.heat_values(), vec![0; w * h]);
}

#[test]
fn wave_fire_keeps_margin_and_paints_inside() {
    let (w, h) = (100usize, 100usize);
    let mut c = IdkConvolution::new(w, h);
    let mut pixels = vec![SENTINEL; w * h];
    c.transform(&mut pixels, w, h, &input(w, h, 100));
    let inside = Color::rgb(255, 48, 0);
    for y in 0..h {
        for x in 0..w {
            let p = pixels[y * w + x];
            let framed = x > 2 && x < 98 && y > 2 && y < 98;
            if framed {
                assert_eq!(p, inside, "at {x},{y}");
            } else {
                assert_eq!(p, SENTINEL, "at {x},{y}");
            }
        }
    }
    assert_eq!(pixels[0], SENTINEL);
    assert_eq!(pixels[99], SENTINEL);
    assert_eq!(pixels[50 * w + 97], inside);
}

#[test]
fn wave_fire_clamps_amplitude() {
    let (w, h) = (50usize, 50usize);
    let mut low = IdkConvolution::new(w, h);
    let mut pixels = vec![SENTINEL; w * h];
    low.transform(&mut pixels, w, h, &input(w, h, -40));
    assert_eq!(pixels[25 * w + 25], Color::rgb(33, 0, 0));
    let mut high = IdkConvolution::new(w, h);
    high.transform(&mut pixels, w, h, &input(w, h, 900));
    assert_eq!(pixels[25 * w + 25], Color::rgb(255, 255, 255));
    assert_eq!(pixels[0], SENTINEL);
}

#[test]
fn parallel_wave_fire_matches_sequential() {
    let (w, h) = (64usize, 48usize);
    let wave: Vec<i32> = (0..w * h).map(|i| (i as i32 * 7) % 300 - 20).collect();
    let tick = TickInput { wave, accent: 0 };
    let start: Vec<u32> = (0..w * h).map(|i| (i as u32 * 31) % 0x100_0000).collect();
    let mut a = start.clone();
    let mut b = start.clone();
    IdkConvolution::new(w, h).transform(&mut a, w, h, &tick);
    IdkParConvolution::new(w, h).transform(&mut b, w, h, &tick);
    assert_eq!(a, b);
    assert_ne!(a, start);
    let mut c = IdkParConvolution::new(w, h);
    c.reset();
    assert_eq!(c.name(), "RisingFire");
}

#[test]
fn cellular_fire_reseeds_and_keeps_zero_cells() {
    let (w, h) = (12usize, 9usize);
    let mut c = CellularFireConvolution::new(w, h);
    let palette = IdkConvolution::gen_palette();
    for _ in 0..4 {
        let mut pixels = vec![SENTINEL; w * h];
        c.transform(&mut pixels, w, h, &input(w, h, 0));
        let cells = c.cell_values();
        for i in (h - 1) * w..w * h {
            assert!(cells[i] < 255);
        }
        for i in 0..w * h {
            assert!(cells[i] < 255);
            if cells[i] == 0 {
                assert_eq!(pixels[i], SENTINEL);
            } else {
                assert_eq!(Some(&pixels[i]), palette.get(cells[i] as usize));
            }
        }
    }
    c.reset();
    assert_eq!(c.cell_values(), vec![0; w * h]);
}

#[test]
fn cellular_update_weights() {
    let (w, h) = (3usize, 2usize);
    let mut c = CellularFireConvolution::new(w, h);
    let mut pixels = vec![SENTINEL; w * h];
    c.transform(&mut pixels, w, h, &input(w, h, 0));
    let cells = c.cell_values();
    let expected = (160 * cells[3] + 320 * cells[4] + 160 * cells[5]) * 100 / 68680;
    assert_eq!(cells[1], expected);
    assert_eq!(cells[0], 0);
    assert_eq!(cells[2], 0);
}

#[test]
fn clock_text_formats() {
    let t = ClockTime { hour: 9, minute: 5, second: 7 };
    assert_eq!(text(format_clock(t, true)), "09:05:07");
    assert_eq!(text(format_clock(t, false)), "09:05:07AM");
    let t = ClockTime { hour: 0, minute: 0, second: 0 };
    assert_eq!(text(format_clock(t, false)), "12:00:00AM");
    assert_eq!(text(format_clock(t, true)), "00:00:00");
    let t = ClockTime { hour: 13, minute: 4, second: 59 };
    assert_eq!(text(format_clock(t, false)), "01:04:59PM");
    let t = ClockTime { hour: 12, minute: 30, second: 0 };
    assert_eq!(text(format_clock(t, false)), "12:30:00PM");
    assert_eq!(text(format_clock(ClockTime { hour: 23, minute: 59, second: 59 }, true)), "23:59:59");
}

#[test]
fn text_origin_centres() {
    assert_eq!(text_origin(480, 360, 8), (223, 176));
    assert_eq!(text_origin(480, 360, 10), (218, 176));
    assert_eq!(text_origin(10, 3, 8), (0, 0));
    assert_eq!(text_origin(10, 3, 1), (6, 0));
    assert_eq!(text_origin(11, 9, 1), (6, 1));
    assert_eq!(text_origin(11, 7, 0), (9, 0));
    assert_eq!(text_origin(40, 20, 2), (18, 6));
}

#[test]
fn overlay_paints_non_zero_mask() {
    let mut pixels = vec![1, 2, 3, 4];
    overlay(&mut pixels, &vec![0, 9, 0, 8]);
    assert_eq!(pixels, vec![1, 9, 3, 8]);
}

#[test]
fn time_layer_draws_in_its_color() {
    let (w, h) = (100usize, 20usize);
    let mut c = TimeConvolution { f24: true, color: Some(0x00FF_00FF) };
    let mut pixels = vec![SENTINEL; w * h];
    c.transform(&mut pixels, w, h, &input(w, h, 0));
    assert!(pixels.iter().all(|&p| p == SENTINEL || p == 0x00FF_00FF));
    assert!(pixels.iter().any(|&p| p == 0x00FF_00FF));
    let mut c = TimeConvolution { f24: false, color: None };
    let mut pixels = vec![SENTINEL; w * h];
    c.transform(&mut pixels, w, h, &input(w, h, 0));
    assert!(pixels.iter().all(|&p| p == SENTINEL || p == 0x00AB_CDEF));
    assert!(pixels.iter().any(|&p| p == 0x00AB_CDEF));
    assert_eq!(c.name(), "Time");
}

#[test]
fn time_layer_tiny_frame() {
    let mut c = TimeConvolution { f24: false, color: Some(5) };
    let mut pixels = vec![SENTINEL; 1];
    c.transform(&mut pixels, 1, 1, &input(1, 1, 0));
    assert!(pixels[0] == SENTINEL || pixels[0] == 5);
}
