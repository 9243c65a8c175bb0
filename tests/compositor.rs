use clock_widget::base::SingleColorConvolution;
use clock_widget::color::Color;
use clock_widget::convolution::TickInput;
use clock_widget::fire::HeatFireConvolution;
use clock_widget::layers::{AdvancedConvolution, ConvolutionType, SimpleConvolution};
use clock_widget::window::{Keys, Window};

fn fill(red: u8, green: u8, blue: u8) -> ConvolutionType {
    ConvolutionType::Simple(SimpleConvolution::SingleColor(SingleColorConvolution { red, green, blue }))
}

fn tick(w: usize, h: usize) -> TickInput {
    TickInput { wave: vec![0; w * h], accent: 0 }
}

fn keys() -> Keys {
    Keys { open: true, exit: false, first_background: false, second_background: false, reset: false, clock: false }
}

#[test]
fn later_layer_paints_over_earlier() {
    let mut win = Window::new(5, 4);
    win.push(fill(255, 0, 0), true);
    win.push(fill(0, 0, 255), true);
    win.apply_convolutions(&tick(5, 4));
    assert_eq!(win.buffer(), vec![Color::rgb(0, 0, 255); 20]);
}

#[test]
fn disabled_layer_is_skipped() {
    let mut win = Window::new(3, 3);
    win.push(fill(255, 0, 0), true);
    win.push(fill(0, 0, 255), false);
    win.apply_convolutions(&tick(3, 3));
    assert_eq!(win.buffer(), vec![0xFF0000; 9]);
    win.toggle(0);
    win.toggle(1);
    win.apply_convolutions(&tick(3, 3));
    assert_eq!(win.buffer(), vec![0x0000FF; 9]);
}

#[test]
fn disabled_heat_layer_keeps_its_state() {
    let mut win = Window::new(4, 4);
    win.push(ConvolutionType::Advanced(AdvancedConvolution::HeatFire(HeatFireConvolution::new(3000, 0, 4, 4))), false);
    win.apply_convolutions(&tick(4, 4));
    assert_eq!(win.buffer(), vec![0; 16]);
}

#[test]
fn toggle_twice_restores() {
    let mut win = Window::new(2, 2);
    win.push(fill(1, 2, 3), true);
    win.push(fill(4, 5, 6), false);
    win.toggle(1);
    assert_eq!(win.is_enabled(1), Some(true));
    win.toggle(1);
    assert_eq!(win.is_enabled(1), Some(false));
    win.toggle(0);
    win.toggle(0);
    assert_eq!(win.is_enabled(0), Some(true));
    win.toggle(7);
    assert_eq!(win.len(), 2);
    assert_eq!(win.is_enabled(7), None);
}

#[test]
fn reset_on_all_disabled_changes_nothing() {
    let mut win = Window::new(3, 2);
    win.push(fill(9, 9, 9), true);
    win.apply_convolutions(&tick(3, 2));
    win.toggle(0);
    let before = win.buffer();
    win.reset_convolutions();
    assert_eq!(win.buffer(), before);
    assert_eq!(win.is_enabled(0), Some(false));
}

#[test]
fn keys_drive_the_stack() {
    let mut win = Window::with_default_layers(40, 30);
    assert_eq!(win.len(), 4);
    assert_eq!(win.width(), 40);
    assert_eq!(win.height(), 30);
    let states = |w: &Window| (0..4).map(|i| w.is_enabled(i).unwrap()).collect::<Vec<_>>();
    assert_eq!(states(&win), vec![true, false, false, true]);
    assert!(win.handle_keys(&Keys { first_background: true, ..keys() }));
    assert_eq!(states(&win), vec![true, true, false, true]);
    assert!(win.handle_keys(&Keys { second_background: true, clock: true, reset: true, ..keys() }));
    assert_eq!(states(&win), vec![true, true, true, false]);
    assert!(!win.handle_keys(&Keys { exit: true, first_background: true, ..keys() }));
    assert_eq!(states(&win), vec![true, true, true, false]);
    assert!(!win.handle_keys(&Keys { open: false, ..keys() }));
}

#[test]
fn default_stack_paints_background() {
    let mut win = Window::with_default_layers(8, 6);
    win.toggle(3);
    win.apply_convolutions(&tick(8, 6));
    assert_eq!(win.buffer(), vec![Color::rgb(20, 20, 20); 48]);
}

#[test]
fn frame_stays_packed() {
    let (w, h) = (30usize, 20usize);
    let mut win = Window::with_default_layers(w, h);
    win.toggle(1);
    win.push(ConvolutionType::Advanced(AdvancedConvolution::HeatFire(HeatFireConvolution::new(5000, 300, w, h))), true);
    let wave: Vec<i32> = (0..w * h).map(|i| (i as i32 * 13) % 400 - 50).collect();
    for _ in 0..3 {
        win.apply_convolutions(&TickInput { wave: wave.clone(), accent: 0x00_1234 });
        let buf = win.buffer();
        assert_eq!(buf.len(), w * h);
        assert!(buf.iter().all(|&p| p < 0x100_0000));
    }
}
