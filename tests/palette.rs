use clock_widget::color::{Color, Palette};
use clock_widget::wave::{IdkConvolution, IdkParConvolution};

#[test]
fn rgb_packs_channels() {
    assert_eq!(Color::rgb(1, 2, 3), 0x010203);
    assert_eq!(Color::rgb(255, 255, 255), 0xFF_FFFF);
    assert_eq!(Color::rgb(0, 0xFF, 0), 0x00FF00);
    assert_eq!(Color::rgb(0, 0, 0), 0);
}

#[test]
fn palette_appends_in_order() {
    let mut p = Palette::new();
    assert_eq!(p.len(), 0);
    assert_eq!(p.get(0), None);
    p.add_color(7);
    p.add_colors(vec![8, 9]);
    assert_eq!(p.len(), 3);
    assert_eq!(p.get(0), Some(&7));
    assert_eq!(p.get(1), Some(&8));
    assert_eq!(p.get(2), Some(&9));
    assert_eq!(p.get(3), None);
}

#[test]
fn fire_palette_entries() {
    let p = IdkConvolution::gen_palette();
    assert_eq!(p.len(), 255);
    assert_eq!(p.get(0), Some(&Color::rgb(3, 0, 0)));
    assert_eq!(p.get(84), Some(&Color::rgb(255, 0, 0)));
    assert_eq!(p.get(85), Some(&Color::rgb(255, 3, 0)));
    assert_eq!(p.get(100), Some(&Color::rgb(255, 48, 0)));
    assert_eq!(p.get(169), Some(&Color::rgb(255, 255, 0)));
    assert_eq!(p.get(170), Some(&Color::rgb(255, 255, 3)));
    assert_eq!(p.get(254), Some(&Color::rgb(255, 255, 255)));
    assert_eq!(p.get(255), None);
}

#[test]
fn parallel_palette_matches_sequential() {
    let a = IdkConvolution::gen_palette();
    let b = IdkParConvolution::gen_palette();
    assert_eq!(b.len(), 255);
    for i in 0..256usize {
        assert_eq!(a.get(i), b.get(i));
    }
    for i in 0..85usize {
        let step = ((i + 1) * 3) as u8;
        assert_eq!(b.get(i), Some(&Color::rgb(step, 0, 0)));
        assert_eq!(b.get(85 + i), Some(&Color::rgb(255, step, 0)));
        assert_eq!(b.get(170 + i), Some(&Color::rgb(255, 255, step)));
    }
}
