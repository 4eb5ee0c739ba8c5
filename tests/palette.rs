use benediction::{blobs_palette, new_palette, Color, Pixel, Plasma, PALETTE_LEN};

#[test]
fn new_palette_is_black() {
    let p = new_palette();
    assert_eq!(p.len(), PALETTE_LEN);
    for i in 0..=255u8 {
        assert_eq!(p.get(i), [0, 0, 0]);
    }
}

#[test]
fn lookup_clamps_levels() {
    let p = blobs_palette();
    assert_eq!(p.lookup(-1), p.get(0));
    assert_eq!(p.lookup(i64::MIN), p.get(0));
    assert_eq!(p.lookup(254), [31, 127, 127]);
    assert_eq!(p.lookup(255), [0, 0, 0]);
    assert_eq!(p.lookup(256), p.get(255));
    assert_eq!(p.lookup(i64::MAX), p.get(255));
    assert_eq!(p.lookup(100), [12, 50, 50]);
}

#[test]
fn blobs_palette_ramps() {
    let p = blobs_palette();
    assert_eq!(p.get(0), [0, 0, 0]);
    assert_eq!(p.get(17), [2, 8, 8]);
    assert_eq!(p.get(200), [25, 100, 100]);
}

#[test]
fn plasma_palette_entries() {
    let plasma = Plasma::new(10, 10);
    let at = |level: i64| plasma.pixel(level).bg;
    assert_eq!(at(0), Color::Rgb([0, 0, 0]));
    assert_eq!(at(22), Color::Rgb([14, 0, 0]));
    assert_eq!(at(42), Color::Rgb([254, 0, 0]));
    assert_eq!(at(43), Color::Rgb([254, 0, 9]));
    assert_eq!(at(64), Color::Rgb([0, 0, 254]));
    assert_eq!(at(107), Color::Rgb([14, 0, 0]));
    assert_eq!(at(169), Color::Rgb([0, 0, 18]));
    assert_eq!(at(170), Color::Rgb([0, 1, 0]));
    assert_eq!(at(212), Color::Rgb([254, 1, 0]));
    assert_eq!(at(213), Color::Rgb([254, 2, 9]));
    assert_eq!(at(254), Color::Rgb([0, 2, 18]));
    assert_eq!(at(255), Color::Rgb([0, 0, 0]));
}

#[test]
fn plasma_pixel_clamps_extreme_levels() {
    let mut plasma = Plasma::new(4, 4);
    plasma.update(8, 8);
    let low = plasma.pixel(-1_000_000);
    let high = plasma.pixel(1_000_000);
    assert_eq!(low, plasma.pixel(0));
    assert_eq!(high, plasma.pixel(255));
    assert_eq!(
        high,
        Pixel { ch: ' ', fg: Color::Default, bg: Color::Rgb([0, 0, 0]) }
    );
}

#[test]
fn color_equality_and_default() {
    assert_eq!(Color::default(), Color::Default);
    assert_ne!(Color::Rgb([1, 2, 3]), Color::Rgb([1, 2, 4]));
    assert_ne!(Color::Default, Color::Transparent);
    assert_eq!(Pixel::filled([1, 2, 3]).bg, Color::Rgb([1, 2, 3]));
}
