use benediction::{Color, Fire, Pixel, FUEL_THRESHOLD};

#[test]
fn new_grid_is_zeroed_with_border() {
    let fire = Fire::new(4, 3);
    assert_eq!(fire.heat_grid().len(), 6 * 5);
    assert!(fire.heat_grid().iter().all(|&h| h == 0));
}

#[test]
fn update_resizes_and_zeroes() {
    let mut fire = Fire::new(3, 3);
    fire.step(3, 3, &vec![u32::MAX; 3]);
    assert!(fire.heat_grid().iter().any(|&h| h != 0));
    fire.update(5, 2);
    assert_eq!(fire.heat_grid().len(), 7 * 4);
    assert!(fire.heat_grid().iter().all(|&h| h == 0));
    fire.update(0, 0);
    assert_eq!(fire.heat_grid().len(), 4);
}

#[test]
fn first_unlit_step_cools_zero_to_two() {
    let mut fire = Fire::new(3, 3);
    fire.step(3, 3, &vec![0; 3]);
    let mut expected = vec![2u8; 9];
    expected.extend(vec![0u8; 16]);
    assert_eq!(fire.heat_grid(), &expected);
}

#[test]
fn unlit_fire_settles_on_fixed_point() {
    let mut fire = Fire::new(3, 3);
    for _ in 0..20 {
        fire.step(3, 3, &vec![0; 3]);
        assert!(fire.heat_grid().iter().all(|&h| h <= 2));
    }
    let mut expected = vec![1u8, 1, 1, 2, 1, 1, 2, 2, 2];
    expected.extend(vec![0u8; 16]);
    assert_eq!(fire.heat_grid(), &expected);
    fire.step(3, 3, &vec![0; 3]);
    assert_eq!(fire.heat_grid(), &expected);
}

#[test]
fn draws_above_threshold_light_the_fuel_row() {
    let mut fire = Fire::new(3, 3);
    fire.step(3, 3, &vec![4_000_000_000, FUEL_THRESHOLD, FUEL_THRESHOLD + 1]);
    let g = fire.heat_grid();
    assert_eq!(&g[9..12], &[255, 0, 255]);
    fire.step(3, 3, &vec![0; 3]);
    let g = fire.heat_grid();
    assert_eq!(&g[0..9], &[0, 0, 63, 62, 62, 62, 62, 61, 61]);
    assert_eq!(&g[9..12], &[0, 0, 0]);
}

#[test]
fn pixel_reads_fire_palette() {
    let mut fire = Fire::new(3, 3);
    fire.step(3, 3, &vec![u32::MAX; 3]);
    fire.step(3, 3, &vec![0; 3]);
    // heat 63 at (2, 0)
    let p = fire.pixel(3, 3, 2, 0);
    assert_eq!(
        p,
        Pixel { ch: ' ', fg: Color::Default, bg: Color::Rgb([63, 15, 3]) }
    );
    // heat 0 at the first cell of a fresh fire
    let cold = Fire::new(2, 2);
    assert_eq!(cold.pixel(2, 2, 1, 1).bg, Color::Rgb([0, 0, 0]));
}

#[test]
fn render_emits_every_cell_in_row_major_order() {
    let mut fire = Fire::new(4, 3);
    let mut seen = Vec::new();
    fire.render(4, 3, |x, y, p: Pixel| {
        assert_eq!(p.ch, ' ');
        assert_eq!(p.fg, Color::Default);
        seen.push((x, y));
    });
    let mut expected = Vec::new();
    for y in 0..3 {
        for x in 0..4 {
            expected.push((x, y));
        }
    }
    assert_eq!(seen, expected);
}

#[test]
fn render_restarts_a_grid_of_another_size() {
    let mut fire = Fire::new(2, 2);
    let mut calls = 0;
    fire.render(5, 4, |_, _, _| calls += 1);
    assert_eq!(calls, 20);
    let g = fire.heat_grid();
    assert_eq!(g.len(), 7 * 6);
    // one step from a zeroed grid: every canvas cell cooled to 2
    assert!(g[0..20].iter().all(|&h| h == 2));
    assert!(g[20..25].iter().all(|&h| h == 0 || h == 255));
    assert!(g[25..].iter().all(|&h| h == 0));
}

#[test]
fn render_of_empty_canvas_calls_nothing() {
    let mut fire = Fire::new(0, 0);
    let mut calls = 0;
    fire.render(0, 0, |_, _, _| calls += 1);
    assert_eq!(calls, 0);
}
