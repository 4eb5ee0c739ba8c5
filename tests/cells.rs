use benediction::Cells;

fn walk(width: u32, height: u32) -> Vec<(u32, u32)> {
    let mut cells = Cells::new(width, height);
    let mut out = Vec::new();
    while let Some(c) = cells.next_cell() {
        out.push(c);
    }
    out
}

#[test]
fn walk_visits_each_cell_once_in_row_major_order() {
    let cells = walk(4, 3);
    assert_eq!(cells.len(), 12);
    let mut expected = Vec::new();
    for y in 0..3 {
        for x in 0..4 {
            expected.push((x, y));
        }
    }
    assert_eq!(cells, expected);
}

#[test]
fn walk_of_one_row() {
    assert_eq!(walk(2, 1), vec![(0, 0), (1, 0)]);
}

#[test]
fn walk_of_empty_grid_is_empty() {
    assert!(walk(0, 5).is_empty());
    assert!(walk(5, 0).is_empty());
    assert!(walk(0, 0).is_empty());
}

#[test]
fn walk_stays_done() {
    let mut cells = Cells::new(1, 1);
    assert_eq!(cells.next_cell(), Some((0, 0)));
    assert_eq!(cells.next_cell(), None);
    assert_eq!(cells.next_cell(), None);
}
