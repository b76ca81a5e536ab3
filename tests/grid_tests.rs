use table_ocr::grid::{sort_positions, Extents, Grid, GridEdit, HorizSep, Point, SepRef, VertSep, UNIT};

fn ys(g: &Grid) -> Vec<i64> {
    g.horizontals.iter().map(|h| h.y).collect()
}

fn xs(g: &Grid) -> Vec<i64> {
    g.verticals.iter().map(|v| v.x).collect()
}

#[test]
fn new_grid_has_two_separators_each_way() {
    let g = Grid::new();
    assert_eq!(ys(&g), vec![800000, 900000]);
    assert_eq!(xs(&g), vec![100000, 200000]);
}

#[test]
fn removals_never_go_below_two() {
    let mut g = Grid::new();
    assert!(!g.remove_horizontal());
    assert!(!g.remove_vertical());
    g.add_horizontal(100);
    g.add_vertical(300);
    let edits = [
        GridEdit::RemoveHorizontal,
        GridEdit::RemoveHorizontal,
        GridEdit::RemoveVertical,
        GridEdit::RemoveVertical,
        GridEdit::AddHorizontal(7),
        GridEdit::RemoveHorizontal,
        GridEdit::RemoveHorizontal,
    ];
    for e in edits {
        g.apply(e);
        assert!(g.horizontals.len() >= 2);
        assert!(g.verticals.len() >= 2);
    }
    assert_eq!(g.horizontals.len(), 2);
    assert_eq!(g.verticals.len(), 2);
}

#[test]
fn horizontal_removal_takes_first_vertical_takes_last() {
    let mut g = Grid::new();
    g.add_horizontal(50);
    g.add_vertical(700);
    assert!(g.remove_horizontal());
    assert!(g.remove_vertical());
    assert_eq!(ys(&g), vec![900000, 50]);
    assert_eq!(xs(&g), vec![100000, 200000]);
}

#[test]
fn sort_orders_and_extents_are_ordered() {
    let mut g = Grid::new();
    g.add_horizontal(300000);
    g.add_horizontal(-5);
    g.add_vertical(50000);
    g.add_vertical(150000);
    g.sort();
    assert_eq!(ys(&g), vec![-5, 300000, 800000, 900000]);
    assert_eq!(xs(&g), vec![50000, 100000, 150000, 200000]);
    let e = g.extents();
    assert_eq!(e, Extents { xmin: 50000, xmax: 200000, ymin: -5, ymax: 900000 });
    assert!(e.xmin <= e.xmax && e.ymin <= e.ymax);
}

#[test]
fn sort_positions_keeps_duplicates() {
    let v = vec![3, -1, 3, 0, i64::MIN, i64::MAX];
    assert_eq!(sort_positions(&v), vec![i64::MIN, -1, 0, 3, 3, i64::MAX]);
    assert_eq!(sort_positions(&vec![]), Vec::<i64>::new());
}

#[test]
fn translate_refuses_overflow() {
    let mut h = HorizSep { y: 10 };
    assert!(h.translate(-30));
    assert_eq!(h.y, -20);
    let mut v = VertSep { x: i64::MAX - 1 };
    assert!(!v.translate(2));
    assert_eq!(v.x, i64::MAX - 1);
}

#[test]
fn translate_all_moves_everything_or_nothing() {
    let mut g = Grid::new();
    assert!(g.translate_all(10, -20));
    assert_eq!(ys(&g), vec![799980, 899980]);
    assert_eq!(xs(&g), vec![100010, 200010]);
    g.add_vertical(i64::MAX);
    assert!(!g.translate_all(1, 0));
    assert_eq!(xs(&g), vec![100010, 200010, i64::MAX]);
    assert_eq!(ys(&g), vec![799980, 899980]);
}

#[test]
fn hit_test_needs_both_axes() {
    let e = Extents { xmin: 100000, xmax: 200000, ymin: 800000, ymax: 900000 };
    let h = HorizSep { y: 800000 };
    assert!(h.in_bounds(5000, &e, Point { x: 150000, y: 803000 }));
    assert!(!h.in_bounds(5000, &e, Point { x: 150000, y: 805000 }));
    assert!(!h.in_bounds(5000, &e, Point { x: 100000, y: 800000 }));
    let v = VertSep { x: 100000 };
    assert!(v.in_bounds(5000, &e, Point { x: 96000, y: 850000 }));
    assert!(!v.in_bounds(5000, &e, Point { x: 96000, y: 950000 }));
}

#[test]
fn drag_takes_first_horizontal_before_vertical() {
    let mut g = Grid::new();
    let e = g.extents();
    // Near the corner where the first horizontal meets the first vertical,
    // but strictly inside the extents on both axes.
    let p = Point { x: 100001, y: 800001 };
    assert_eq!(g.drag_target(5000, 5000, &e, p), Some(SepRef::Horizontal(0)));
    let q = Point { x: 199000, y: 850000 };
    assert_eq!(g.drag_target(5000, 5000, &e, q), Some(SepRef::Vertical(1)));
    let far = Point { x: 500000, y: 500000 };
    assert_eq!(g.drag_target(5000, 5000, &e, far), None);
    assert!(g.drag(SepRef::Vertical(1), 1000, 99));
    assert_eq!(xs(&g), vec![100000, 201000]);
    assert!(g.drag(SepRef::Horizontal(0), 99, -1000));
    assert_eq!(ys(&g), vec![799000, 900000]);
    assert!(!g.drag(SepRef::Horizontal(5), 0, 1));
    assert_eq!(UNIT, 1000000);
}
