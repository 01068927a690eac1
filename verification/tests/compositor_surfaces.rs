use netrender::compositor_surfaces::bounds_of;
use netrender::compositor_surfaces::surfaces_to_declare;
use netrender::compositor_surfaces::surfaces_to_destroy;
use netrender::compositor_surfaces::Bounds;
use netrender::compositor_surfaces::Surface;
use netrender::single::Single;

fn surface(key: u64, side: f32) -> Surface {
    let side = Single::from_bits(side.to_bits());
    let bounds = Bounds { x0: Single::zero(), y0: Single::zero(), x1: side, y1: side };
    Surface { key, bounds }
}

#[test]
fn only_changes_are_told() {
    let last = vec![surface(1, 4.0), surface(2, 4.0), surface(3, 4.0)];
    let now = vec![surface(4, 4.0), surface(3, 4.0), surface(2, 8.0)];
    assert_eq!(surfaces_to_destroy(&last, &now), [1]);
    assert_eq!(surfaces_to_declare(&last, &now), [surface(4, 4.0), surface(2, 8.0)]);
}

#[test]
fn the_same_surfaces_in_another_order_are_no_change() {
    let last = vec![surface(1, 4.0), surface(2, 8.0)];
    let now = vec![surface(2, 8.0), surface(1, 4.0)];
    assert_eq!(surfaces_to_destroy(&last, &now), []);
    assert_eq!(surfaces_to_declare(&last, &now), []);
}

#[test]
fn the_later_entry_of_a_surface_counts() {
    let twice = vec![surface(1, 4.0), surface(2, 4.0), surface(1, 8.0)];
    assert_eq!(bounds_of(&twice, 1), Some(surface(1, 8.0).bounds));
    assert_eq!(bounds_of(&twice, 3), None);
    assert_eq!(surfaces_to_declare(&vec![], &twice), [surface(2, 4.0), surface(1, 8.0)]);
    assert_eq!(surfaces_to_destroy(&twice, &vec![]), [2, 1]);
}
