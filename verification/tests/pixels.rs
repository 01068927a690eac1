use netrender::pixels::cpu_image;
use netrender::pixels::delta;
use netrender::pixels::pixel;
use netrender::pixels::pixmap_bytes;
use netrender::pixels::rgba_bytes;

#[test]
fn pixels_become_bytes_in_order() {
    assert_eq!(rgba_bytes(&vec![]), []);
    assert_eq!(rgba_bytes(&vec![(1, 2, 3, 4), (5, 6, 7, 8)]), [1, 2, 3, 4, 5, 6, 7, 8]);
}

#[test]
fn a_cpu_image_becomes_bytes_row_by_row() {
    let mut pixmap = vello_cpu::Pixmap::new(2, 2);
    for (i, p) in pixmap.data_mut().iter_mut().enumerate() {
        p.r = 10 * i as u8;
        p.g = 10 * i as u8 + 1;
        p.b = 10 * i as u8 + 2;
        p.a = 10 * i as u8 + 3;
    }
    let bytes = pixmap_bytes(&pixmap);
    assert_eq!(bytes, [0, 1, 2, 3, 10, 11, 12, 13, 20, 21, 22, 23, 30, 31, 32, 33]);
    assert_eq!(pixel(&bytes, 2, 1, 0), [10, 11, 12, 13]);
    assert_eq!(pixel(&bytes, 2, 0, 1), [20, 21, 22, 23]);
}

#[test]
fn delta_adds_up_the_channels() {
    assert_eq!(delta([1, 2, 3, 4], [1, 2, 3, 4]), 0);
    assert_eq!(delta([0, 255, 10, 4], [255, 0, 13, 2]), 515);
    assert_eq!(delta([255, 0, 13, 2], [0, 255, 10, 4]), 515);
    assert_eq!(delta([0; 4], [255; 4]), 1020);
    let (a, b, c) = ([0, 9, 200, 7], [40, 3, 100, 7], [90, 0, 50, 255]);
    assert!(delta(a, c) <= delta(a, b) + delta(b, c));
}

#[test]
fn a_new_cpu_image_is_blank() {
    assert_eq!(pixmap_bytes(&cpu_image(3).unwrap()), [0; 36]);
    assert_eq!(pixmap_bytes(&cpu_image(0).unwrap()), []);
    assert!(cpu_image(65536).is_none());
}
