use pvz_remote::control::control::{checked_client_point, click_lparam, to_client_point, Point};

#[test]
fn scales_video_click_to_client_area() {
    let p = to_client_point(&vec![100, 50, 200, 100], 800, 600);
    assert_eq!(p, Point { x: 400, y: 300 });
}

#[test]
fn scaling_rounds_toward_zero() {
    let p = to_client_point(&vec![1, 2, 3, 3], 2, 2);
    assert_eq!(p, Point { x: 0, y: 1 });
    let q = to_client_point(&vec![-7, 7, 2, -2], 1, 1);
    assert_eq!(q, Point { x: -3, y: -3 });
    let r = to_client_point(&vec![5, -5, i32::MIN, -3], 1, 2);
    assert_eq!(r, Point { x: 0, y: 3 });
    let s = to_client_point(&vec![i32::MIN, 0, i32::MIN, 1], 1, 1);
    assert_eq!(s, Point { x: 1, y: 0 });
}

#[test]
fn scaling_keeps_edges() {
    let p = to_client_point(&vec![0, 1080, 1920, 1080], 1280, 720);
    assert_eq!(p, Point { x: 0, y: 720 });
}

#[test]
fn extra_numbers_are_ignored() {
    let p = to_client_point(&vec![10, 10, 20, 20, 99, -1], 100, 50);
    assert_eq!(p, Point { x: 50, y: 25 });
}

#[test]
fn checked_scaling_refuses_what_cannot_be_computed() {
    assert_eq!(checked_client_point(&vec![1, 2, 3], 10, 10), None);
    assert_eq!(checked_client_point(&vec![1, 2, 0, 3], 10, 10), None);
    assert_eq!(checked_client_point(&vec![1, 2, 3, 0], 10, 10), None);
    assert_eq!(checked_client_point(&vec![i32::MAX, 2, 3, 4], 2, 10), None);
    assert_eq!(checked_client_point(&vec![i32::MIN, 2, -1, 4], 1, 10), None);
    assert_eq!(
        checked_client_point(&vec![100, 50, 200, 100], 800, 600),
        Some(Point { x: 400, y: 300 })
    );
}

#[test]
fn lparam_packs_y_above_x() {
    assert_eq!(click_lparam(Point { x: 400, y: 300 }), 300 * 65536 + 400);
    assert_eq!(click_lparam(Point { x: 0, y: 0 }), 0);
    assert_eq!(click_lparam(Point { x: 0x7fff, y: 0x7fff }), 0x7fff_7fff);
    let l = click_lparam(Point { x: 1234, y: 567 });
    assert_eq!(l % 0x10000, 1234);
    assert_eq!(l / 0x10000, 567);
}

#[test]
fn lparam_keeps_all_bits_of_x() {
    let l = click_lparam(Point { x: -1, y: 0 }) as i64;
    let expected = (u32::MAX as isize) as i64;
    assert_eq!(l, expected);
}

#[test]
fn scaling_keeps_order() {
    let mut last = i32::MIN;
    for x in 0..=640 {
        let p = to_client_point(&vec![x, 0, 640, 480], 1023, 767);
        assert!(p.x >= last);
        last = p.x;
    }
    assert_eq!(last, 1023);
}
