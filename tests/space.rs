use rusterizer::space::{
    create_space_transforms, PixelTransformError::BadViewVolume, Point, Space, SpaceError, Transform,
    ViewVolume, MAX_EXTENT, WINDOW_UNIT,
};

fn ratio(num: i64, den: i64) -> f64 {
    num as f64 / den as f64
}

fn window(w: f64) -> i32 {
    (w * WINDOW_UNIT as f64).round() as i32
}

#[test]
fn pixel_bigger() {
    let p = Transform::new(100, -1, 1, 2).unwrap();
    assert_eq!(ratio(p.shift_num, p.den), 50.0);
    assert_eq!(ratio(p.scale_num, p.den), 100.0);
}

#[test]
fn pixel_smaller() {
    let p = Transform::new(40, -50, 50, 1).unwrap();
    assert_eq!(ratio(p.shift_num, p.den), 20.0);
    assert_eq!(ratio(p.scale_num, p.den), 0.4);
}

#[test]
fn bad_input() {
    let p = Transform::new(100, -10, 11, 1);
    assert_eq!(p, Err(BadViewVolume))
}

#[test]
fn empty_interval_is_rejected() {
    assert_eq!(Transform::new(100, 0, 0, 1), Err(BadViewVolume));
}

#[test]
fn view_volume_width_bigger() {
    let vv = ViewVolume::new(100, 50);
    assert_ne!(ratio(vv.bottom, vv.unit), ratio(vv.left, vv.unit));
    assert_eq!(ratio(vv.bottom, vv.unit), -1.0);
    assert_eq!(ratio(vv.right, vv.unit), 2.0);
}

#[test]
fn view_volume_height_bigger() {
    let vv = ViewVolume::new(40, 50);
    assert_ne!(ratio(vv.bottom, vv.unit), ratio(vv.left, vv.unit));
    assert_eq!(ratio(vv.bottom, vv.unit), -1.25);
    assert_eq!(ratio(vv.right, vv.unit), 1.0);
}

fn is_square(vv: ViewVolume) {
    assert_eq!(vv.top, -vv.left);
    assert_eq!(vv.top, vv.right);
    assert_eq!(vv.top, -vv.bottom);
    assert_eq!(ratio(vv.top, vv.unit), 1.0);
}

#[test]
fn view_volume_dimensions_same() {
    let vv = ViewVolume::new(100, 100);
    is_square(vv);
}

#[test]
fn view_volume_symmetric_with_grid_aspect() {
    for (w, h) in [(1u32, 1u32), (1, 7), (640, 480), (3, 1000), (MAX_EXTENT, 1)] {
        let vv = ViewVolume::new(w, h);
        assert_eq!(vv.right, -vv.left);
        assert_eq!(vv.top, -vv.bottom);
        assert_eq!(
            (vv.top - vv.bottom) as i128 * w as i128,
            (vv.right - vv.left) as i128 * h as i128
        );
        assert_eq!(vv.unit, w.min(h) as i64);
    }
}

#[test]
fn space_square_init() {
    let space = Space::new(100, 100).unwrap();
    assert_eq!(
        ratio(space.x_transform.scale_num, space.x_transform.den),
        ratio(space.y_transform.scale_num, space.y_transform.den)
    );
    assert_eq!(
        ratio(space.x_transform.shift_num, space.x_transform.den),
        ratio(space.y_transform.shift_num, space.y_transform.den)
    );
}

#[test]
fn window_to_pixel() {
    let space = Space::new(200, 100).unwrap();
    let dimension_ratio = 2.0;

    let min_pic = -dimension_ratio;
    let min_vv = -1.0;
    let max_vv = 1.0;
    let max_pic = dimension_ratio;
    assert_eq!(space.x_transform.window_to_pixel(window(min_pic)), 0);
    assert_eq!(
        space.x_transform.window_to_pixel(window(min_vv)),
        (200f64 * 0.25).round() as i64
    );

    assert_eq!(
        space.x_transform.window_to_pixel(window(max_vv)),
        ((200f64 * 0.75).round() as i64)
    );
    assert_eq!(space.x_transform.window_to_pixel(window(max_pic)), 199);
}

#[test]
fn window_to_pixel_rounds_to_nearest() {
    // 16 by 16 pixels: pixel = 8 * w + 8, and 4096 units are 1 / 16.
    let space = Space::new(16, 16).unwrap();
    let t = space.x_transform;
    assert_eq!(t.window_to_pixel(4096), 9); // 8.5: halves round away from zero
    assert_eq!(t.window_to_pixel(4095), 8); // just below 8.5
    assert_eq!(t.window_to_pixel(-4096), 8); // 7.5
    assert_eq!(t.window_to_pixel(-4097), 7); // just below 7.5
}

#[test]
fn window_to_pixel_clamps_and_is_monotonic() {
    let space = Space::new(37, 23).unwrap();
    let mut previous = (0i64, 0i64);
    let mut w = i32::MIN as i64;
    while w <= i32::MAX as i64 {
        let f = space.window_to_pixel(Point { x: w as i32, y: w as i32, z: 0 });
        assert!(0 <= f.x && f.x < 37);
        assert!(0 <= f.y && f.y < 23);
        assert!(f.x >= previous.0 && f.y >= previous.1);
        previous = (f.x, f.y);
        w += 1 << 12;
    }
    let lo = space.window_to_pixel(Point { x: i32::MIN, y: i32::MIN, z: 0 });
    let hi = space.window_to_pixel(Point { x: i32::MAX, y: i32::MAX, z: 0 });
    assert_eq!((lo.x, lo.y), (0, 0));
    assert_eq!((hi.x, hi.y), (36, 22));
}

#[test]
fn depth_is_negated() {
    let space = Space::new(4, 4).unwrap();
    let f = space.window_to_pixel(Point { x: 0, y: 0, z: 1234 });
    assert_eq!(f.z, -1234);
    let g = space.window_to_pixel(Point { x: 0, y: 0, z: i32::MIN });
    assert_eq!(g.z, 2147483648);
}

#[test]
fn extents_out_of_range_are_rejected() {
    assert_eq!(Space::new(0, 10).unwrap_err(), SpaceError::Init);
    assert_eq!(Space::new(10, 0).unwrap_err(), SpaceError::Init);
    assert_eq!(Space::new(MAX_EXTENT + 1, 10).unwrap_err(), SpaceError::Init);
    assert!(Space::new(MAX_EXTENT, 1).is_ok());
}

#[test]
fn create_space_transforms_builds_the_space() {
    let s = create_space_transforms(200, 100);
    assert_eq!(s, Space::new(200, 100).unwrap());
    assert_eq!(s.x_transform.extent, 200);
    assert_eq!(s.y_transform.extent, 100);
}
