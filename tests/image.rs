use rusterizer::grid::FAR;
use rusterizer::image::{encode_rgba, shade_channel};
use rusterizer::space::WINDOW_UNIT;

#[test]
fn shading_maps_depth_onto_the_base_colour() {
    assert_eq!(shade_channel(-WINDOW_UNIT, 165), 165);
    assert_eq!(shade_channel(0, 165), 82);
    assert_eq!(shade_channel(0, 255), 127);
    assert_eq!(shade_channel(WINDOW_UNIT, 214), 0);
    assert_eq!(shade_channel(WINDOW_UNIT / 2, 200), 50);
}

#[test]
fn shading_clamps_far_depths() {
    assert_eq!(shade_channel(FAR, 255), 0);
    assert_eq!(shade_channel(3 * WINDOW_UNIT, 165), 0);
}

#[test]
fn shading_saturates_near_depths() {
    assert_eq!(shade_channel(-3 * WINDOW_UNIT, 165), 255);
    assert_eq!(shade_channel(i64::MIN, 100), 255);
}

#[test]
fn rgba_has_four_channels_per_cell() {
    let data = encode_rgba(&[FAR, 0, -WINDOW_UNIT]);
    assert_eq!(
        data,
        vec![0, 0, 0, 0, 82, 127, 107, 127, 165, 255, 214, 255]
    );
    assert!(encode_rgba(&[]).is_empty());
}
