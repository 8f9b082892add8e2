use array2d::Array2D;
use rusterizer::args::Mode;
use rusterizer::grid::{depth_buffer, FAR};
use rusterizer::raster::{inside_triangle, rasterize, BoundingBox, Triangle};
use rusterizer::space::{Fragment, Point, Space, WINDOW_UNIT};

fn unit(w: f64) -> i32 {
    (w * WINDOW_UNIT as f64).round() as i32
}

fn point(x: f64, y: f64, z: f64) -> Point {
    Point { x: unit(x), y: unit(y), z: unit(z) }
}

/// Pixels (column, row) whose cell no longer holds `FAR`.
fn written(buffer: &Array2D<i64>) -> Vec<(usize, usize)> {
    let mut out = vec![];
    for row in 0..buffer.num_rows() {
        for column in 0..buffer.num_columns() {
            if *buffer.get(row, column).unwrap() != FAR {
                out.push((column, row));
            }
        }
    }
    out
}

#[test]
fn triangle_creation() {
    let space = Space::new(10, 10);
    let tri = Triangle::new(
        &space.unwrap(),
        point(0.0, 0.0, 0.0),
        point(0.0, 10.0, 0.0),
        point(10.0, 0.0, 0.0),
    );
    let frags = vec![
        Fragment { x: 5, y: 5, z: 0 }, //good
        Fragment { x: 2, y: 3, z: 0 }, //bad
        Fragment { x: 0, y: 0, z: 0 }, //bad
        Fragment { x: 5, y: 6, z: 0 }, //good
        Fragment { x: 6, y: 5, z: 0 }, //good
    ];

    let mut results: Vec<bool> = vec![];
    for frag in &frags {
        let bary = tri.barycentric_coordinates(frag);
        println!("{:?}", bary);
        results.push(inside_triangle(&bary));
    }
    assert_eq!(results, vec![true, false, false, true, true]);
}

#[test]
fn triangle_setup_constants() {
    let space = Space::new(10, 10).unwrap();
    let tri = Triangle::new(
        &space,
        point(0.0, 0.0, 0.0),
        point(0.0, 10.0, 0.0),
        point(10.0, 0.0, 0.0),
    );
    assert_eq!((tri.a.x, tri.a.y), (5, 5));
    assert_eq!((tri.b.x, tri.b.y), (5, 9));
    assert_eq!((tri.c.x, tri.c.y), (9, 5));
    assert_eq!(
        tri.bounding_box,
        BoundingBox { x_min: 5, x_max: 9, y_min: 5, y_max: 9 }
    );
    let k = tri.barycentric_constants;
    assert_eq!((k.pab.x, k.pab.y), (0, 4));
    assert_eq!((k.pac.x, k.pac.y), (4, 0));
    assert_eq!(k.pabac, 0);
    assert_eq!(k.total_area, 256);
    assert_eq!(tri.bounding_box.row_range(), 5..=9);
    assert_eq!(tri.bounding_box.column_range(), 5..=9);
}

#[test]
fn barycentric_weights_and_depth() {
    // 16 by 16 pixels: pixel = 8 * w + 8.
    let space = Space::new(16, 16).unwrap();
    let tri = Triangle::new(
        &space,
        point(0.0, 0.0, 0.0),
        point(0.5, 0.0, -1.0),
        point(0.0, 0.5, 0.0),
    );
    let half = tri.barycentric_coordinates(&Fragment { x: 10, y: 8, z: 0 });
    assert_eq!(half.beta * 2, half.denom);
    assert_eq!(half.alpha * 2, half.denom);
    assert_eq!(half.gamma, 0);
    assert_eq!(half.z, 32768);
    let middle = tri.barycentric_coordinates(&Fragment { x: 9, y: 9, z: 0 });
    assert_eq!(middle.z, 16384);
    let outside = tri.barycentric_coordinates(&Fragment { x: 13, y: 8, z: 0 });
    assert!(!inside_triangle(&outside));
}

#[test]
fn interpolated_depth_rounds_down() {
    let space = Space::new(16, 16).unwrap();
    let tri = Triangle::new(
        &space,
        Point { x: 0, y: 0, z: 0 },
        Point { x: unit(0.5), y: 0, z: 1 },
        Point { x: 0, y: unit(0.5), z: 0 },
    );
    let quarter = tri.barycentric_coordinates(&Fragment { x: 9, y: 8, z: 0 });
    assert_eq!(quarter.z, -1); // -0.25 rounded down
    let vertex = tri.barycentric_coordinates(&Fragment { x: 8, y: 8, z: 0 });
    assert_eq!(vertex.z, 0);
}

fn right_triangle_mesh() -> (Vec<i32>, Vec<u32>) {
    let vertices = vec![0, 0, 0, 0, unit(10.0), 0, unit(10.0), 0, 0];
    (vertices, vec![0, 1, 2])
}

#[test]
fn depth_mode_fills_the_covered_pixels() {
    let space = Space::new(10, 10).unwrap();
    let (vertices, indices) = right_triangle_mesh();
    let mut buffer = depth_buffer(10, 10);
    rasterize(&mut buffer, &space, &vertices, &indices, Mode::Depth);
    let mut expected = vec![];
    for row in 5..10usize {
        for column in 5..10usize {
            if column + row <= 14 {
                expected.push((column, row));
            }
        }
    }
    assert_eq!(written(&buffer), expected);
    assert_eq!(expected.len(), 15);
    for (column, row) in expected {
        assert_eq!(*buffer.get(row, column).unwrap(), 0);
    }
}

#[test]
fn pixels_off_the_buffer_are_ignored() {
    let space = Space::new(10, 10).unwrap();
    let (vertices, indices) = right_triangle_mesh();
    let mut buffer = depth_buffer(7, 7);
    rasterize(&mut buffer, &space, &vertices, &indices, Mode::Depth);
    assert_eq!(written(&buffer), vec![(5, 5), (6, 5), (5, 6), (6, 6)]);
}

fn two_overlapping_triangles() -> (Vec<i32>, Vec<u32>, Vec<u32>) {
    let vertices = vec![
        // near triangle, z = 0.5 towards the viewer
        unit(-0.8), unit(-0.8), unit(0.5),
        unit(0.8), unit(-0.8), unit(0.5),
        unit(-0.8), unit(0.8), unit(0.5),
        // far triangle, tilted in depth
        unit(0.8), unit(0.8), unit(-0.5),
        unit(-0.8), unit(0.8), unit(0.9),
        unit(0.8), unit(-0.8), unit(0.1),
    ];
    (vertices, vec![0, 1, 2, 3, 4, 5], vec![3, 4, 5, 0, 1, 2])
}

#[test]
fn triangle_order_does_not_matter() {
    let space = Space::new(24, 16).unwrap();
    let (vertices, forward, backward) = two_overlapping_triangles();
    let mut first = depth_buffer(24, 16);
    rasterize(&mut first, &space, &vertices, &forward, Mode::Depth);
    let mut second = depth_buffer(24, 16);
    rasterize(&mut second, &space, &vertices, &backward, Mode::Depth);
    assert_eq!(first.as_row_major(), second.as_row_major());
    assert!(written(&first).len() > 0);
}

#[test]
fn nearest_depth_wins() {
    let space = Space::new(10, 10).unwrap();
    let vertices = vec![
        0, 0, unit(0.25),
        0, unit(10.0), unit(0.25),
        unit(10.0), 0, unit(0.25),
        0, 0, unit(0.75),
        0, unit(10.0), unit(0.75),
        unit(10.0), 0, unit(0.75),
    ];
    let mut buffer = depth_buffer(10, 10);
    rasterize(&mut buffer, &space, &vertices, &[0, 1, 2], Mode::Depth);
    assert_eq!(*buffer.get(5, 5).unwrap(), -unit(0.25) as i64);
    rasterize(&mut buffer, &space, &vertices, &[3, 4, 5], Mode::Depth);
    assert_eq!(*buffer.get(5, 5).unwrap(), -unit(0.75) as i64);
    rasterize(&mut buffer, &space, &vertices, &[0, 1, 2], Mode::Depth);
    assert_eq!(*buffer.get(5, 5).unwrap(), -unit(0.75) as i64);
}

#[test]
fn degenerate_triangle_writes_nothing() {
    let space = Space::new(10, 10).unwrap();
    let vertices = vec![
        0, 0, 0,
        unit(0.5), unit(0.5), 0,
        unit(1.0), unit(1.0), 0,
    ];
    let mut buffer = depth_buffer(10, 10);
    rasterize(&mut buffer, &space, &vertices, &[0, 1, 2, 0, 0, 0], Mode::Depth);
    assert!(written(&buffer).is_empty());
}

#[test]
fn wireframe_writes_within_depth_mode() {
    let space = Space::new(24, 16).unwrap();
    let (vertices, forward, _) = two_overlapping_triangles();
    let mut depth = depth_buffer(24, 16);
    rasterize(&mut depth, &space, &vertices, &forward, Mode::Depth);
    let mut wire = depth_buffer(24, 16);
    rasterize(&mut wire, &space, &vertices, &forward, Mode::Wireframe);
    let depth_written = written(&depth);
    let wire_written = written(&wire);
    assert!(wire_written.len() <= depth_written.len());
    for p in &wire_written {
        assert!(depth_written.contains(p));
    }
    // The three weights sum to 1, so they are never all below 3/10.
    assert!(wire_written.is_empty());
}

#[test]
fn empty_mesh_leaves_the_buffer() {
    let space = Space::new(4, 4).unwrap();
    let mut buffer = depth_buffer(4, 4);
    rasterize(&mut buffer, &space, &[], &[], Mode::Depth);
    assert!(written(&buffer).is_empty());
    assert_eq!(buffer.num_rows(), 4);
    assert_eq!(buffer.num_columns(), 4);
}

#[test]
fn depth_buffer_has_a_row_per_pixel_row() {
    let buffer = depth_buffer(3, 2);
    assert_eq!(buffer.num_rows(), 2);
    assert_eq!(buffer.num_columns(), 3);
    assert!(buffer.as_row_major().iter().all(|&d| d == FAR));
}
