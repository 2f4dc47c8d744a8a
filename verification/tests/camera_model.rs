use epipolar::camera::{coordinates, point_count, points_of, CameraParameters, Normalizer};
use epipolar::error::Error;

fn bits(x: f64) -> u64 {
    x.to_bits()
}

fn minus(a: u64, b: u64) -> u64 {
    (f64::from_bits(a) - f64::from_bits(b)).to_bits()
}

fn over(a: u64, b: u64) -> u64 {
    (f64::from_bits(a) / f64::from_bits(b)).to_bits()
}

fn times(a: u64, b: u64) -> u64 {
    (f64::from_bits(a) * f64::from_bits(b)).to_bits()
}

fn plus(a: u64, b: u64) -> u64 {
    (f64::from_bits(a) + f64::from_bits(b)).to_bits()
}

fn camera(focal_length: (f64, f64), offset: (f64, f64)) -> CameraParameters {
    CameraParameters::new(
        (bits(focal_length.0), bits(focal_length.1)),
        (bits(offset.0), bits(offset.1)),
    )
}

fn point(p: [f64; 2]) -> (u64, u64) {
    (bits(p[0]), bits(p[1]))
}

fn batch(rows: &[[f64; 2]]) -> Vec<(u64, u64)> {
    rows.iter().map(|p| point(*p)).collect()
}

fn floats(p: (u64, u64)) -> [f64; 2] {
    [f64::from_bits(p.0), f64::from_bits(p.1)]
}

fn float_rows(rows: &Vec<(u64, u64)>) -> Vec<[f64; 2]> {
    rows.iter().map(|p| floats(*p)).collect()
}

#[test]
fn test_normalizer() {
    let camera_params = camera((10., 20.), (2., 4.));

    let normalized = vec![[1.0, 1.0], [-0.2, -0.2], [0.6, 0.3]];
    let unnormalized = vec![[12., 24.], [0., 0.], [8., 10.]];

    assert_eq!(
        float_rows(&camera_params.normalize(&batch(&unnormalized), &minus, &over)),
        normalized
    );
    assert_eq!(
        float_rows(&camera_params.unnormalize(&batch(&normalized), &times, &plus)),
        unnormalized
    );

    let normalized = [1.0, 1.0];
    let unnormalized = [12., 24.];

    assert_eq!(floats(camera_params.normalize(&point(unnormalized), &minus, &over)), normalized);
    assert_eq!(floats(camera_params.unnormalize(&point(normalized), &times, &plus)), unnormalized);

    let normalized = [-0.2, -0.2];
    let unnormalized = [0., 0.];

    assert_eq!(floats(camera_params.normalize(&point(unnormalized), &minus, &over)), normalized);
    assert_eq!(floats(camera_params.unnormalize(&point(normalized), &times, &plus)), unnormalized);
}

#[test]
fn test_camera() {
    let c = camera((1.0, 1.2), (0.8, 0.2));
    let expected = [[1.0, 0.0, 0.8], [0.0, 1.2, 0.2], [0.0, 0.0, 1.0]];

    let m = c.matrix();
    for i in 0..3 {
        for j in 0..3 {
            assert_eq!(m[i][j], bits(expected[i][j]), "entry ({}, {})", i, j);
        }
    }
}

#[test]
fn new_keeps_each_parameter_in_its_place() {
    let c = CameraParameters::new((1, 2), (3, 4));
    assert_eq!(c.focal_length, (1, 2));
    assert_eq!(c.offset, (3, 4));
    assert_eq!(c.matrix(), [[1, 0, 3], [0, 2, 4], [0, 0, bits(1.0)]]);
}

#[test]
fn normalize_uses_each_axis_with_its_own_parameters() {
    let c = camera((4.0, 0.5), (1.0, -3.0));
    let (x, y) = (9.0f64, 2.0f64);
    let n = floats(c.normalize(&point([x, y]), &minus, &over));
    assert_eq!(n, [(x - 1.0) / 4.0, (y - -3.0) / 0.5]);
    assert_eq!(n, [2.0, 10.0]);
    let u = floats(c.unnormalize(&point([x, y]), &times, &plus));
    assert_eq!(u, [x * 4.0 + 1.0, y * 0.5 + -3.0]);
    assert_eq!(u, [37.0, -2.0]);
}

#[test]
fn round_trip_returns_the_point_within_tolerance() {
    let cameras = [
        camera((10., 20.), (2., 4.)),
        camera((1.0, 1.2), (0.8, 0.2)),
        camera((-525.0, 0.001), (319.5, -239.5)),
    ];
    let points = [[0.0, 0.0], [12.0, 24.0], [-0.2, 0.7], [640.0, 480.0], [1e-3, -1e3]];
    for c in cameras.iter() {
        for p in points.iter() {
            let there = c.normalize(&point(*p), &minus, &over);
            let back = floats(c.unnormalize(&there, &times, &plus));
            let out = c.unnormalize(&point(*p), &times, &plus);
            let home = floats(c.normalize(&out, &minus, &over));
            for axis in 0..2 {
                let scale = 1.0 + p[axis].abs();
                assert!((back[axis] - p[axis]).abs() <= 1e-9 * scale);
                assert!((home[axis] - p[axis]).abs() <= 1e-9 * scale);
            }
        }
    }
}

#[test]
fn round_trip_is_exact_where_the_operations_are() {
    let c = camera((4.0, 0.5), (2.0, -8.0));
    let rows = batch(&[[10.0, 3.0], [-6.0, 0.25], [2.0, -8.0]]);
    let there = c.normalize(&rows, &minus, &over);
    assert_eq!(c.unnormalize(&there, &times, &plus), rows);
    let out = c.unnormalize(&rows, &times, &plus);
    assert_eq!(c.normalize(&out, &minus, &over), rows);
}

#[test]
fn batch_keeps_order_and_count_and_matches_single_points() {
    let c = camera((3.0, 7.0), (0.25, -1.5));
    let rows = batch(&[[5.0, 6.0], [-1.0, 0.0], [0.125, 9.5], [5.0, 6.0]]);
    let n = c.normalize(&rows, &minus, &over);
    let u = c.unnormalize(&rows, &times, &plus);
    assert_eq!(n.len(), 4);
    assert_eq!(u.len(), 4);
    for i in 0..rows.len() {
        assert_eq!(n[i], c.normalize(&rows[i], &minus, &over));
        assert_eq!(u[i], c.unnormalize(&rows[i], &times, &plus));
    }
    let empty: Vec<(u64, u64)> = Vec::new();
    assert_eq!(c.normalize(&empty, &minus, &over), empty);
    assert_eq!(c.unnormalize(&empty, &times, &plus), empty);
}

#[test]
fn zero_focal_length_is_not_refused() {
    let c = camera((0.0, 0.0), (2.0, 4.0));
    let n = floats(c.normalize(&point([3.0, 4.0]), &minus, &over));
    assert_eq!(n[0], f64::INFINITY);
    assert!(n[1].is_nan());
    let u = floats(c.unnormalize(&point([3.0, 4.0]), &times, &plus));
    assert_eq!(u, [2.0, 4.0]);
}

#[test]
fn point_count_accepts_points_and_batches_of_points() {
    assert_eq!(point_count(&vec![2]), Ok(1));
    assert_eq!(point_count(&vec![3, 2]), Ok(3));
    assert_eq!(point_count(&vec![0, 2]), Ok(0));
    assert_eq!(point_count(&vec![2, 2]), Ok(2));
}

#[test]
fn point_count_refuses_other_shapes() {
    assert_eq!(point_count(&vec![3]), Err(Error::ShapeMismatch));
    assert_eq!(point_count(&vec![2, 3]), Err(Error::ShapeMismatch));
    assert_eq!(point_count(&vec![4, 0]), Err(Error::ShapeMismatch));
    assert_eq!(point_count(&vec![]), Err(Error::ShapeMismatch));
    assert_eq!(point_count(&vec![1, 2, 2]), Err(Error::ShapeMismatch));
}

#[test]
fn points_of_reads_an_array_row_by_row() {
    assert_eq!(points_of(&vec![2], &vec![7, 8]), Ok(vec![(7, 8)]));
    assert_eq!(points_of(&vec![3, 2], &vec![1, 2, 3, 4, 5, 6]), Ok(vec![(1, 2), (3, 4), (5, 6)]));
    assert_eq!(points_of(&vec![0, 2], &vec![]), Ok(vec![]));
}

#[test]
fn points_of_refuses_a_trailing_dimension_other_than_two() {
    assert_eq!(points_of(&vec![3], &vec![1, 2, 3]), Err(Error::ShapeMismatch));
    assert_eq!(points_of(&vec![2, 3], &vec![1, 2, 3, 4, 5, 6]), Err(Error::ShapeMismatch));
    assert_eq!(points_of(&vec![2, 1], &vec![1, 2]), Err(Error::ShapeMismatch));
    assert_eq!(points_of(&vec![], &vec![1, 2]), Err(Error::ShapeMismatch));
    assert_eq!(points_of(&vec![1, 1, 2], &vec![1, 2]), Err(Error::ShapeMismatch));
}

#[test]
fn points_of_refuses_elements_that_do_not_fill_the_shape() {
    assert_eq!(points_of(&vec![2], &vec![1, 2, 3]), Err(Error::ShapeMismatch));
    assert_eq!(points_of(&vec![2], &vec![1, 2, 3, 4]), Err(Error::ShapeMismatch));
    assert_eq!(points_of(&vec![2, 2], &vec![1, 2]), Err(Error::ShapeMismatch));
    assert_eq!(points_of(&vec![2, 2], &vec![1, 2, 3, 4, 5]), Err(Error::ShapeMismatch));
    assert_eq!(points_of(&vec![usize::MAX, 2], &vec![1, 2]), Err(Error::ShapeMismatch));
}

#[test]
fn coordinates_writes_points_row_by_row_and_reads_back() {
    let rows = vec![(1, 2), (3, 4), (5, 6)];
    assert_eq!(coordinates(&rows), vec![1, 2, 3, 4, 5, 6]);
    assert_eq!(points_of(&vec![3, 2], &coordinates(&rows)), Ok(rows));
    assert_eq!(coordinates(&Vec::new()), Vec::<u64>::new());
}
