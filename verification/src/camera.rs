//! The pinhole camera model: its parameters, its projection matrix and the
//! shape of the point arrays that it transforms.

use vstd::prelude::*;
use crate::error::Error;
use crate::scalar::{ONE, ZERO};

verus! {

/// Intrinsic parameters of a pinhole camera, each scalar as a binary64 bit
/// pattern.
#[derive(Clone, Copy, Debug)]
pub struct CameraParameters {
    /// Focal length along x and along y.
    pub focal_length: (u64, u64),
    /// Principal point, x and y.
    pub offset: (u64, u64),
}

/// The homogeneous 3x3 matrix of a pinhole camera, row by row.
pub open spec fn pinhole_matrix(focal_length: (u64, u64), offset: (u64, u64)) -> Seq<Seq<u64>> {
    seq![
        seq![focal_length.0, ZERO, offset.0],
        seq![ZERO, focal_length.1, offset.1],
        seq![ZERO, ZERO, ONE],
    ]
}

/// The rows of an executable 3x3 matrix.
pub open spec fn rows(m: [[u64; 3]; 3]) -> Seq<Seq<u64>> {
    seq![m[0]@, m[1]@, m[2]@]
}

/// How many points an array of the given shape holds: one for a single point
/// `[2]`, `n` for a batch `[n, 2]`. No other shape is an array of points.
pub open spec fn points_in(shape: Seq<usize>) -> Option<usize> {
    if shape.len() == 1 && shape[0] == 2 {
        Some(1usize)
    } else if shape.len() == 2 && shape[1] == 2 {
        Some(shape[0])
    } else {
        None
    }
}

impl CameraParameters {
    /// A camera with the given focal length `(fx, fy)` and principal point
    /// `(ox, oy)`. A zero focal length is accepted.
    pub fn new(focal_length: (u64, u64), offset: (u64, u64)) -> (r: Self)
        ensures
            r.focal_length == focal_length,
            r.offset == offset,
    {
        CameraParameters { focal_length, offset }
    }

    /// The matrix `[[fx, 0, ox], [0, fy, oy], [0, 0, 1]]`.
    pub fn matrix(&self) -> (m: [[u64; 3]; 3])
        ensures
            rows(m) == pinhole_matrix(self.focal_length, self.offset),
    {
        let fx: u64 = self.focal_length.0;
        let fy: u64 = self.focal_length.1;
        let ox: u64 = self.offset.0;
        let oy: u64 = self.offset.1;
        let m = [[fx, ZERO, ox], [ZERO, fy, oy], [ZERO, ZERO, ONE]];
        proof {
            assert(m[0]@ =~= seq![fx, ZERO, ox]);
            assert(m[1]@ =~= seq![ZERO, fy, oy]);
            assert(m[2]@ =~= seq![ZERO, ZERO, ONE]);
            assert(rows(m) =~= pinhole_matrix(self.focal_length, self.offset));
        }
        m
    }
}

/// Whether an operation on two scalars accepts every pair of bit patterns.
pub open spec fn total<F: Fn(u64, u64) -> u64>(op: &F) -> bool {
    forall|a: u64, b: u64| #[trigger] op.requires((a, b))
}

/// What an operation on two scalars may return, as a relation between its
/// two arguments and its result.
pub open spec fn outcome<F: Fn(u64, u64) -> u64>(op: &F) -> spec_fn(u64, u64, u64) -> bool {
    |a: u64, b: u64, r: u64| op.ensures((a, b), r)
}

/// Whether `r` can come out of `second(first(x, p), q)`.
pub open spec fn chained(
    first: spec_fn(u64, u64, u64) -> bool,
    second: spec_fn(u64, u64, u64) -> bool,
    x: u64,
    p: u64,
    q: u64,
    r: u64,
) -> bool {
    exists|t: u64| #[trigger] first(x, p, t) && second(t, q, r)
}

/// Whether `to` is `(from - offset) / focal_length`, axis by axis, under the
/// given subtraction and division.
pub open spec fn normalized_point(
    camera: CameraParameters,
    minus: spec_fn(u64, u64, u64) -> bool,
    over: spec_fn(u64, u64, u64) -> bool,
    from: (u64, u64),
    to: (u64, u64),
) -> bool {
    &&& chained(minus, over, from.0, camera.offset.0, camera.focal_length.0, to.0)
    &&& chained(minus, over, from.1, camera.offset.1, camera.focal_length.1, to.1)
}

/// Whether `to` is `from * focal_length + offset`, axis by axis, under the
/// given multiplication and addition.
pub open spec fn unnormalized_point(
    camera: CameraParameters,
    times: spec_fn(u64, u64, u64) -> bool,
    plus: spec_fn(u64, u64, u64) -> bool,
    from: (u64, u64),
    to: (u64, u64),
) -> bool {
    &&& chained(times, plus, from.0, camera.focal_length.0, camera.offset.0, to.0)
    &&& chained(times, plus, from.1, camera.focal_length.1, camera.offset.1, to.1)
}

/// Conversion between pixel coordinates and the normalized image plane, for
/// keypoints of the form `K`.
///
/// The arithmetic of binary64 is the caller's: each method is handed the two
/// operations that its formula needs, as functions on bit patterns, and
/// states its result in terms of what they return.
pub trait Normalizer<K> {
    /// What `normalize` may return for `from`.
    spec fn normalized(
        &self,
        minus: spec_fn(u64, u64, u64) -> bool,
        over: spec_fn(u64, u64, u64) -> bool,
        from: &K,
        to: &K,
    ) -> bool;

    /// What `unnormalize` may return for `from`.
    spec fn unnormalized(
        &self,
        times: spec_fn(u64, u64, u64) -> bool,
        plus: spec_fn(u64, u64, u64) -> bool,
        from: &K,
        to: &K,
    ) -> bool;

    /// `(keypoints - offset) / focal_length`. A zero focal length is not
    /// refused: the division decides what comes of it.
    fn normalize<S: Fn(u64, u64) -> u64, D: Fn(u64, u64) -> u64>(
        &self,
        keypoints: &K,
        minus: &S,
        over: &D,
    ) -> (r: K)
        requires
            total(minus),
            total(over),
        ensures
            self.normalized(outcome(minus), outcome(over), keypoints, &r),
    ;

    /// `keypoints * focal_length + offset`.
    fn unnormalize<M: Fn(u64, u64) -> u64, A: Fn(u64, u64) -> u64>(
        &self,
        keypoints: &K,
        times: &M,
        plus: &A,
    ) -> (r: K)
        requires
            total(times),
            total(plus),
        ensures
            self.unnormalized(outcome(times), outcome(plus), keypoints, &r),
    ;
}

/// A single point `(x, y)`.
impl Normalizer<(u64, u64)> for CameraParameters {
    open spec fn normalized(
        &self,
        minus: spec_fn(u64, u64, u64) -> bool,
        over: spec_fn(u64, u64, u64) -> bool,
        from: &(u64, u64),
        to: &(u64, u64),
    ) -> bool {
        normalized_point(*self, minus, over, *from, *to)
    }

    open spec fn unnormalized(
        &self,
        times: spec_fn(u64, u64, u64) -> bool,
        plus: spec_fn(u64, u64, u64) -> bool,
        from: &(u64, u64),
        to: &(u64, u64),
    ) -> bool {
        unnormalized_point(*self, times, plus, *from, *to)
    }

    fn normalize<S: Fn(u64, u64) -> u64, D: Fn(u64, u64) -> u64>(
        &self,
        keypoints: &(u64, u64),
        minus: &S,
        over: &D,
    ) -> (r: (u64, u64)) {
        let dx: u64 = minus(keypoints.0, self.offset.0);
        let dy: u64 = minus(keypoints.1, self.offset.1);
        let x: u64 = over(dx, self.focal_length.0);
        let y: u64 = over(dy, self.focal_length.1);
        proof {
            assert(outcome(minus)(keypoints.0, self.offset.0, dx));
            assert(outcome(minus)(keypoints.1, self.offset.1, dy));
            assert(outcome(over)(dx, self.focal_length.0, x));
            assert(outcome(over)(dy, self.focal_length.1, y));
        }
        (x, y)
    }

    fn unnormalize<M: Fn(u64, u64) -> u64, A: Fn(u64, u64) -> u64>(
        &self,
        keypoints: &(u64, u64),
        times: &M,
        plus: &A,
    ) -> (r: (u64, u64)) {
        let sx: u64 = times(keypoints.0, self.focal_length.0);
        let sy: u64 = times(keypoints.1, self.focal_length.1);
        let x: u64 = plus(sx, self.offset.0);
        let y: u64 = plus(sy, self.offset.1);
        proof {
            assert(outcome(times)(keypoints.0, self.focal_length.0, sx));
            assert(outcome(times)(keypoints.1, self.focal_length.1, sy));
            assert(outcome(plus)(sx, self.offset.0, x));
            assert(outcome(plus)(sy, self.offset.1, y));
        }
        (x, y)
    }
}

/// A batch of points, one per row: offset and focal length are the same for
/// every row, each row is transformed as a single point is, and the rows keep
/// their order and their number.
impl Normalizer<Vec<(u64, u64)>> for CameraParameters {
    open spec fn normalized(
        &self,
        minus: spec_fn(u64, u64, u64) -> bool,
        over: spec_fn(u64, u64, u64) -> bool,
        from: &Vec<(u64, u64)>,
        to: &Vec<(u64, u64)>,
    ) -> bool {
        &&& to@.len() == from@.len()
        &&& forall|i: int|
            0 <= i < from@.len() ==> normalized_point(*self, minus, over, from@[i], #[trigger] to@[i])
    }

    open spec fn unnormalized(
        &self,
        times: spec_fn(u64, u64, u64) -> bool,
        plus: spec_fn(u64, u64, u64) -> bool,
        from: &Vec<(u64, u64)>,
        to: &Vec<(u64, u64)>,
    ) -> bool {
        &&& to@.len() == from@.len()
        &&& forall|i: int|
            0 <= i < from@.len() ==> unnormalized_point(
                *self,
                times,
                plus,
                from@[i],
                #[trigger] to@[i],
            )
    }

    fn normalize<S: Fn(u64, u64) -> u64, D: Fn(u64, u64) -> u64>(
        &self,
        keypoints: &Vec<(u64, u64)>,
        minus: &S,
        over: &D,
    ) -> (r: Vec<(u64, u64)>) {
        let mut out: Vec<(u64, u64)> = Vec::new();
        let mut i: usize = 0;
        while i < keypoints.len()
            invariant
                i <= keypoints.len(),
                out.len() == i,
                total(minus),
                total(over),
                forall|j: int|
                    0 <= j < i ==> normalized_point(
                        *self,
                        outcome(minus),
                        outcome(over),
                        keypoints@[j],
                        #[trigger] out@[j],
                    ),
            decreases keypoints.len() - i,
        {
            let p: (u64, u64) = self.normalize(&keypoints[i], minus, over);
            out.push(p);
            i += 1;
        }
        out
    }

    fn unnormalize<M: Fn(u64, u64) -> u64, A: Fn(u64, u64) -> u64>(
        &self,
        keypoints: &Vec<(u64, u64)>,
        times: &M,
        plus: &A,
    ) -> (r: Vec<(u64, u64)>) {
        let mut out: Vec<(u64, u64)> = Vec::new();
        let mut i: usize = 0;
        while i < keypoints.len()
            invariant
                i <= keypoints.len(),
                out.len() == i,
                total(times),
                total(plus),
                forall|j: int|
                    0 <= j < i ==> unnormalized_point(
                        *self,
                        outcome(times),
                        outcome(plus),
                        keypoints@[j],
                        #[trigger] out@[j],
                    ),
            decreases keypoints.len() - i,
        {
            let p: (u64, u64) = self.unnormalize(&keypoints[i], times, plus);
            out.push(p);
            i += 1;
        }
        out
    }
}

/// Whether `undo` takes back what `op` did, for the second operand `b`:
/// from `op(a, b)` it leads to `a` again.
pub open spec fn undoes(
    op: spec_fn(u64, u64, u64) -> bool,
    undo: spec_fn(u64, u64, u64) -> bool,
    b: u64,
) -> bool {
    forall|a: u64, t: u64, r: u64| #![trigger op(a, b, t), undo(t, b, r)] op(a, b, t) && undo(t, b, r) ==> r == a
}

/// `unnormalize` is the inverse of `normalize`: where, for this camera's
/// offset and focal length, addition takes back subtraction and
/// multiplication takes back division, a point that is normalized and then
/// unnormalized is the point itself.
pub proof fn unnormalize_inverts_normalize(
    camera: CameraParameters,
    minus: spec_fn(u64, u64, u64) -> bool,
    over: spec_fn(u64, u64, u64) -> bool,
    times: spec_fn(u64, u64, u64) -> bool,
    plus: spec_fn(u64, u64, u64) -> bool,
    pixel: (u64, u64),
    normalized: (u64, u64),
    back: (u64, u64),
)
    requires
        undoes(minus, plus, camera.offset.0),
        undoes(minus, plus, camera.offset.1),
        undoes(over, times, camera.focal_length.0),
        undoes(over, times, camera.focal_length.1),
        normalized_point(camera, minus, over, pixel, normalized),
        unnormalized_point(camera, times, plus, normalized, back),
    ensures
        back == pixel,
{
    axis_round_trip(minus, over, times, plus, camera.offset.0, camera.focal_length.0, pixel.0, normalized.0, back.0);
    axis_round_trip(minus, over, times, plus, camera.offset.1, camera.focal_length.1, pixel.1, normalized.1, back.1);
}

/// `normalize` is the inverse of `unnormalize`: where, for this camera's
/// offset and focal length, subtraction takes back addition and division
/// takes back multiplication, a point that is unnormalized and then
/// normalized is the point itself.
pub proof fn normalize_inverts_unnormalize(
    camera: CameraParameters,
    minus: spec_fn(u64, u64, u64) -> bool,
    over: spec_fn(u64, u64, u64) -> bool,
    times: spec_fn(u64, u64, u64) -> bool,
    plus: spec_fn(u64, u64, u64) -> bool,
    normalized: (u64, u64),
    pixel: (u64, u64),
    back: (u64, u64),
)
    requires
        undoes(plus, minus, camera.offset.0),
        undoes(plus, minus, camera.offset.1),
        undoes(times, over, camera.focal_length.0),
        undoes(times, over, camera.focal_length.1),
        unnormalized_point(camera, times, plus, normalized, pixel),
        normalized_point(camera, minus, over, pixel, back),
    ensures
        back == normalized,
{
    axis_round_trip(times, plus, minus, over, camera.focal_length.0, camera.offset.0, normalized.0, pixel.0, back.0);
    axis_round_trip(times, plus, minus, over, camera.focal_length.1, camera.offset.1, normalized.1, pixel.1, back.1);
}

/// One axis of a round trip: `second(first(x, p), q)`, then the two undone in
/// the opposite order, is `x`.
proof fn axis_round_trip(
    first: spec_fn(u64, u64, u64) -> bool,
    second: spec_fn(u64, u64, u64) -> bool,
    undo_second: spec_fn(u64, u64, u64) -> bool,
    undo_first: spec_fn(u64, u64, u64) -> bool,
    p: u64,
    q: u64,
    x: u64,
    y: u64,
    back: u64,
)
    requires
        undoes(first, undo_first, p),
        undoes(second, undo_second, q),
        chained(first, second, x, p, q, y),
        chained(undo_second, undo_first, y, q, p, back),
    ensures
        back == x,
{
    let t = choose|t: u64| #[trigger] first(x, p, t) && second(t, q, y);
    let u = choose|u: u64| #[trigger] undo_second(y, q, u) && undo_first(u, p, back);
    assert(second(t, q, y) && undo_second(y, q, u));
    assert(u == t);
    assert(first(x, p, t) && undo_first(t, p, back));
}

/// The points of an array laid out row by row: row `i` is the pair of the
/// elements `2 * i` and `2 * i + 1`.
pub open spec fn paired(data: Seq<u64>) -> Seq<(u64, u64)> {
    Seq::new((data.len() / 2) as nat, |i: int| (data[2 * i], data[2 * i + 1]))
}

/// The elements of an array of points, row by row: x, then y, of each point
/// in turn.
pub open spec fn flattened(points: Seq<(u64, u64)>) -> Seq<u64> {
    Seq::new(
        (2 * points.len()) as nat,
        |i: int|
            if i % 2 == 0 {
                points[i / 2].0
            } else {
                points[i / 2].1
            },
    )
}

/// Checks the shape of an array of points before it is transformed, and
/// counts the points in it.
pub fn point_count(shape: &Vec<usize>) -> (r: Result<usize, Error>)
    ensures
        match points_in(shape@) {
            Some(n) => r == Ok::<usize, Error>(n),
            None => r == Err::<usize, Error>(Error::ShapeMismatch),
        },
{
    if shape.len() == 1 && shape[0] == 2 {
        Ok(1)
    } else if shape.len() == 2 && shape[1] == 2 {
        Ok(shape[0])
    } else {
        Err(Error::ShapeMismatch)
    }
}

/// Reads an array, given by its shape and its elements in row-major order,
/// as points. An array whose trailing dimension is not 2, or whose elements
/// are not two for each point, is refused.
pub fn points_of(shape: &Vec<usize>, data: &Vec<u64>) -> (r: Result<Vec<(u64, u64)>, Error>)
    ensures
        match points_in(shape@) {
            Some(n) => if data.len() == 2 * n {
                r is Ok && r->Ok_0@ == paired(data@) && r->Ok_0.len() == n
            } else {
                r == Err::<Vec<(u64, u64)>, Error>(Error::ShapeMismatch)
            },
            None => r == Err::<Vec<(u64, u64)>, Error>(Error::ShapeMismatch),
        },
{
    let n: usize = match point_count(shape) {
        Ok(n) => n,
        Err(e) => {
            return Err(e);
        },
    };
    if data.len() % 2 != 0 || data.len() / 2 != n {
        return Err(Error::ShapeMismatch);
    }
    let mut points: Vec<(u64, u64)> = Vec::new();
    let mut i: usize = 0;
    while i < n
        invariant
            i <= n,
            data.len() == 2 * n,
            points.len() == i,
            forall|j: int| 0 <= j < i ==> #[trigger] points@[j] == (data@[2 * j], data@[2 * j + 1]),
        decreases n - i,
    {
        points.push((data[2 * i], data[2 * i + 1]));
        i += 1;
    }
    proof {
        assert(points@ =~= paired(data@));
    }
    Ok(points)
}

/// Writes points out as the elements of an `[n, 2]` array in row-major
/// order.
pub fn coordinates(points: &Vec<(u64, u64)>) -> (data: Vec<u64>)
    ensures
        data@ == flattened(points@),
        paired(data@) == points@,
{
    let mut data: Vec<u64> = Vec::new();
    let mut i: usize = 0;
    while i < points.len()
        invariant
            i <= points.len(),
            data.len() == 2 * i,
            forall|j: int|
                0 <= j < i ==> data@[2 * j] == (#[trigger] points@[j]).0 && data@[2 * j + 1]
                    == points@[j].1,
        decreases points.len() - i,
    {
        data.push(points[i].0);
        data.push(points[i].1);
        i += 1;
    }
    proof {
        assert forall|k: int| 0 <= k < data.len() implies data@[k] == flattened(points@)[k] by {
            let j = k / 2;
            assert(points@[j] == points@[j]);
            if k % 2 == 0 {
                assert(k == 2 * j);
            } else {
                assert(k == 2 * j + 1);
            }
        }
        assert(data@ =~= flattened(points@));
        paired_inverts_flattened(points@);
    }
    data
}

/// Reading back what was written out gives the points again, in their order
/// and number.
pub proof fn paired_inverts_flattened(points: Seq<(u64, u64)>)
    ensures
        paired(flattened(points)) == points,
        flattened(points).len() == 2 * points.len(),
{
    let flat = flattened(points);
    assert forall|i: int| 0 <= i < points.len() implies paired(flat)[i] == points[i] by {
        assert((2 * i) % 2 == 0 && (2 * i) / 2 == i);
        assert((2 * i + 1) % 2 == 1 && (2 * i + 1) / 2 == i);
    }
    assert(paired(flat) =~= points);
}

} // verus!
