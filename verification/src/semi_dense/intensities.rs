//! Matching a kernel against an intensity sequence along an epipolar line.
//!
//! Each window of the sequence is normalized and held against the normalized
//! kernel; the window of least error wins, the first one where several tie,
//! and the matcher reports where the kernel's centre falls in the sequence.
//! Normalizing a vector and measuring the squared distance of two are the
//! caller's operations, as are the difference operator and the norm behind
//! the gradient magnitude: they work on bit patterns of binary64 numbers.

use vstd::prelude::*;
use crate::error::Error;
use crate::scalar::{is_nan, less, less_than, ordinal, positive, INFINITY, ZERO};

verus! {

/// How bad a match an error stands for. An error that is not below positive
/// infinity (infinity itself, or NaN from a window or kernel that has no
/// direction) is the worst match there is.
pub open spec fn score(error: u64) -> int {
    if less_than(error, INFINITY) {
        ordinal(error)
    } else {
        ordinal(INFINITY)
    }
}

/// Whether window `i` has the least score and every window before it has a
/// strictly greater one.
pub open spec fn is_first_minimum(errors: Seq<u64>, i: int) -> bool {
    &&& 0 <= i < errors.len()
    &&& forall|j: int| 0 <= j < i ==> score(#[trigger] errors[j]) > score(errors[i])
    &&& forall|j: int| 0 <= j < errors.len() ==> score(#[trigger] errors[j]) >= score(errors[i])
}

/// Where the centre of a kernel of `kernel_len` samples lies from its start.
pub open spec fn centre(kernel_len: int) -> int {
    kernel_len / 2
}

/// How many windows of `kernel_len` samples a sequence of `sequence_len`
/// samples has, or why it has none to offer.
pub open spec fn windows(sequence_len: int, kernel_len: int) -> Result<int, Error> {
    if kernel_len == 0 {
        Err(Error::InvalidKernel)
    } else if sequence_len < kernel_len {
        Err(Error::InsufficientSamples)
    } else {
        Ok(sequence_len - kernel_len + 1)
    }
}

/// Counts the windows to evaluate: their starts are `0..count`, and window
/// `i` covers the samples `i..i + kernel_len`.
pub fn window_count(sequence_len: usize, kernel_len: usize) -> (r: Result<usize, Error>)
    ensures
        match windows(sequence_len as int, kernel_len as int) {
            Ok(count) => r == Ok::<usize, Error>(count as usize) && 1 <= count <= sequence_len,
            Err(e) => r == Err::<usize, Error>(e),
        },
{
    if kernel_len == 0 {
        Err(Error::InvalidKernel)
    } else if sequence_len < kernel_len {
        Err(Error::InsufficientSamples)
    } else {
        Ok(sequence_len - kernel_len + 1)
    }
}

/// The start of the best window: the first one of least score, or 0 where
/// there is no window.
pub fn search_(errors: &Vec<u64>) -> (argmin: usize)
    ensures
        errors.len() == 0 ==> argmin == 0,
        errors.len() > 0 ==> is_first_minimum(errors@, argmin as int),
{
    let mut min_error: u64 = INFINITY;
    let mut argmin: usize = 0;
    let mut i: usize = 0;
    while i < errors.len()
        invariant
            i <= errors.len(),
            score(min_error) == ordinal(min_error),
            i == 0 ==> argmin == 0 && min_error == INFINITY,
            i > 0 ==> argmin < i && score(errors@[argmin as int]) == ordinal(min_error),
            forall|j: int| 0 <= j < argmin ==> score(#[trigger] errors@[j]) > ordinal(min_error),
            forall|j: int| 0 <= j < i ==> score(#[trigger] errors@[j]) >= ordinal(min_error),
        decreases errors.len() - i,
    {
        let e: u64 = errors[i];
        if less(e, min_error) {
            min_error = e;
            argmin = i;
        }
        i += 1;
    }
    argmin
}

/// Picks the match from the errors of the windows, one error per window in
/// the order of their starts.
///
/// The sequence has `errors.len() + kernel_len - 1` samples. An empty kernel
/// is refused; so is a sequence too short to hold one window. Otherwise the
/// result is the start of the first window of least score, moved to the
/// kernel's centre.
pub fn best_match(errors: &Vec<u64>, kernel_len: usize) -> (r: Result<usize, Error>)
    requires
        errors.len() + kernel_len - 1 <= usize::MAX,
    ensures
        kernel_len == 0 <==> r == Err::<usize, Error>(Error::InvalidKernel),
        kernel_len > 0 && errors.len() == 0 <==> r == Err::<usize, Error>(Error::InsufficientSamples),
        kernel_len > 0 && errors.len() > 0 <==> r is Ok,
        r is Ok ==> is_first_minimum(errors@, r->Ok_0 - centre(kernel_len as int)),
        r is Ok ==> centre(kernel_len as int) <= r->Ok_0 <= errors.len() - 1 + centre(
            kernel_len as int,
        ),
{
    if kernel_len == 0 {
        return Err(Error::InvalidKernel);
    }
    if errors.len() == 0 {
        return Err(Error::InsufficientSamples);
    }
    let argmin: usize = search_(errors);
    let offset: usize = kernel_len / 2;
    Ok(argmin + offset)
}

/// The samples of the window that starts at `start`.
pub open spec fn window(sequence: Seq<u64>, start: int, kernel_len: int) -> Seq<u64> {
    sequence.subrange(start, start + kernel_len)
}

/// Whether `error` can come out for the window that starts at `start`: the
/// squared distance between the normalized window and the normalized kernel.
pub open spec fn evaluated<N: Fn(&Vec<u64>) -> Vec<u64>, E: Fn(&Vec<u64>, &Vec<u64>) -> u64>(
    normalize: &N,
    squared_distance: &E,
    sequence: Seq<u64>,
    kernel_len: int,
    kernel_unit: &Vec<u64>,
    start: int,
    error: u64,
) -> bool {
    exists|w: Vec<u64>, unit: Vec<u64>|
        {
            &&& w@ == window(sequence, start, kernel_len)
            &&& #[trigger] normalize.ensures((&w,), unit)
            &&& squared_distance.ensures((&unit, kernel_unit), error)
        }
}

/// Whether `index` is a match of the kernel in the sequence, with
/// `kernel_unit` as the normalized kernel and `errors` as the errors of the
/// windows: one error per window, each evaluated against `kernel_unit`, and
/// `index` the centre of the first window of least score.
pub open spec fn matched<N: Fn(&Vec<u64>) -> Vec<u64>, E: Fn(&Vec<u64>, &Vec<u64>) -> u64>(
    normalize: &N,
    squared_distance: &E,
    sequence: Seq<u64>,
    kernel: &Vec<u64>,
    kernel_unit: &Vec<u64>,
    errors: Seq<u64>,
    index: int,
) -> bool {
    &&& normalize.ensures((kernel,), *kernel_unit)
    &&& errors.len() == sequence.len() - kernel.len() + 1
    &&& forall|i: int|
        0 <= i < errors.len() ==> evaluated(
            normalize,
            squared_distance,
            sequence,
            kernel.len() as int,
            kernel_unit,
            i,
            #[trigger] errors[i],
        )
    &&& is_first_minimum(errors, index - centre(kernel.len() as int))
}

/// Whether `squared_distance` accepts every pair of vectors that `normalize`
/// can return for vectors of `len` samples.
pub open spec fn measures<N: Fn(&Vec<u64>) -> Vec<u64>, E: Fn(&Vec<u64>, &Vec<u64>) -> u64>(
    normalize: &N,
    squared_distance: &E,
    len: int,
) -> bool {
    forall|v: Vec<u64>, w: Vec<u64>, a: Vec<u64>, b: Vec<u64>|
        #![trigger normalize.ensures((&v,), a), normalize.ensures((&w,), b)]
        v.len() == len && w.len() == len && normalize.ensures((&v,), a) && normalize.ensures(
            (&w,),
            b,
        ) ==> squared_distance.requires((&a, &b))
}

/// Copies one window out of the sequence.
pub fn take_window(sequence: &Vec<u64>, start: usize, kernel_len: usize) -> (w: Vec<u64>)
    requires
        start + kernel_len <= sequence.len(),
    ensures
        w@ == window(sequence@, start as int, kernel_len as int),
{
    let mut w: Vec<u64> = Vec::new();
    let mut j: usize = 0;
    while j < kernel_len
        invariant
            j <= kernel_len,
            start + kernel_len <= sequence.len(),
            w@ == sequence@.subrange(start as int, start + j),
        decreases kernel_len - j,
    {
        w.push(sequence[start + j]);
        proof {
            assert(w@ =~= sequence@.subrange(start as int, start + j + 1));
        }
        j += 1;
    }
    w
}

/// Finds the kernel in a sequence of samples.
///
/// An empty kernel and a sequence shorter than the kernel are refused before
/// anything is evaluated. Otherwise the kernel is normalized once; then each
/// window, in increasing order of its start, is normalized by itself and its
/// squared distance to the normalized kernel is its error. The result is
/// what `best_match` gives on these errors.
pub fn search<N: Fn(&Vec<u64>) -> Vec<u64>, E: Fn(&Vec<u64>, &Vec<u64>) -> u64>(
    sequence: &Vec<u64>,
    kernel: &Vec<u64>,
    normalize: &N,
    squared_distance: &E,
) -> (r: Result<usize, Error>)
    requires
        forall|v: Vec<u64>| v.len() == kernel.len() ==> #[trigger] normalize.requires((&v,)),
        measures(normalize, squared_distance, kernel.len() as int),
    ensures
        match windows(sequence.len() as int, kernel.len() as int) {
            Err(e) => r == Err::<usize, Error>(e),
            Ok(count) => r is Ok && exists|kernel_unit: Vec<u64>, errors: Seq<u64>| #[trigger]
                matched(
                    normalize,
                    squared_distance,
                    sequence@,
                    kernel,
                    &kernel_unit,
                    errors,
                    r->Ok_0 as int,
                ),
        },
        r is Ok ==> centre(kernel.len() as int) <= r->Ok_0 <= sequence.len() - kernel.len()
            + centre(kernel.len() as int),
{
    let kernel_len: usize = kernel.len();
    let count: usize = match window_count(sequence.len(), kernel_len) {
        Ok(count) => count,
        Err(e) => {
            return Err(e);
        },
    };
    let kernel_unit: Vec<u64> = normalize(kernel);
    let mut errors: Vec<u64> = Vec::new();
    let mut start: usize = 0;
    while start < count
        invariant
            start <= count,
            count == sequence.len() - kernel_len + 1,
            kernel_len == kernel.len(),
            kernel_len >= 1,
            errors.len() == start,
            normalize.ensures((kernel,), kernel_unit),
            forall|v: Vec<u64>| v.len() == kernel.len() ==> #[trigger] normalize.requires((&v,)),
            measures(normalize, squared_distance, kernel.len() as int),
            forall|i: int|
                0 <= i < start ==> evaluated(
                    normalize,
                    squared_distance,
                    sequence@,
                    kernel.len() as int,
                    &kernel_unit,
                    i,
                    #[trigger] errors@[i],
                ),
        decreases count - start,
    {
        let w: Vec<u64> = take_window(sequence, start, kernel_len);
        let unit: Vec<u64> = normalize(&w);
        let e: u64 = squared_distance(&unit, &kernel_unit);
        proof {
            assert(evaluated(
                normalize,
                squared_distance,
                sequence@,
                kernel.len() as int,
                &kernel_unit,
                start as int,
                e,
            ));
        }
        errors.push(e);
        start += 1;
    }
    let r = best_match(&errors, kernel_len);
    proof {
        assert(matched(
            normalize,
            squared_distance,
            sequence@,
            kernel,
            &kernel_unit,
            errors@,
            r->Ok_0 as int,
        ));
    }
    r
}

/// Checks the input of the gradient magnitude: the difference operator needs
/// two samples, and the step between samples is a number above zero.
pub fn gradient_input(samples: usize, step_size: u64) -> (r: Result<(), Error>)
    ensures
        samples < 2 <==> r == Err::<(), Error>(Error::InsufficientSamples),
        samples >= 2 && !less_than(ZERO, step_size) <==> r == Err::<(), Error>(
            Error::InvalidArgument,
        ),
        samples >= 2 && less_than(ZERO, step_size) <==> r is Ok,
{
    if samples < 2 {
        Err(Error::InsufficientSamples)
    } else if !positive(step_size) {
        Err(Error::InvalidArgument)
    } else {
        Ok(())
    }
}

/// Whether `magnitude` can come out for a profile and a step: the norm of
/// the profile's first difference, divided by the step.
pub open spec fn graded<
    G: Fn(&Vec<u64>) -> Vec<u64>,
    N: Fn(&Vec<u64>) -> u64,
    D: Fn(u64, u64) -> u64,
>(
    difference: &G,
    norm: &N,
    over: &D,
    intensities: &Vec<u64>,
    step_size: u64,
    magnitude: u64,
) -> bool {
    exists|d: Vec<u64>, length: u64|
        {
            &&& #[trigger] difference.ensures((intensities,), d)
            &&& #[trigger] norm.ensures((&d,), length)
            &&& over.ensures((length, step_size), magnitude)
        }
}

/// The gradient magnitude of an intensity profile per unit of distance:
/// the Euclidean norm of the profile's first difference, divided by the step
/// between samples.
///
/// A profile or a step that `gradient_input` refuses is refused here, before
/// any operation is called.
pub fn gradient<G: Fn(&Vec<u64>) -> Vec<u64>, N: Fn(&Vec<u64>) -> u64, D: Fn(u64, u64) -> u64>(
    intensities: &Vec<u64>,
    step_size: u64,
    difference: &G,
    norm: &N,
    over: &D,
) -> (r: Result<u64, Error>)
    requires
        intensities.len() >= 2 ==> difference.requires((intensities,)),
        forall|d: Vec<u64>| #[trigger] difference.ensures((intensities,), d) ==> norm.requires((&d,)),
        forall|a: u64, b: u64| #[trigger] over.requires((a, b)),
    ensures
        intensities.len() < 2 <==> r == Err::<u64, Error>(Error::InsufficientSamples),
        intensities.len() >= 2 && !less_than(ZERO, step_size) <==> r == Err::<u64, Error>(
            Error::InvalidArgument,
        ),
        intensities.len() >= 2 && less_than(ZERO, step_size) <==> r is Ok,
        r is Ok ==> graded(difference, norm, over, intensities, step_size, r->Ok_0),
{
    match gradient_input(intensities.len(), step_size) {
        Err(e) => Err(e),
        Ok(()) => {
            let d: Vec<u64> = difference(intensities);
            let length: u64 = norm(&d);
            Ok(over(length, step_size))
        },
    }
}

/// The step enters the gradient magnitude through the last division alone:
/// where the difference operator and the norm each give one result for one
/// input, the magnitudes of one profile at two steps are quotients of one
/// and the same norm.
pub proof fn step_only_divides<
    G: Fn(&Vec<u64>) -> Vec<u64>,
    N: Fn(&Vec<u64>) -> u64,
    D: Fn(u64, u64) -> u64,
>(
    difference: &G,
    norm: &N,
    over: &D,
    intensities: &Vec<u64>,
    step_a: u64,
    step_b: u64,
    a: u64,
    b: u64,
)
    requires
        forall|d1: Vec<u64>, d2: Vec<u64>|
            #![trigger difference.ensures((intensities,), d1), difference.ensures((intensities,), d2)]
            difference.ensures((intensities,), d1) && difference.ensures((intensities,), d2)
                ==> d1 == d2,
        forall|d: Vec<u64>, l1: u64, l2: u64|
            #![trigger norm.ensures((&d,), l1), norm.ensures((&d,), l2)]
            norm.ensures((&d,), l1) && norm.ensures((&d,), l2) ==> l1 == l2,
        graded(difference, norm, over, intensities, step_a, a),
        graded(difference, norm, over, intensities, step_b, b),
    ensures
        exists|length: u64| #[trigger]
            over.ensures((length, step_a), a) && over.ensures((length, step_b), b),
{
    let (d1, l1) = choose|d: Vec<u64>, length: u64|
        {
            &&& #[trigger] difference.ensures((intensities,), d)
            &&& #[trigger] norm.ensures((&d,), length)
            &&& over.ensures((length, step_a), a)
        };
    let (d2, l2) = choose|d: Vec<u64>, length: u64|
        {
            &&& #[trigger] difference.ensures((intensities,), d)
            &&& #[trigger] norm.ensures((&d,), length)
            &&& over.ensures((length, step_b), b)
        };
    assert(d1 == d2);
    assert(l1 == l2);
    assert(over.ensures((l1, step_a), a) && over.ensures((l1, step_b), b));
}

/// At most one window is the first minimum: the errors determine the result
/// of a search.
pub proof fn first_minimum_is_unique(errors: Seq<u64>, i: int, j: int)
    requires
        is_first_minimum(errors, i),
        is_first_minimum(errors, j),
    ensures
        i == j,
{
    if i < j {
        assert(score(errors[i]) > score(errors[j]));
    } else if j < i {
        assert(score(errors[j]) > score(errors[i]));
    }
}

/// What the choice means in the order of binary64: no window has an error
/// below that of the chosen one, and every window before it has an error
/// above it, or none that is a number.
pub proof fn chosen_window_is_least(errors: Seq<u64>, chosen: int, j: int)
    requires
        is_first_minimum(errors, chosen),
        0 <= j < errors.len(),
    ensures
        !less_than(errors[j], errors[chosen]),
        j < chosen ==> less_than(errors[chosen], INFINITY),
        j < chosen ==> less_than(errors[chosen], errors[j]) || is_nan(errors[j]),
{
    assert(score(errors[j]) >= score(errors[chosen]));
    if j < chosen {
        assert(score(errors[j]) > score(errors[chosen]));
    }
}

/// Of two windows with the same score, the later one is never chosen: a tie
/// on the least error goes to the lower start.
pub proof fn tie_goes_to_lower_start(errors: Seq<u64>, i: int, j: int, chosen: int)
    requires
        0 <= i < j < errors.len(),
        score(errors[i]) == score(errors[j]),
        is_first_minimum(errors, chosen),
    ensures
        chosen != j,
        score(errors[i]) == score(errors[chosen]) ==> chosen <= i,
{
    if chosen > i {
        assert(score(errors[i]) > score(errors[chosen]));
    }
}

/// For a sequence of `n` samples and a kernel of `k`, `1 <= k <= n`, the
/// index that a search reports lies between `k / 2` and `n - k + k / 2`, and
/// the kernel centred there lies inside the sequence.
pub proof fn result_is_in_bounds(n: int, k: int, errors: Seq<u64>, index: int)
    requires
        1 <= k <= n,
        errors.len() == n - k + 1,
        is_first_minimum(errors, index - centre(k)),
    ensures
        centre(k) <= index <= n - k + centre(k),
        index < n,
{
}

/// With as many samples as the kernel has there is one window, and the
/// search reports the kernel's centre.
pub proof fn single_window(k: int, errors: Seq<u64>, index: int)
    requires
        1 <= k,
        errors.len() == 1,
        is_first_minimum(errors, index - centre(k)),
    ensures
        index == centre(k),
{
}

} // verus!
