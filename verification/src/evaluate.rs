//! Evaluating a function at every point of a list, in parallel or on
//! the forced serial path, with the results in point order.
use vstd::prelude::*;

use rayon::iter::{IntoParallelRefIterator, ParallelIterator};

use crate::sweep::Execution;

verus! {

/// `values` holds, in point order, one outcome of `evaluate` at each
/// point.
pub open spec fn evaluated_in_order<P, T, E, F: Fn(&P) -> Result<T, E>>(
    points: Seq<P>,
    evaluate: F,
    values: Seq<T>,
) -> bool {
    &&& values.len() == points.len()
    &&& forall|k: int| 0 <= k < points.len() ==> call_ensures(evaluate, (&points[k],), Ok::<T, E>(#[trigger] values[k]))
}

/// `error` is an outcome of `evaluate` at one of the points.
pub open spec fn failed_at_some_point<P, T, E, F: Fn(&P) -> Result<T, E>>(
    points: Seq<P>,
    evaluate: F,
    error: E,
) -> bool {
    exists|k: int| 0 <= k < points.len() && call_ensures(evaluate, (&points[k],), Err::<T, E>(error))
}

/// rayon's order-preserving parallel map and collect (`par_iter`,
/// `map`, `collect` into `Result<Vec<_>, _>`): every point is handed to
/// `evaluate`; when every call succeeds the values come back in point
/// order, otherwise one of the errors the calls returned comes back
/// (which one, when several fail, rayon leaves open).
#[verifier::external_body]
fn parallel_map<P, T, E, F>(points: &Vec<P>, evaluate: &F) -> (r: Result<Vec<T>, E>)
    where
        P: Sync,
        T: Send,
        E: Send,
        F: Fn(&P) -> Result<T, E> + Sync + Send,
    requires
        forall|k: int| 0 <= k < points.len() ==> call_requires(*evaluate, (&points@[k],)),
    ensures
        r matches Ok(values) ==> evaluated_in_order(points@, *evaluate, values@),
        r matches Err(error) ==> failed_at_some_point(points@, *evaluate, error),
{
    points.par_iter().map(evaluate).collect()
}

/// Evaluate at every point: in parallel (rayon, order preserving) or
/// serially. On success the values are in point order, one outcome of
/// `evaluate` per point, on either path; a failure is an error that
/// `evaluate` returned at some point (serially, at the first failing
/// point).
pub fn evaluate_points<P, T, E, F>(points: &Vec<P>, execution: Execution, evaluate: F) -> (r: Result<Vec<T>, E>)
    where
        P: Sync,
        T: Send,
        E: Send,
        F: Fn(&P) -> Result<T, E> + Sync + Send,
    requires
        forall|k: int| 0 <= k < points.len() ==> call_requires(evaluate, (&points@[k],)),
    ensures
        r matches Ok(values) ==> evaluated_in_order(points@, evaluate, values@),
        r matches Err(error) ==> failed_at_some_point(points@, evaluate, error),
{
    match execution {
        Execution::Parallel => parallel_map(points, &evaluate),
        Execution::Serial => {
            let mut values: Vec<T> = Vec::new();
            let mut i: usize = 0;
            while i < points.len()
                invariant
                    i <= points.len(),
                    values.len() == i,
                    forall|k: int| 0 <= k < points.len() ==> call_requires(evaluate, (&points@[k],)),
                    forall|k: int|
                        0 <= k < i ==> call_ensures(evaluate, (&points@[k],), Ok::<T, E>(#[trigger] values@[k])),
                decreases points.len() - i,
            {
                let outcome = evaluate(&points[i]);
                match outcome {
                    Ok(value) => {
                        values.push(value);
                    },
                    Err(error) => {
                        return Err(error);
                    },
                }
                i += 1;
            }
            Ok(values)
        },
    }
}

} // verus!
