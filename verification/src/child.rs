//! What comes of a child process and of the tasks that serve it.

use vstd::prelude::*;

verus! {

/// The result of a task that ran to its end, or the error of the one that
/// failed or could not be joined, as an error `X`.
pub fn flatten<T, E, F, X>(res: Result<Result<T, E>, F>) -> (flat: Result<T, X>) where
    E: Into<X>,
    F: Into<X>,

    ensures
        match res {
            Ok(Ok(value)) => flat == Ok::<T, X>(value),
            Ok(Err(error)) => flat matches Err(x) && call_ensures(E::into, (error,), x),
            Err(error) => flat matches Err(x) && call_ensures(F::into, (error,), x),
        },
{
    match res {
        Ok(Ok(result)) => Ok(result),
        Ok(Err(err)) => Err(err.into()),
        Err(err) => Err(err.into()),
    }
}

/// What comes of a child. `waited` is its status, or why it could not be waited
/// for. `copied` is what has come of the copies of its streams by then; `None`
/// if they still run, which is no reason to wait for them. A copy that has
/// failed counts for more than the status.
pub fn proxy_child<S, W, T, E, F, X>(
    waited: Result<S, W>,
    copied: Option<Result<Result<T, E>, F>>,
) -> (res: Result<S, X>) where W: Into<X>, E: Into<X>, F: Into<X>
    ensures
        match waited {
            Err(error) => res matches Err(x) && call_ensures(W::into, (error,), x),
            Ok(status) => match copied {
                Some(Ok(Err(error))) => res matches Err(x) && call_ensures(E::into, (error,), x),
                Some(Err(error)) => res matches Err(x) && call_ensures(F::into, (error,), x),
                _ => res == Ok::<S, X>(status),
            },
        },
{
    let status = match waited {
        Err(error) => return Err(error.into()),
        Ok(status) => status,
    };
    match copied {
        None => Ok(status),
        Some(copied) => match flatten(copied) {
            Ok(_) => Ok(status),
            Err(error) => Err(error),
        },
    }
}

/// A task has succeeded exactly if it was joined and its own result is a
/// success, and that result is what comes out.
pub proof fn task_succeeds_as_a_whole<T, E, F, X>(
    res: Result<Result<T, E>, F>,
    flat: Result<T, X>,
    value: T,
) where E: Into<X>, F: Into<X>
    requires
        call_ensures(flatten::<T, E, F, X>, (res,), flat),
    ensures
        flat == Ok::<T, X>(value) <==> res == Ok::<Result<T, E>, F>(Ok(value)),
        res matches Err(error) ==> call_ensures(F::into, (error,), flat->Err_0),
        res matches Ok(Err(error)) ==> call_ensures(E::into, (error,), flat->Err_0),
{
}

/// A child's status comes out exactly if it could be waited for and no copy of
/// its streams has failed by then; copies that still run do not matter.
pub proof fn status_comes_out_unless_something_failed<S, W, T, E, F, X>(
    waited: Result<S, W>,
    copied: Option<Result<Result<T, E>, F>>,
    res: Result<S, X>,
    status: S,
) where W: Into<X>, E: Into<X>, F: Into<X>
    requires
        call_ensures(proxy_child::<S, W, T, E, F, X>, (waited, copied), res),
    ensures
        res == Ok::<S, X>(status) <==> waited == Ok::<S, W>(status) && (copied matches Some(
            joined,
        ) ==> joined is Ok && joined->Ok_0 is Ok),
        waited matches Err(error) ==> call_ensures(W::into, (error,), res->Err_0),
        waited is Ok ==> match copied {
            Some(Err(error)) => call_ensures(F::into, (error,), res->Err_0),
            Some(Ok(Err(error))) => call_ensures(E::into, (error,), res->Err_0),
            _ => true,
        },
{
}

} // verus!
