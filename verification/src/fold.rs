use vstd::prelude::*;
use crate::error::Error;

verus! {

/// What `init` becomes when `f` takes in the items one after another, or the
/// error of the first item that `f` refuses.
pub open spec fn fold_results<S, T>(
    init: S,
    items: Seq<T>,
    f: spec_fn(S, T) -> Result<S, Error>,
) -> Result<S, Error>
    decreases items.len(),
{
    if items.len() == 0 {
        Ok(init)
    } else {
        match fold_results(init, items.drop_last(), f) {
            Err(e) => Err(e),
            Ok(s) => f(s, items.last()),
        }
    }
}

/// One more item is taken in after those before it.
pub proof fn lemma_fold_step<S, T>(
    init: S,
    items: Seq<T>,
    f: spec_fn(S, T) -> Result<S, Error>,
    n: int,
)
    requires
        0 <= n < items.len(),
    ensures
        fold_results(init, items.subrange(0, n + 1), f) == match fold_results(
            init,
            items.subrange(0, n),
            f,
        ) {
            Err(e) => Err(e),
            Ok(s) => f(s, items[n]),
        },
{
    assert(items.subrange(0, n + 1).drop_last() =~= items.subrange(0, n));
    assert(items.subrange(0, n + 1).last() == items[n]);
}

/// An error among the first `n` items is the error of all of them.
pub proof fn lemma_fold_err<S, T>(
    init: S,
    items: Seq<T>,
    f: spec_fn(S, T) -> Result<S, Error>,
    n: int,
)
    requires
        0 <= n <= items.len(),
        fold_results(init, items.subrange(0, n), f) is Err,
    ensures
        fold_results(init, items, f) == fold_results(init, items.subrange(0, n), f),
    decreases items.len() - n,
{
    if n < items.len() {
        lemma_fold_step(init, items, f, n);
        lemma_fold_err(init, items, f, n + 1);
    } else {
        assert(items.subrange(0, n) =~= items);
    }
}

/// Nothing taken in leaves `init` as it is, and all taken in is the whole.
pub proof fn lemma_fold_ends<S, T>(init: S, items: Seq<T>, f: spec_fn(S, T) -> Result<S, Error>)
    ensures
        fold_results(init, items.subrange(0, 0), f) == Ok::<S, Error>(init),
        items.subrange(0, items.len() as int) == items,
{
    assert(items.subrange(0, 0) =~= Seq::<T>::empty());
    assert(items.subrange(0, items.len() as int) =~= items);
}

} // verus!
