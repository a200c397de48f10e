//! Processing a list item by item until the first item that fails.

use vstd::prelude::*;

verus! {

/// The result of handing the items to `step` in order, each with what the
/// items before it gave: the error of the first step that fails, else what
/// the last step gives.
pub open spec fn try_fold<A, B, E>(
    items: Seq<A>,
    init: B,
    step: spec_fn(B, A) -> Result<B, E>,
) -> Result<B, E>
    decreases items.len(),
{
    if items.len() == 0 {
        Ok(init)
    } else {
        match try_fold(items.drop_last(), init, step) {
            Err(e) => Err(e),
            Ok(acc) => step(acc, items.last()),
        }
    }
}

/// One more item means one more step.
pub proof fn lemma_try_fold_next<A, B, E>(
    items: Seq<A>,
    init: B,
    step: spec_fn(B, A) -> Result<B, E>,
    i: int,
)
    requires
        0 <= i < items.len(),
    ensures
        try_fold(items.take(i + 1), init, step) == match try_fold(items.take(i), init, step) {
            Err(e) => Err(e),
            Ok(acc) => step(acc, items[i]),
        },
{
    let t = items.take(i + 1);
    assert(t.drop_last() =~= items.take(i));
    assert(t.last() == items[i]);
}

/// Once a prefix fails, the whole list fails with the same error.
pub proof fn lemma_try_fold_error<A, B, E>(
    items: Seq<A>,
    init: B,
    step: spec_fn(B, A) -> Result<B, E>,
    n: int,
)
    requires
        0 <= n <= items.len(),
    ensures
        try_fold(items.take(n), init, step) is Err ==> try_fold(items, init, step) == try_fold(
            items.take(n),
            init,
            step,
        ),
    decreases items.len() - n,
{
    if n == items.len() {
        assert(items.take(n) =~= items);
    } else {
        lemma_try_fold_next(items, init, step, n);
        lemma_try_fold_error(items, init, step, n + 1);
    }
}

/// The whole list is its own longest prefix.
pub proof fn lemma_try_fold_all<A, B, E>(
    items: Seq<A>,
    init: B,
    step: spec_fn(B, A) -> Result<B, E>,
)
    ensures
        try_fold(items.take(items.len() as int), init, step) == try_fold(items, init, step),
{
    assert(items.take(items.len() as int) =~= items);
}

/// What holds at the start and is kept by every step that succeeds holds at the end.
pub proof fn lemma_try_fold_invariant<A, B, E>(
    items: Seq<A>,
    init: B,
    step: spec_fn(B, A) -> Result<B, E>,
    inv: spec_fn(int, B) -> bool,
)
    requires
        inv(0, init),
        forall|i: int, acc: B|
            0 <= i < items.len() && inv(i, acc) && (#[trigger] step(acc, items[i])) is Ok ==> inv(
                i + 1,
                step(acc, items[i])->Ok_0,
            ),
    ensures
        try_fold(items, init, step) matches Ok(r) ==> inv(items.len() as int, r),
    decreases items.len(),
{
    if items.len() > 0 {
        let front = items.drop_last();
        assert forall|i: int, acc: B|
            0 <= i < front.len() && inv(i, acc) && (#[trigger] step(acc, front[i])) is Ok implies inv(
            i + 1,
            step(acc, front[i])->Ok_0,
        ) by {
            assert(front[i] == items[i]);
        }
        lemma_try_fold_invariant(front, init, step, inv);
        if let Ok(acc) = try_fold(front, init, step) {
            assert(items.last() == items[items.len() - 1]);
            if step(acc, items.last()) is Ok {
                assert(inv(items.len() - 1, acc));
            }
        }
    }
}

} // verus!
