//! All-or-nothing processing of a sequence: every item is converted in
//! order, and the first failure is the failure of the whole.

use vstd::prelude::*;

verus! {

/// Converts the items in order. The result is the sequence of converted
/// items where every conversion succeeds, and otherwise the failure of the
/// first item that has one.
pub open spec fn try_map<A, B, E>(items: Seq<A>, f: spec_fn(A) -> Result<B, E>) -> Result<
    Seq<B>,
    E,
>
    decreases items.len(),
{
    if items.len() == 0 {
        Ok(Seq::empty())
    } else {
        match try_map(items.drop_last(), f) {
            Err(e) => Err(e),
            Ok(done) => match f(items.last()) {
                Err(e) => Err(e),
                Ok(item) => Ok(done.push(item)),
            },
        }
    }
}

/// One more item after a prefix that succeeded.
pub proof fn lemma_try_map_step<A, B, E>(items: Seq<A>, f: spec_fn(A) -> Result<B, E>, n: int)
    requires
        0 <= n < items.len(),
        try_map(items.take(n), f) is Ok,
    ensures
        try_map(items.take(n + 1), f) == match f(items[n]) {
            Err(e) => Err::<Seq<B>, E>(e),
            Ok(item) => Ok(try_map(items.take(n), f)->Ok_0.push(item)),
        },
{
    assert(items.take(n + 1).drop_last() =~= items.take(n));
    assert(items.take(n + 1).last() == items[n]);
}

/// A failure within a prefix is the failure of the whole: the items after
/// it are not looked at.
pub proof fn lemma_try_map_prefix_fails<A, B, E>(
    items: Seq<A>,
    f: spec_fn(A) -> Result<B, E>,
    n: int,
)
    requires
        0 <= n <= items.len(),
        try_map(items.take(n), f) is Err,
    ensures
        try_map(items, f) == try_map(items.take(n), f),
    decreases items.len() - n,
{
    if n < items.len() {
        assert(items.take(n + 1).drop_last() =~= items.take(n));
        lemma_try_map_prefix_fails(items, f, n + 1);
    } else {
        assert(items.take(n) =~= items);
    }
}

/// Success is positional: as many results as items, and the result at each
/// position is the conversion of the item at that position.
pub proof fn lemma_try_map_ok<A, B, E>(items: Seq<A>, f: spec_fn(A) -> Result<B, E>)
    requires
        try_map(items, f) is Ok,
    ensures
        try_map(items, f)->Ok_0.len() == items.len(),
        forall|i: int|
            0 <= i < items.len() ==> f(#[trigger] items[i]) == Ok::<B, E>(
                try_map(items, f)->Ok_0[i],
            ),
    decreases items.len(),
{
    if items.len() > 0 {
        lemma_try_map_ok(items.drop_last(), f);
        assert forall|i: int| 0 <= i < items.len() implies f(#[trigger] items[i]) == Ok::<B, E>(
            try_map(items, f)->Ok_0[i],
        ) by {
            if i < items.len() - 1 {
                assert(items.drop_last()[i] == items[i]);
            }
        }
    }
}

/// Failure is atomic and comes from the first item that fails: every item
/// before it converts, and nothing is returned for any of them.
pub proof fn lemma_try_map_err<A, B, E>(items: Seq<A>, f: spec_fn(A) -> Result<B, E>) -> (at: int)
    requires
        try_map(items, f) is Err,
    ensures
        0 <= at < items.len(),
        f(items[at]) == Err::<B, E>(try_map(items, f)->Err_0),
        forall|i: int| 0 <= i < at ==> f(#[trigger] items[i]) is Ok,
    decreases items.len(),
{
    if try_map(items.drop_last(), f) is Err {
        let at = lemma_try_map_err(items.drop_last(), f);
        assert(items.drop_last()[at] == items[at]);
        assert forall|i: int| 0 <= i < at implies f(#[trigger] items[i]) is Ok by {
            assert(items.drop_last()[i] == items[i]);
        }
        at
    } else {
        lemma_try_map_ok(items.drop_last(), f);
        assert forall|i: int| 0 <= i < items.len() - 1 implies f(#[trigger] items[i]) is Ok by {
            assert(items.drop_last()[i] == items[i]);
        }
        items.len() - 1
    }
}

} // verus!
