//! Working through a list where the first failure ends the work.

use vstd::prelude::*;

verus! {

/// Appends to a list, and so to what the list stands for.
pub fn keep<T: DeepView>(items: &mut Vec<T>, item: T)
    ensures
        final(items).deep_view() == old(items).deep_view().push(item.deep_view()),
        final(items)@ == old(items)@.push(item),
{
    let ghost before = items.deep_view();
    let ghost kept = item.deep_view();
    items.push(item);
    assert(items.deep_view() =~= before.push(kept));
}

/// What a result says, success or failure, its texts as sequences of characters.
pub open spec fn outcome<T: DeepView, E: DeepView>(result: Result<T, E>) -> Result<T::V, E::V> {
    match result {
        Ok(value) => Ok(value.deep_view()),
        Err(error) => Err(error.deep_view()),
    }
}

/// The first item that a rule picks out.
pub open spec fn first_where<T>(items: Seq<T>, wanted: spec_fn(T) -> bool) -> Option<T>
    decreases items.len(),
{
    if items.len() == 0 {
        None
    } else if wanted(items[0]) {
        Some(items[0])
    } else {
        first_where(items.drop_first(), wanted)
    }
}

/// Every success in order, or the first failure.
pub open spec fn collected<T, E>(results: Seq<Result<T, E>>) -> Result<Seq<T>, E>
    decreases results.len(),
{
    if results.len() == 0 {
        Ok(seq![])
    } else {
        match collected(results.drop_last()) {
            Err(error) => Err(error),
            Ok(items) => match results.last() {
                Err(error) => Err(error),
                Ok(item) => Ok(items.push(item)),
            },
        }
    }
}

/// One more success extends what was collected.
pub proof fn lemma_collected_next<T, E>(results: Seq<Result<T, E>>, i: int)
    requires
        0 <= i < results.len(),
        collected(results.take(i)) is Ok,
        results[i] is Ok,
    ensures
        collected(results.take(i + 1)) == Ok::<Seq<T>, E>(
            collected(results.take(i))->Ok_0.push(results[i]->Ok_0),
        ),
{
    assert(results.take(i + 1).drop_last() =~= results.take(i));
}

/// What fails on a prefix fails on the whole, with the same failure.
pub proof fn lemma_collected_prefix_fails<T, E>(results: Seq<Result<T, E>>, i: int)
    requires
        0 <= i <= results.len(),
        collected(results.take(i)) is Err,
    ensures
        collected(results) == Err::<Seq<T>, E>(collected(results.take(i))->Err_0),
    decreases results.len() - i,
{
    if i < results.len() {
        assert(results.take(i + 1).drop_last() =~= results.take(i));
        lemma_collected_prefix_fails(results, i + 1);
    } else {
        assert(results.take(i) =~= results);
    }
}

/// The first failure is the failure of the whole.
pub proof fn lemma_collected_fails<T, E>(results: Seq<Result<T, E>>, i: int)
    requires
        0 <= i < results.len(),
        collected(results.take(i)) is Ok,
        results[i] is Err,
    ensures
        collected(results) == Err::<Seq<T>, E>(results[i]->Err_0),
{
    assert(results.take(i + 1).drop_last() =~= results.take(i));
    lemma_collected_prefix_fails(results, i + 1);
}

/// A success keeps one item for each result, and each is that result's own.
pub proof fn lemma_collected_items<T, E>(results: Seq<Result<T, E>>)
    requires
        collected(results) is Ok,
    ensures
        collected(results)->Ok_0.len() == results.len(),
        forall|i: int|
            0 <= i < results.len() ==> #[trigger] results[i] == Ok::<T, E>(collected(results)->Ok_0[i]),
    decreases results.len(),
{
    if results.len() > 0 {
        lemma_collected_items(results.drop_last());
        assert forall|i: int| 0 <= i < results.len() implies #[trigger] results[i] == Ok::<T, E>(
            collected(results)->Ok_0[i],
        ) by {
            if i < results.len() - 1 {
                assert(results.drop_last()[i] == results[i]);
            }
        }
    }
}

/// Where nothing fails, everything is collected.
pub proof fn lemma_all_collected<T, E>(results: Seq<Result<T, E>>)
    requires
        forall|i: int| 0 <= i < results.len() ==> #[trigger] results[i] is Ok,
    ensures
        collected(results) is Ok,
    decreases results.len(),
{
    if results.len() > 0 {
        assert forall|i: int| 0 <= i < results.drop_last().len() implies #[trigger] results.drop_last()[i] is Ok by {
            assert(results.drop_last()[i] == results[i]);
        }
        lemma_all_collected(results.drop_last());
    }
}

/// The failure of the whole is the failure of one of its results.
pub proof fn lemma_collected_failure<T, E>(results: Seq<Result<T, E>>)
    requires
        collected(results) is Err,
    ensures
        exists|i: int|
            0 <= i < results.len() && #[trigger] results[i] == Err::<T, E>(collected(results)->Err_0),
    decreases results.len(),
{
    if collected(results.drop_last()) is Err {
        lemma_collected_failure(results.drop_last());
        let i = choose|i: int|
            0 <= i < results.len() - 1 && #[trigger] results.drop_last()[i] == Err::<T, E>(
                collected(results)->Err_0,
            );
        assert(results[i] == results.drop_last()[i]);
    } else {
        assert(results[results.len() - 1] == results.last());
    }
}

/// Results are collected where none of them failed, each in its place; otherwise the first failure is what is told.
pub proof fn law_the_first_failure_is_told<T, E>(results: Seq<Result<T, E>>)
    ensures
        collected(results) is Ok <==> forall|i: int| 0 <= i < results.len() ==> (#[trigger] results[i]) is Ok,
        collected(results) matches Ok(items) ==> items.len() == results.len() && forall|i: int|
            0 <= i < results.len() ==> #[trigger] results[i] == Ok::<T, E>(items[i]),
        collected(results) matches Err(error) ==> exists|i: int|
            0 <= i < results.len() && #[trigger] results[i] == Err::<T, E>(error) && forall|k: int|
                0 <= k < i ==> (#[trigger] results[k]) is Ok,
    decreases results.len(),
{
    if collected(results) is Ok {
        lemma_collected_items(results);
    } else {
        let before = results.drop_last();
        let last = results.len() - 1;
        law_the_first_failure_is_told(before);
        assert(forall|k: int| 0 <= k < before.len() ==> #[trigger] before[k] == results[k]);
        if let Err(error) = collected(before) {
            let i = choose|i: int|
                0 <= i < before.len() && #[trigger] before[i] == Err::<T, E>(error) && forall|k: int|
                    0 <= k < i ==> (#[trigger] before[k]) is Ok;
            assert(results[i] == Err::<T, E>(error));
            assert forall|k: int| 0 <= k < i implies (#[trigger] results[k]) is Ok by {
                assert(before[k] == results[k]);
            }
        } else {
            assert(results[last] == Err::<T, E>(collected(results)->Err_0));
            assert forall|k: int| 0 <= k < last implies (#[trigger] results[k]) is Ok by {
                assert(before[k] == results[k]);
            }
        }
    }
}

/// The first item that is wanted is the one found, and none is where none is wanted.
pub proof fn law_the_first_wanted_item_is_found<T>(items: Seq<T>, wanted: spec_fn(T) -> bool)
    ensures
        first_where(items, wanted) is None <==> forall|i: int|
            0 <= i < items.len() ==> !wanted(#[trigger] items[i]),
        first_where(items, wanted) matches Some(item) ==> exists|i: int|
            0 <= i < items.len() && #[trigger] items[i] == item && wanted(item) && forall|k: int|
                0 <= k < i ==> !wanted(#[trigger] items[k]),
    decreases items.len(),
{
    if items.len() > 0 {
        let rest = items.drop_first();
        law_the_first_wanted_item_is_found(rest, wanted);
        assert(forall|k: int| 0 <= k < rest.len() ==> #[trigger] rest[k] == items[k + 1]);
        if !wanted(items[0]) {
            if let Some(item) = first_where(rest, wanted) {
                let i = choose|i: int|
                    0 <= i < rest.len() && #[trigger] rest[i] == item && wanted(item) && forall|k: int|
                        0 <= k < i ==> !wanted(#[trigger] rest[k]);
                assert(items[i + 1] == item);
                assert forall|k: int| 0 <= k < i + 1 implies !wanted(#[trigger] items[k]) by {
                    if k > 0 {
                        assert(items[k] == rest[k - 1]);
                    }
                }
            } else {
                assert forall|k: int| 0 <= k < items.len() implies !wanted(#[trigger] items[k]) by {
                    if k > 0 {
                        assert(items[k] == rest[k - 1]);
                    }
                }
            }
        } else {
            assert(items[0] == first_where(items, wanted)->Some_0);
        }
    }
}

} // verus!
