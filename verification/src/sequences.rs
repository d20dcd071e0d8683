//! Facts about sequences without duplicates and about keeping the elements
//! of a sequence that meet a condition.

use vstd::prelude::*;

verus! {

/// Appending an element that is not there yet adds no duplicate.
pub proof fn lemma_push_no_duplicates<A>(items: Seq<A>, item: A)
    requires
        items.no_duplicates(),
        !items.contains(item),
    ensures
        items.push(item).no_duplicates(),
{
    let pushed = items.push(item);
    assert forall|i: int, j: int| 0 <= i < pushed.len() && 0 <= j < pushed.len() && i
        != j implies pushed[i] != pushed[j] by {
        if i == items.len() {
            assert(items.contains(items[j]));
        } else if j == items.len() {
            assert(items.contains(items[i]));
        }
    }
}

/// What an appended sequence contains.
pub proof fn lemma_push_contains<A>(items: Seq<A>, item: A, other: A)
    ensures
        items.push(item).contains(other) <==> items.contains(other) || other == item,
{
    let pushed = items.push(item);
    if items.contains(other) {
        let i = items.index_of(other);
        assert(pushed[i] == other);
    }
    if other == item {
        assert(pushed[pushed.len() - 1] == other);
    }
    if pushed.contains(other) {
        let i = pushed.index_of(other);
        if i < items.len() {
            assert(items[i] == other);
        }
    }
}

/// Keeping by a condition, one element further.
pub proof fn lemma_filter_push<A>(items: Seq<A>, item: A, keep: spec_fn(A) -> bool)
    ensures
        items.push(item).filter(keep) == if keep(item) {
            items.filter(keep).push(item)
        } else {
            items.filter(keep)
        },
{
    reveal(Seq::filter);
    assert(items.push(item).drop_last() =~= items);
}

/// Keeping by a condition keeps exactly the elements that meet it, in
/// order, and adds no duplicate. Nothing is dropped exactly when every
/// element meets the condition.
pub proof fn lemma_filter_keeps<A>(items: Seq<A>, keep: spec_fn(A) -> bool)
    ensures
        forall|item: A| items.filter(keep).contains(item) <==> items.contains(item) && keep(item),
        items.no_duplicates() ==> items.filter(keep).no_duplicates(),
        items.filter(keep).len() <= items.len(),
        items.filter(keep).len() == items.len() <==> forall|i: int|
            0 <= i < items.len() ==> keep(#[trigger] items[i]),
    decreases items.len(),
{
    reveal(Seq::filter);
    if items.len() > 0 {
        let front = items.drop_last();
        let last = items.last();
        lemma_filter_keeps(front, keep);
        let kept = front.filter(keep);
        assert(front.push(last) =~= items);
        assert forall|item: A| items.filter(keep).contains(item) <==> items.contains(item) && keep(
            item,
        ) by {
            lemma_push_contains(front, last, item);
            if keep(last) {
                lemma_push_contains(kept, last, item);
            }
        }
        if items.no_duplicates() {
            assert(front.no_duplicates()) by {
                assert forall|i: int, j: int| 0 <= i < front.len() && 0 <= j < front.len() && i
                    != j implies front[i] != front[j] by {
                    assert(items[i] != items[j]);
                }
            }
            if keep(last) {
                assert(!front.contains(last)) by {
                    if front.contains(last) {
                        let i = front.index_of(last);
                        assert(items[i] == items[items.len() - 1]);
                    }
                }
                lemma_push_no_duplicates(kept, last);
            }
        }
        if forall|i: int| 0 <= i < items.len() ==> keep(#[trigger] items[i]) {
            assert forall|i: int| 0 <= i < front.len() implies keep(#[trigger] front[i]) by {
                assert(keep(items[i]));
            }
            assert(keep(items[items.len() - 1]));
        }
        if items.filter(keep).len() == items.len() {
            assert forall|i: int| 0 <= i < items.len() implies keep(#[trigger] items[i]) by {
                if i < front.len() {
                    assert(keep(front[i]));
                }
            }
        }
    }
}

/// Keeping by a condition changes nothing where every element meets it;
/// so keeping twice is keeping once.
pub proof fn lemma_filter_again<A>(items: Seq<A>, keep: spec_fn(A) -> bool)
    ensures
        (forall|i: int| 0 <= i < items.len() ==> keep(#[trigger] items[i])) ==> items.filter(keep)
            == items,
        items.filter(keep).filter(keep) == items.filter(keep),
    decreases items.len(),
{
    reveal(Seq::filter);
    if items.len() > 0 {
        let front = items.drop_last();
        lemma_filter_again(front, keep);
        if forall|i: int| 0 <= i < items.len() ==> keep(#[trigger] items[i]) {
            assert forall|i: int| 0 <= i < front.len() implies keep(#[trigger] front[i]) by {
                assert(keep(items[i]));
            }
            assert(keep(items[items.len() - 1]));
            assert(front.push(items.last()) =~= items);
        }
        if keep(items.last()) {
            lemma_filter_push(front.filter(keep), items.last(), keep);
        }
    }
}

} // verus!
