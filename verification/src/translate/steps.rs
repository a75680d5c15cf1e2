//! Left-to-right processing of the items of a document, where the first item that
//! is refused ends it.

use vstd::prelude::*;

use crate::json::Tree;

verus! {

/// What a translation comes to.
pub enum Outcome<S> {
    /// The translation.
    Done(S),
    /// The message of the refusal.
    Refused(Seq<char>),
}

/// The state after all items, each handled by `step` with its position; the first
/// refusal stands.
pub open spec fn run<S>(
    items: Seq<Tree>,
    init: S,
    step: spec_fn(S, int, Tree) -> Outcome<S>,
) -> Outcome<S>
    decreases items.len(),
{
    if items.len() == 0 {
        Outcome::Done(init)
    } else {
        match run(items.drop_last(), init, step) {
            Outcome::Done(s) => step(s, items.len() - 1, items.last()),
            Outcome::Refused(m) => Outcome::Refused(m),
        }
    }
}

/// The state after all items, where none can be refused.
pub open spec fn gather<S>(items: Seq<Tree>, init: S, step: spec_fn(S, Tree) -> S) -> S
    decreases items.len(),
{
    if items.len() == 0 {
        init
    } else {
        step(gather(items.drop_last(), init, step), items.last())
    }
}

/// One more item is one more step.
pub proof fn lemma_run_step<S>(
    items: Seq<Tree>,
    init: S,
    step: spec_fn(S, int, Tree) -> Outcome<S>,
    i: int,
)
    requires
        0 <= i < items.len(),
    ensures
        run(items.take(i + 1), init, step) == (match run(items.take(i), init, step) {
            Outcome::Done(s) => step(s, i, items[i]),
            Outcome::Refused(m) => Outcome::Refused(m),
        }),
{
    assert(items.take(i + 1).drop_last() =~= items.take(i));
}

/// A refusal stands, whatever follows.
pub proof fn lemma_run_refused<S>(
    items: Seq<Tree>,
    init: S,
    step: spec_fn(S, int, Tree) -> Outcome<S>,
    i: int,
)
    requires
        0 <= i <= items.len(),
        run(items.take(i), init, step) is Refused,
    ensures
        run(items, init, step) == run(items.take(i), init, step),
    decreases items.len() - i,
{
    if i < items.len() {
        lemma_run_step(items, init, step, i);
        lemma_run_refused(items, init, step, i + 1);
    } else {
        assert(items.take(i) =~= items);
    }
}

/// One more item is one more step.
pub proof fn lemma_gather_step<S>(items: Seq<Tree>, init: S, step: spec_fn(S, Tree) -> S, i: int)
    requires
        0 <= i < items.len(),
    ensures
        gather(items.take(i + 1), init, step) == step(gather(items.take(i), init, step), items[i]),
{
    assert(items.take(i + 1).drop_last() =~= items.take(i));
}

} // verus!
