//! General properties of the compute stage, stated and proved once for every
//! transform and every channel state.
//!
//! The contract of [`run`] already pins the node's behaviour down to two
//! sequences: the calls made on the transform,
//! `expected_inputs(pending, terminal)`, and the items forwarded downstream,
//! `emitted_by(response, taken, expected_inputs(pending, terminal))`. The
//! proof functions here state what those sequences look like, so a reader —
//! and a caller's proof — gets each guarantee by name instead of unfolding
//! the definitions.
//!
//! [`run`]: crate::node::GenericComputeNode_1_1::run

use vstd::prelude::*;

use crate::channel::Terminal;
use crate::node::{
    emit_all, emitted_by, expected_inputs, lemma_emit_all_push, lemma_response_outputs_push,
    present_seq, response_outputs, TransformInput,
};

verus! {

/// The transform sees every upstream item, as a `Present` call, in FIFO
/// order: call `k` carries item `k`.
pub proof fn lemma_call_order<T>(items: Seq<T>, t: Terminal)
    ensures
        forall|k: int| 0 <= k < items.len()
            ==> expected_inputs(items, t)[k] == TransformInput::Present(items[k]),
        expected_inputs(items, t).len() == (match t {
            Terminal::Corked => items.len() + 1 as int,
            Terminal::Poisoned => items.len() as int,
        }),
{
}

/// The `End` call happens exactly once, as the very last call, and only when
/// the upstream ends corked; a poisoned upstream never earns one.
pub proof fn lemma_single_end<T>(items: Seq<T>, t: Terminal)
    ensures
        t == Terminal::Corked ==> expected_inputs(items, t).last() == TransformInput::<T>::End,
        t == Terminal::Corked ==> forall|k: int|
            0 <= k < expected_inputs(items, t).len() - 1
                ==> expected_inputs(items, t)[k] != TransformInput::<T>::End,
        t == Terminal::Poisoned ==> forall|k: int|
            0 <= k < expected_inputs(items, t).len()
                ==> expected_inputs(items, t)[k] != TransformInput::<T>::End,
{
}

/// A call whose answer is `None` sends nothing: the node never forwards more
/// items than the transform was called.
pub proof fn lemma_output_count<I, O>(
    g: spec_fn(Seq<TransformInput<I>>, TransformInput<I>) -> Option<O>,
    past: Seq<TransformInput<I>>,
    inputs: Seq<TransformInput<I>>,
)
    ensures
        emitted_by(g, past, inputs).len() <= inputs.len(),
    decreases inputs.len(),
{
    if inputs.len() > 0 {
        lemma_output_count(g, past, inputs.drop_last());
        lemma_emit_all_push(
            response_outputs(g, past, inputs.drop_last()),
            g(past + inputs.drop_last(), inputs.last()),
        );
        assert(response_outputs(g, past, inputs)
            == response_outputs(g, past, inputs.drop_last())
                .push(g(past + inputs.drop_last(), inputs.last())));
    }
}

/// A transform that answers every `Present(x)` with `Some(x)` and the `End`
/// call with `None` makes the node a verbatim pipe: a corked run forwards
/// exactly the upstream items, in order.
pub proof fn lemma_identity_emits_inputs<T>(
    g: spec_fn(Seq<TransformInput<T>>, TransformInput<T>) -> Option<T>,
    past: Seq<TransformInput<T>>,
    items: Seq<T>,
)
    requires
        forall|p: Seq<TransformInput<T>>, x: T| #[trigger] g(p, TransformInput::Present(x)) == Some(x),
        forall|p: Seq<TransformInput<T>>| #[trigger] g(p, TransformInput::End) == None::<T>,
    ensures
        emitted_by(g, past, expected_inputs(items, Terminal::Corked)) == items,
{
    lemma_identity_present(g, past, items);
    lemma_response_outputs_push(g, past, present_seq(items), TransformInput::End);
    lemma_emit_all_push(
        response_outputs(g, past, present_seq(items)),
        g(past + present_seq(items), TransformInput::End),
    );
}

proof fn lemma_identity_present<T>(
    g: spec_fn(Seq<TransformInput<T>>, TransformInput<T>) -> Option<T>,
    past: Seq<TransformInput<T>>,
    items: Seq<T>,
)
    requires
        forall|p: Seq<TransformInput<T>>, x: T| #[trigger] g(p, TransformInput::Present(x)) == Some(x),
    ensures
        emitted_by(g, past, present_seq(items)) == items,
    decreases items.len(),
{
    if items.len() == 0 {
        assert(present_seq(items) =~= Seq::<TransformInput<T>>::empty());
        assert(emitted_by(g, past, present_seq(items)) =~= items);
    } else {
        let dl = items.drop_last();
        lemma_identity_present(g, past, dl);
        assert(present_seq(items) =~= present_seq(dl).push(TransformInput::Present(items.last())));
        lemma_response_outputs_push(g, past, present_seq(dl), TransformInput::Present(items.last()));
        lemma_emit_all_push(
            response_outputs(g, past, present_seq(dl)),
            g(past + present_seq(dl), TransformInput::Present(items.last())),
        );
        assert(emitted_by(g, past, present_seq(items)) =~= dl.push(items.last()));
        assert(dl.push(items.last()) =~= items);
    }
}

/// A node adds no hidden state: two transforms that respond alike, started
/// from the same consumed prefix and bound to channels holding the same
/// items with the same terminal state, forward the same items.
pub proof fn lemma_restart_reproducible<I, O>(
    g1: spec_fn(Seq<TransformInput<I>>, TransformInput<I>) -> Option<O>,
    g2: spec_fn(Seq<TransformInput<I>>, TransformInput<I>) -> Option<O>,
    past: Seq<TransformInput<I>>,
    items: Seq<I>,
    t: Terminal,
)
    requires
        forall|p: Seq<TransformInput<I>>, x: TransformInput<I>| #[trigger] g1(p, x) == g2(p, x),
    ensures
        emitted_by(g1, past, expected_inputs(items, t))
            == emitted_by(g2, past, expected_inputs(items, t)),
{
    lemma_same_responses(g1, g2, past, expected_inputs(items, t));
}

proof fn lemma_same_responses<I, O>(
    g1: spec_fn(Seq<TransformInput<I>>, TransformInput<I>) -> Option<O>,
    g2: spec_fn(Seq<TransformInput<I>>, TransformInput<I>) -> Option<O>,
    past: Seq<TransformInput<I>>,
    inputs: Seq<TransformInput<I>>,
)
    requires
        forall|p: Seq<TransformInput<I>>, x: TransformInput<I>| #[trigger] g1(p, x) == g2(p, x),
    ensures
        response_outputs(g1, past, inputs) == response_outputs(g2, past, inputs),
    decreases inputs.len(),
{
    if inputs.len() > 0 {
        lemma_same_responses(g1, g2, past, inputs.drop_last());
        assert(response_outputs(g1, past, inputs) =~= response_outputs(g2, past, inputs));
    } else {
        assert(response_outputs(g1, past, inputs) =~= response_outputs(g2, past, inputs));
    }
}

} // verus!
