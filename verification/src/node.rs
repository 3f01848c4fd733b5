//! The compute node: one receiver, one sender, one transform.
//!
//! A transform consumes a stream of [`TransformInput`]s — every upstream item
//! wrapped as `Present`, then exactly one `End` marker once the upstream is
//! corked — and may answer each call with an item to forward or with nothing.
//! [`GenericComputeNode_1_1`] drives that loop; the contract of [`run`]
//! pins down, for every transform and every channel state, exactly which
//! calls the transform receives and exactly which items the sender carries
//! afterwards.
//!
//! [`run`]: GenericComputeNode_1_1::run

use vstd::prelude::*;

use crate::channel::{ChannelReceiver, ChannelSender, RecvOutcome, Terminal};

verus! {

/// One argument handed to a transform: either the next upstream item, or the
/// one-time marker that the upstream is exhausted.
#[derive(Clone, Copy, Debug, PartialEq, Eq, Structural)]
pub enum TransformInput<T> {
    /// The next item received from upstream.
    Present(T),
    /// The upstream channel is corked; this is the final call, made exactly
    /// once, so a stateful transform can flush.
    End,
}

/// A caller-supplied step of a pipeline: a callable from a present-or-end
/// input to an optional output item.
///
/// A transform may carry state, but its answers must be a function of the
/// inputs it has consumed so far: `response(past, input)` names the answer it
/// gives to `input` after having consumed `past`, and `apply` both records
/// the input in `taken()` and returns exactly that answer. `inv()` is the
/// implementation's own well-formedness condition, established by its
/// constructors and preserved by `apply`.
pub trait Transform {
    /// The element type consumed from upstream.
    type In;
    /// The element type forwarded downstream.
    type Out;

    /// The implementation's internal well-formedness condition.
    spec fn inv(&self) -> bool;

    /// Every input this transform has consumed so far, in call order.
    spec fn taken(&self) -> Seq<TransformInput<Self::In>>;

    /// The answer this transform gives to `input` after having consumed
    /// `past`; fixed for the transform's whole life.
    spec fn response(
        &self,
        past: Seq<TransformInput<Self::In>>,
        input: TransformInput<Self::In>,
    ) -> Option<Self::Out>;

    /// Consume one input and answer with an optional output item.
    fn apply(&mut self, input: TransformInput<Self::In>) -> (r: Option<Self::Out>)
        requires
            old(self).inv(),
        ensures
            final(self).inv(),
            final(self).taken() == old(self).taken().push(input),
            r == old(self).response(old(self).taken(), input),
            forall|past: Seq<TransformInput<Self::In>>, input2: TransformInput<Self::In>|
                #[trigger] final(self).response(past, input2)
                    == old(self).response(past, input2),
    ;
}

/// `items`, each wrapped as a `Present` input, in order.
pub open spec fn present_seq<T>(items: Seq<T>) -> Seq<TransformInput<T>> {
    items.map_values(|t: T| TransformInput::Present(t))
}

/// The exact call sequence a node makes on its transform when the upstream
/// still holds `items` and will then report `t`: every item as a `Present`
/// call in FIFO order, followed by one `End` call exactly when the upstream
/// ends corked rather than poisoned.
pub open spec fn expected_inputs<T>(items: Seq<T>, t: Terminal) -> Seq<TransformInput<T>> {
    match t {
        Terminal::Corked => present_seq(items).push(TransformInput::End),
        Terminal::Poisoned => present_seq(items),
    }
}

/// The answers a transform with response function `g` and consumed prefix
/// `past` gives to the calls `inputs`, one per call, in order.
pub open spec fn response_outputs<I, O>(
    g: spec_fn(Seq<TransformInput<I>>, TransformInput<I>) -> Option<O>,
    past: Seq<TransformInput<I>>,
    inputs: Seq<TransformInput<I>>,
) -> Seq<Option<O>>
    decreases inputs.len(),
{
    if inputs.len() == 0 {
        Seq::empty()
    } else {
        response_outputs(g, past, inputs.drop_last())
            .push(g(past + inputs.drop_last(), inputs.last()))
    }
}

/// The items actually emitted for a sequence of per-call answers: the
/// `Some` payloads, in call order; a `None` answer emits nothing.
pub open spec fn emit_all<O>(outs: Seq<Option<O>>) -> Seq<O>
    decreases outs.len(),
{
    if outs.len() == 0 {
        Seq::empty()
    } else {
        match outs.last() {
            Some(o) => emit_all(outs.drop_last()).push(o),
            None => emit_all(outs.drop_last()),
        }
    }
}

/// The items a transform with response function `g` and consumed prefix
/// `past` emits for the calls `inputs`, in order.
pub open spec fn emitted_by<I, O>(
    g: spec_fn(Seq<TransformInput<I>>, TransformInput<I>) -> Option<O>,
    past: Seq<TransformInput<I>>,
    inputs: Seq<TransformInput<I>>,
) -> Seq<O> {
    emit_all(response_outputs(g, past, inputs))
}

/// The response function of a transform value, as a standalone function.
pub open spec fn response_of<F: Transform>(
    f: F,
) -> spec_fn(Seq<TransformInput<F::In>>, TransformInput<F::In>) -> Option<F::Out> {
    |past: Seq<TransformInput<F::In>>, input: TransformInput<F::In>| f.response(past, input)
}

/// Appending one call appends its answer: the per-call answers for
/// `inputs.push(x)` are those for `inputs` followed by `g`'s answer to `x`.
pub proof fn lemma_response_outputs_push<I, O>(
    g: spec_fn(Seq<TransformInput<I>>, TransformInput<I>) -> Option<O>,
    past: Seq<TransformInput<I>>,
    inputs: Seq<TransformInput<I>>,
    x: TransformInput<I>,
)
    ensures
        response_outputs(g, past, inputs.push(x))
            == response_outputs(g, past, inputs).push(g(past + inputs, x)),
{
    assert(inputs.push(x).drop_last() =~= inputs);
    assert(inputs.push(x).last() == x);
}

/// Appending one answer appends its emission: a final `Some` answer appends
/// its payload to the emitted items, a final `None` answer leaves them as
/// they are.
pub proof fn lemma_emit_all_push<O>(outs: Seq<Option<O>>, x: Option<O>)
    ensures
        emit_all(outs.push(x)) == (match x {
            Some(o) => emit_all(outs).push(o),
            None => emit_all(outs),
        }),
{
    assert(outs.push(x).drop_last() =~= outs);
    assert(outs.push(x).last() == x);
}

/// How a node's run ended.
#[derive(Clone, Copy, Debug, PartialEq, Eq, Structural)]
pub enum RunOutcome {
    /// The upstream was corked; the transform got its final `End` call and
    /// the node terminated normally.
    Completed,
    /// The upstream was poisoned; the node stopped without the `End` call
    /// and without any further send. The worker driving the node is expected
    /// to abort.
    Fault,
}

/// A single-input/single-output compute node: one upstream receiver, one
/// downstream sender and one transform, bound once at construction under a
/// human-readable name and then run to completion.
#[allow(non_camel_case_types)]
#[derive(Clone)]
pub struct GenericComputeNode_1_1<R, S, F> {
    f: F,
    rx1: R,
    tx1: S,
    name: String,
}

impl<R, S, F> GenericComputeNode_1_1<R, S, F> {
    /// The node's immutable identity.
    pub closed spec fn spec_name(&self) -> Seq<char> {
        self.name@
    }

    /// The bound upstream receiver.
    pub closed spec fn receiver(&self) -> R {
        self.rx1
    }

    /// The bound downstream sender.
    pub closed spec fn sender(&self) -> S {
        self.tx1
    }

    /// The bound transform.
    pub closed spec fn transform(&self) -> F {
        self.f
    }

    /// The node's name, for logging and debugging; never a control input.
    pub fn name(&self) -> (r: &str)
        ensures
            r@ == self.spec_name(),
    {
        self.name.as_str()
    }

    /// Release the bound name, receiver, sender and transform.
    pub fn into_parts(self) -> (parts: (String, R, S, F))
        ensures
            parts.0@ == self.spec_name(),
            parts.1 == self.receiver(),
            parts.2 == self.sender(),
            parts.3 == self.transform(),
    {
        let GenericComputeNode_1_1 { f, rx1, tx1, name } = self;
        (name, rx1, tx1, f)
    }
}

impl<R, S, F> GenericComputeNode_1_1<R, S, F> where
    R: ChannelReceiver,
    S: ChannelSender,
    F: Transform<In = R::Item, Out = S::Item>,
{
    /// Bind a name, a channel pair and a transform into a node. Construction
    /// only binds state; nothing runs until [`run`](Self::run).
    pub fn new(name: String, rx: R, tx: S, f: F) -> (node: Self)
        ensures
            node.spec_name() == name@,
            node.receiver() == rx,
            node.sender() == tx,
            node.transform() == f,
    {
        GenericComputeNode_1_1 { f, rx1: rx, tx1: tx, name }
    }

    /// Drain the upstream channel through the transform into the downstream
    /// channel.
    ///
    /// The transform is called with `Present(x)` for every upstream item
    /// `x`, in FIFO order, and each `Some` answer is forwarded downstream at
    /// once, in the same order. A corked upstream then earns the transform
    /// exactly one final `End` call — its answer is forwarded the same way —
    /// and the node completes. A poisoned upstream stops the node right
    /// after the last delivered item: no `End` call, no further send, and a
    /// [`RunOutcome::Fault`] that the surrounding worker turns into an
    /// abnormal termination.
    pub fn run(&mut self) -> (r: RunOutcome)
        requires
            old(self).transform().inv(),
        ensures
            final(self).transform().inv(),
            final(self).spec_name() == old(self).spec_name(),
            final(self).receiver().terminal() == old(self).receiver().terminal(),
            final(self).receiver().pending() == Seq::<R::Item>::empty(),
            forall|past: Seq<TransformInput<R::Item>>, input: TransformInput<R::Item>|
                #[trigger] final(self).transform().response(past, input)
                    == old(self).transform().response(past, input),
            final(self).transform().taken() == old(self).transform().taken()
                + expected_inputs(old(self).receiver().pending(), old(self).receiver().terminal()),
            final(self).sender().sent() == old(self).sender().sent()
                + emitted_by(
                    response_of(old(self).transform()),
                    old(self).transform().taken(),
                    expected_inputs(old(self).receiver().pending(), old(self).receiver().terminal()),
                ),
            (r == RunOutcome::Completed) <==> (old(self).receiver().terminal() == Terminal::Corked),
    {
        let ghost t0 = self.rx1.terminal();
        let ghost p0 = self.rx1.pending();
        let ghost k0 = self.f.taken();
        let ghost s0 = self.tx1.sent();
        let ghost g = response_of(self.f);
        let ghost nm0 = self.name@;
        proof {
            assert(p0.take(0) =~= Seq::<R::Item>::empty());
            assert(present_seq(p0.take(0)) =~= Seq::<TransformInput<R::Item>>::empty());
            assert(k0 + present_seq(p0.take(0)) =~= k0);
            assert(p0.skip(0) =~= p0);
            assert(s0 + emit_all(response_outputs(g, k0, present_seq(p0.take(0)))) =~= s0);
        }
        #[verifier::loop_isolation(false)]
        loop
            invariant
                self.f.inv(),
                self.rx1.terminal() == t0,
                k0.len() <= self.f.taken().len(),
                self.f.taken().len() <= k0.len() + p0.len(),
                self.f.taken() == k0 + present_seq(p0.take(self.f.taken().len() - k0.len())),
                self.rx1.pending() == p0.skip(self.f.taken().len() - k0.len()),
                forall|past: Seq<TransformInput<R::Item>>, input: TransformInput<R::Item>|
                    #[trigger] self.f.response(past, input) == g(past, input),
                self.tx1.sent() == s0
                    + emit_all(response_outputs(g, k0, present_seq(p0.take(self.f.taken().len() - k0.len())))),
                self.name@ == nm0,
            decreases self.rx1.pending().len(),
        {
            let ghost d = self.f.taken().len() - k0.len();
            let ghost pre_taken = self.f.taken();
            match self.rx1.recv() {
                RecvOutcome::Item(item) => {
                    proof {
                        assert(p0.skip(d).len() > 0);
                        assert(item == p0.skip(d)[0]);
                        assert(p0.skip(d)[0] == p0[d]);
                        assert(p0.skip(d).drop_first() =~= p0.skip(d + 1));
                    }
                    let out = self.f.apply(TransformInput::Present(item));
                    proof {
                        assert(p0.take(d + 1) =~= p0.take(d).push(p0[d]));
                        assert(present_seq(p0.take(d + 1))
                            =~= present_seq(p0.take(d)).push(TransformInput::Present(p0[d])));
                        assert(self.f.taken()
                            =~= k0 + present_seq(p0.take(d + 1)));
                        lemma_response_outputs_push(
                            g, k0, present_seq(p0.take(d)), TransformInput::Present(p0[d]),
                        );
                        assert(k0 + present_seq(p0.take(d)) == pre_taken);
                        assert(out == g(pre_taken, TransformInput::Present(p0[d])));
                        lemma_emit_all_push(
                            response_outputs(g, k0, present_seq(p0.take(d))),
                            g(pre_taken, TransformInput::Present(p0[d])),
                        );
                    }
                    match out {
                        Some(o) => {
                            self.tx1.send(o);
                            proof {
                                assert(self.tx1.sent()
                                    =~= s0 + emit_all(response_outputs(g, k0, present_seq(p0.take(d + 1)))));
                            }
                        }
                        None => {
                            proof {
                                assert(self.tx1.sent()
                                    =~= s0 + emit_all(response_outputs(g, k0, present_seq(p0.take(d + 1)))));
                            }
                        }
                    }
                }
                RecvOutcome::Corked => {
                    proof {
                        assert(p0.skip(d).len() == 0);
                        assert(d == p0.len());
                        assert(t0 == Terminal::Corked);
                        assert(p0.take(d) =~= p0);
                    }
                    let out = self.f.apply(TransformInput::End);
                    proof {
                        assert(pre_taken == k0 + present_seq(p0));
                        lemma_response_outputs_push(g, k0, present_seq(p0), TransformInput::End);
                        assert(out == g(pre_taken, TransformInput::End));
                        lemma_emit_all_push(
                            response_outputs(g, k0, present_seq(p0)),
                            g(pre_taken, TransformInput::End),
                        );
                    }
                    match out {
                        Some(o) => {
                            self.tx1.send(o);
                        }
                        None => {}
                    }
                    proof {
                        assert(expected_inputs(p0, t0) == present_seq(p0).push(TransformInput::<R::Item>::End));
                        assert(self.f.taken() =~= k0 + expected_inputs(p0, t0));
                        assert(self.tx1.sent() =~= s0 + emitted_by(g, k0, expected_inputs(p0, t0)));
                        assert(self.rx1.pending() =~= Seq::<R::Item>::empty());
                    }
                    return RunOutcome::Completed;
                }
                RecvOutcome::Poisoned => {
                    proof {
                        assert(p0.skip(d).len() == 0);
                        assert(d == p0.len());
                        assert(t0 == Terminal::Poisoned);
                        assert(p0.take(d) =~= p0);
                        assert(expected_inputs(p0, t0) == present_seq(p0));
                        assert(self.f.taken() =~= k0 + expected_inputs(p0, t0));
                        assert(self.tx1.sent() =~= s0 + emitted_by(g, k0, expected_inputs(p0, t0)));
                        assert(self.rx1.pending() =~= Seq::<R::Item>::empty());
                    }
                    return RunOutcome::Fault;
                }
            }
        }
    }
}

} // verus!
