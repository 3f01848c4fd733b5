//! Ready-made transforms.
//!
//! Each one implements [`Transform`] with an exact `response` function, so a
//! node bound to it gets a fully determined output sequence from
//! [`run`]'s contract. They also serve as templates for writing further
//! transforms: record every input in the ghost `taken` field and answer
//! exactly as `response` says.
//!
//! [`Transform`]: crate::node::Transform
//! [`run`]: crate::node::GenericComputeNode_1_1::run

use vstd::prelude::*;

use crate::node::{Transform, TransformInput};

verus! {

/// Forwards every item unchanged and emits nothing for the final `End` call.
pub struct IdentityTransform<T> {
    taken: Ghost<Seq<TransformInput<T>>>,
}

impl<T> IdentityTransform<T> {
    /// A fresh identity transform.
    pub fn new() -> (r: Self)
        ensures
            r.inv(),
            r.taken() == Seq::<TransformInput<T>>::empty(),
    {
        IdentityTransform { taken: Ghost(Seq::empty()) }
    }
}

impl<T> Transform for IdentityTransform<T> {
    type In = T;

    type Out = T;

    open spec fn inv(&self) -> bool {
        true
    }

    closed spec fn taken(&self) -> Seq<TransformInput<T>> {
        self.taken@
    }

    open spec fn response(
        &self,
        past: Seq<TransformInput<T>>,
        input: TransformInput<T>,
    ) -> Option<T> {
        match input {
            TransformInput::Present(t) => Some(t),
            TransformInput::End => None,
        }
    }

    fn apply(&mut self, input: TransformInput<T>) -> (r: Option<T>) {
        self.taken = Ghost(self.taken@.push(input));
        match input {
            TransformInput::Present(t) => Some(t),
            TransformInput::End => None,
        }
    }
}

/// Doubles every item that fits and suppresses the rest; emits nothing for
/// the final `End` call.
pub struct DoublingTransform {
    taken: Ghost<Seq<TransformInput<u64>>>,
}

impl DoublingTransform {
    /// A fresh doubling transform.
    pub fn new() -> (r: Self)
        ensures
            r.inv(),
            r.taken() == Seq::<TransformInput<u64>>::empty(),
    {
        DoublingTransform { taken: Ghost(Seq::empty()) }
    }
}

impl Transform for DoublingTransform {
    type In = u64;

    type Out = u64;

    open spec fn inv(&self) -> bool {
        true
    }

    closed spec fn taken(&self) -> Seq<TransformInput<u64>> {
        self.taken@
    }

    open spec fn response(
        &self,
        past: Seq<TransformInput<u64>>,
        input: TransformInput<u64>,
    ) -> Option<u64> {
        match input {
            TransformInput::Present(n) => if 2 * n <= u64::MAX {
                Some((2 * n) as u64)
            } else {
                None
            },
            TransformInput::End => None,
        }
    }

    fn apply(&mut self, input: TransformInput<u64>) -> (r: Option<u64>) {
        self.taken = Ghost(self.taken@.push(input));
        match input {
            TransformInput::Present(n) => {
                if n <= u64::MAX / 2 {
                    Some(n * 2)
                } else {
                    None
                }
            },
            TransformInput::End => None,
        }
    }
}

/// Forwards even items, suppresses odd ones; emits nothing for the final
/// `End` call.
pub struct EvenFilter {
    taken: Ghost<Seq<TransformInput<u64>>>,
}

impl EvenFilter {
    /// A fresh even-number filter.
    pub fn new() -> (r: Self)
        ensures
            r.inv(),
            r.taken() == Seq::<TransformInput<u64>>::empty(),
    {
        EvenFilter { taken: Ghost(Seq::empty()) }
    }
}

impl Transform for EvenFilter {
    type In = u64;

    type Out = u64;

    open spec fn inv(&self) -> bool {
        true
    }

    closed spec fn taken(&self) -> Seq<TransformInput<u64>> {
        self.taken@
    }

    open spec fn response(
        &self,
        past: Seq<TransformInput<u64>>,
        input: TransformInput<u64>,
    ) -> Option<u64> {
        match input {
            TransformInput::Present(n) => if n % 2 == 0 {
                Some(n)
            } else {
                None
            },
            TransformInput::End => None,
        }
    }

    fn apply(&mut self, input: TransformInput<u64>) -> (r: Option<u64>) {
        self.taken = Ghost(self.taken@.push(input));
        match input {
            TransformInput::Present(n) => {
                if n % 2 == 0 {
                    Some(n)
                } else {
                    None
                }
            },
            TransformInput::End => None,
        }
    }
}

/// `a + b`, clipped to `u64::MAX` on overflow.
pub open spec fn clipped_add(a: int, b: int) -> int {
    if a + b > u64::MAX {
        u64::MAX as int
    } else {
        a + b
    }
}

/// The running total of the `Present` payloads of `inputs`, accumulated with
/// [`clipped_add`].
pub open spec fn clipped_sum(inputs: Seq<TransformInput<u64>>) -> int
    decreases inputs.len(),
{
    if inputs.len() == 0 {
        0
    } else {
        match inputs.last() {
            TransformInput::Present(n) => clipped_add(clipped_sum(inputs.drop_last()), n as int),
            TransformInput::End => clipped_sum(inputs.drop_last()),
        }
    }
}

/// Swallows every item while accumulating a clipped running total, and emits
/// the total once, on the final `End` call.
pub struct SummingTransform {
    total: u64,
    taken: Ghost<Seq<TransformInput<u64>>>,
}

impl SummingTransform {
    /// A fresh summing transform with total zero.
    pub fn new() -> (r: Self)
        ensures
            r.inv(),
            r.taken() == Seq::<TransformInput<u64>>::empty(),
    {
        SummingTransform { total: 0, taken: Ghost(Seq::empty()) }
    }
}

impl Transform for SummingTransform {
    type In = u64;

    type Out = u64;

    closed spec fn inv(&self) -> bool {
        self.total == clipped_sum(self.taken@)
    }

    closed spec fn taken(&self) -> Seq<TransformInput<u64>> {
        self.taken@
    }

    open spec fn response(
        &self,
        past: Seq<TransformInput<u64>>,
        input: TransformInput<u64>,
    ) -> Option<u64> {
        match input {
            TransformInput::Present(n) => None,
            TransformInput::End => Some(clipped_sum(past) as u64),
        }
    }

    fn apply(&mut self, input: TransformInput<u64>) -> (r: Option<u64>) {
        let ghost pre = self.taken@;
        self.taken = Ghost(self.taken@.push(input));
        proof {
            assert(self.taken@.drop_last() =~= pre);
        }
        match input {
            TransformInput::Present(n) => {
                if self.total > u64::MAX - n {
                    self.total = u64::MAX;
                } else {
                    self.total = self.total + n;
                }
                None
            },
            TransformInput::End => Some(self.total),
        }
    }
}

} // verus!
