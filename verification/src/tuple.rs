//! Tuples of values that can be pushed: several values from one host function.

use vstd::prelude::*;
use crate::pushable::{single, sole, Pushable};
use crate::stack::{lemma_replay_concat, SpecCall, Stack};
use crate::value::SpecValue;

verus! {

impl<A: Pushable> Pushable for (A,) {
    open spec fn pushable(&self) -> bool {
        self.0.pushable()
    }

    open spec fn values(&self) -> Seq<SpecValue> {
        self.0.values()
    }

    open spec fn calls(&self) -> Seq<SpecCall> {
        self.0.calls()
    }

    /// Pushes the one member, as it pushes itself.
    fn push(self, stack: &mut Stack) -> (n: i32)
        ensures
            single(&self.0) ==> n == 1 && final(stack)@ == old(stack)@ + seq![sole(&self.0)],
    {
        let (a,) = self;
        let pushed = a.push(stack);
        assert(single(&self.0) ==> self.values() =~= seq![sole(&self.0)]);
        pushed
    }

    proof fn lemma_calls_leave_values(&self, below: Seq<SpecValue>) {
        self.0.lemma_calls_leave_values(below);
    }
}

impl<A: Pushable, B: Pushable> Pushable for (A, B) {
    open spec fn pushable(&self) -> bool {
        &&& self.0.pushable()
        &&& self.1.pushable()
        &&& self.values().len() <= i32::MAX
    }

    open spec fn values(&self) -> Seq<SpecValue> {
        self.0.values() + self.1.values()
    }

    open spec fn calls(&self) -> Seq<SpecCall> {
        self.0.calls() + self.1.calls()
    }

    /// Pushes the members from left to right, each as it pushes itself, with no table around
    /// them, and returns how many values that made. Where each member has one value, the
    /// stack gains one slot for each, in the order of the members.
    fn push(self, stack: &mut Stack) -> (n: i32)
        ensures
            single(&self.0) && single(&self.1)
                ==> n == 2 && final(stack)@ == old(stack)@ + seq![
                    sole(&self.0), sole(&self.1),
                ],
    {
        let (a, b) = self;
        let ghost below = stack@;
        let ghost made = stack.journal();
        let pushed = a.push(stack);
        let ghost values = self.0.values();
        let ghost calls = self.0.calls();
        let pushed = pushed + b.push(stack);
        let ghost values = values + self.1.values();
        let ghost calls = calls + self.1.calls();
        assert(stack@ =~= below + values);
        assert(stack.journal() =~= made + calls);
        proof {
            if single(&self.0) && single(&self.1) {
                assert(values =~= seq![sole(&self.0), sole(&self.1)]);
            }
        }
        pushed
    }

    proof fn lemma_calls_leave_values(&self, below: Seq<SpecValue>) {
        self.0.lemma_calls_leave_values(below);
        let values = self.0.values();
        let calls = self.0.calls();
        self.1.lemma_calls_leave_values(below + values);
        lemma_replay_concat(below, calls, self.1.calls());
        assert(below + values + self.1.values() =~= below + (values + self.1.values()));
        let values = values + self.1.values();
        let calls = calls + self.1.calls();
    }
}

impl<A: Pushable, B: Pushable, C: Pushable> Pushable for (A, B, C) {
    open spec fn pushable(&self) -> bool {
        &&& self.0.pushable()
        &&& self.1.pushable()
        &&& self.2.pushable()
        &&& self.values().len() <= i32::MAX
    }

    open spec fn values(&self) -> Seq<SpecValue> {
        self.0.values() + self.1.values() + self.2.values()
    }

    open spec fn calls(&self) -> Seq<SpecCall> {
        self.0.calls() + self.1.calls() + self.2.calls()
    }

    /// Pushes the members from left to right, each as it pushes itself, with no table around
    /// them, and returns how many values that made. Where each member has one value, the
    /// stack gains one slot for each, in the order of the members.
    fn push(self, stack: &mut Stack) -> (n: i32)
        ensures
            single(&self.0) && single(&self.1) && single(&self.2)
                ==> n == 3 && final(stack)@ == old(stack)@ + seq![
                    sole(&self.0), sole(&self.1), sole(&self.2),
                ],
    {
        let (a, b, c) = self;
        let ghost below = stack@;
        let ghost made = stack.journal();
        let pushed = a.push(stack);
        let ghost values = self.0.values();
        let ghost calls = self.0.calls();
        let pushed = pushed + b.push(stack);
        let ghost values = values + self.1.values();
        let ghost calls = calls + self.1.calls();
        assert(stack@ =~= below + values);
        assert(stack.journal() =~= made + calls);
        let pushed = pushed + c.push(stack);
        let ghost values = values + self.2.values();
        let ghost calls = calls + self.2.calls();
        assert(stack@ =~= below + values);
        assert(stack.journal() =~= made + calls);
        proof {
            if single(&self.0) && single(&self.1) && single(&self.2) {
                assert(values =~= seq![sole(&self.0), sole(&self.1), sole(&self.2)]);
            }
        }
        pushed
    }

    proof fn lemma_calls_leave_values(&self, below: Seq<SpecValue>) {
        self.0.lemma_calls_leave_values(below);
        let values = self.0.values();
        let calls = self.0.calls();
        self.1.lemma_calls_leave_values(below + values);
        lemma_replay_concat(below, calls, self.1.calls());
        assert(below + values + self.1.values() =~= below + (values + self.1.values()));
        let values = values + self.1.values();
        let calls = calls + self.1.calls();
        self.2.lemma_calls_leave_values(below + values);
        lemma_replay_concat(below, calls, self.2.calls());
        assert(below + values + self.2.values() =~= below + (values + self.2.values()));
        let values = values + self.2.values();
        let calls = calls + self.2.calls();
    }
}

impl<A: Pushable, B: Pushable, C: Pushable, D: Pushable> Pushable for (A, B, C, D) {
    open spec fn pushable(&self) -> bool {
        &&& self.0.pushable()
        &&& self.1.pushable()
        &&& self.2.pushable()
        &&& self.3.pushable()
        &&& self.values().len() <= i32::MAX
    }

    open spec fn values(&self) -> Seq<SpecValue> {
        self.0.values() + self.1.values() + self.2.values() + self.3.values()
    }

    open spec fn calls(&self) -> Seq<SpecCall> {
        self.0.calls() + self.1.calls() + self.2.calls() + self.3.calls()
    }

    /// Pushes the members from left to right, each as it pushes itself, with no table around
    /// them, and returns how many values that made. Where each member has one value, the
    /// stack gains one slot for each, in the order of the members.
    fn push(self, stack: &mut Stack) -> (n: i32)
        ensures
            single(&self.0) && single(&self.1) && single(&self.2) && single(&self.3)
                ==> n == 4 && final(stack)@ == old(stack)@ + seq![
                    sole(&self.0), sole(&self.1), sole(&self.2), sole(&self.3),
                ],
    {
        let (a, b, c, d) = self;
        let ghost below = stack@;
        let ghost made = stack.journal();
        let pushed = a.push(stack);
        let ghost values = self.0.values();
        let ghost calls = self.0.calls();
        let pushed = pushed + b.push(stack);
        let ghost values = values + self.1.values();
        let ghost calls = calls + self.1.calls();
        assert(stack@ =~= below + values);
        assert(stack.journal() =~= made + calls);
        let pushed = pushed + c.push(stack);
        let ghost values = values + self.2.values();
        let ghost calls = calls + self.2.calls();
        assert(stack@ =~= below + values);
        assert(stack.journal() =~= made + calls);
        let pushed = pushed + d.push(stack);
        let ghost values = values + self.3.values();
        let ghost calls = calls + self.3.calls();
        assert(stack@ =~= below + values);
        assert(stack.journal() =~= made + calls);
        proof {
            if single(&self.0) && single(&self.1) && single(&self.2) && single(&self.3) {
                assert(values =~= seq![sole(&self.0), sole(&self.1), sole(&self.2), sole(&self.3)]);
            }
        }
        pushed
    }

    proof fn lemma_calls_leave_values(&self, below: Seq<SpecValue>) {
        self.0.lemma_calls_leave_values(below);
        let values = self.0.values();
        let calls = self.0.calls();
        self.1.lemma_calls_leave_values(below + values);
        lemma_replay_concat(below, calls, self.1.calls());
        assert(below + values + self.1.values() =~= below + (values + self.1.values()));
        let values = values + self.1.values();
        let calls = calls + self.1.calls();
        self.2.lemma_calls_leave_values(below + values);
        lemma_replay_concat(below, calls, self.2.calls());
        assert(below + values + self.2.values() =~= below + (values + self.2.values()));
        let values = values + self.2.values();
        let calls = calls + self.2.calls();
        self.3.lemma_calls_leave_values(below + values);
        lemma_replay_concat(below, calls, self.3.calls());
        assert(below + values + self.3.values() =~= below + (values + self.3.values()));
        let values = values + self.3.values();
        let calls = calls + self.3.calls();
    }
}

impl<
    A: Pushable,
    B: Pushable,
    C: Pushable,
    D: Pushable,
    E: Pushable,
> Pushable for (A, B, C, D, E) {
    open spec fn pushable(&self) -> bool {
        &&& self.0.pushable()
        &&& self.1.pushable()
        &&& self.2.pushable()
        &&& self.3.pushable()
        &&& self.4.pushable()
        &&& self.values().len() <= i32::MAX
    }

    open spec fn values(&self) -> Seq<SpecValue> {
        self.0.values() + self.1.values() + self.2.values() + self.3.values() + self.4.values()
    }

    open spec fn calls(&self) -> Seq<SpecCall> {
        self.0.calls() + self.1.calls() + self.2.calls() + self.3.calls() + self.4.calls()
    }

    /// Pushes the members from left to right, each as it pushes itself, with no table around
    /// them, and returns how many values that made. Where each member has one value, the
    /// stack gains one slot for each, in the order of the members.
    fn push(self, stack: &mut Stack) -> (n: i32)
        ensures
            single(&self.0) && single(&self.1) && single(&self.2) && single(&self.3)
                && single(&self.4)
                ==> n == 5 && final(stack)@ == old(stack)@ + seq![
                    sole(&self.0), sole(&self.1), sole(&self.2), sole(&self.3), sole(&self.4),
                ],
    {
        let (a, b, c, d, e) = self;
        let ghost below = stack@;
        let ghost made = stack.journal();
        let pushed = a.push(stack);
        let ghost values = self.0.values();
        let ghost calls = self.0.calls();
        let pushed = pushed + b.push(stack);
        let ghost values = values + self.1.values();
        let ghost calls = calls + self.1.calls();
        assert(stack@ =~= below + values);
        assert(stack.journal() =~= made + calls);
        let pushed = pushed + c.push(stack);
        let ghost values = values + self.2.values();
        let ghost calls = calls + self.2.calls();
        assert(stack@ =~= below + values);
        assert(stack.journal() =~= made + calls);
        let pushed = pushed + d.push(stack);
        let ghost values = values + self.3.values();
        let ghost calls = calls + self.3.calls();
        assert(stack@ =~= below + values);
        assert(stack.journal() =~= made + calls);
        let pushed = pushed + e.push(stack);
        let ghost values = values + self.4.values();
        let ghost calls = calls + self.4.calls();
        assert(stack@ =~= below + values);
        assert(stack.journal() =~= made + calls);
        proof {
            if single(&self.0) && single(&self.1) && single(&self.2) && single(&self.3)
                && single(&self.4) {
                assert(values =~= seq![
                    sole(&self.0), sole(&self.1), sole(&self.2), sole(&self.3), sole(&self.4),
                ]);
            }
        }
        pushed
    }

    proof fn lemma_calls_leave_values(&self, below: Seq<SpecValue>) {
        self.0.lemma_calls_leave_values(below);
        let values = self.0.values();
        let calls = self.0.calls();
        self.1.lemma_calls_leave_values(below + values);
        lemma_replay_concat(below, calls, self.1.calls());
        assert(below + values + self.1.values() =~= below + (values + self.1.values()));
        let values = values + self.1.values();
        let calls = calls + self.1.calls();
        self.2.lemma_calls_leave_values(below + values);
        lemma_replay_concat(below, calls, self.2.calls());
        assert(below + values + self.2.values() =~= below + (values + self.2.values()));
        let values = values + self.2.values();
        let calls = calls + self.2.calls();
        self.3.lemma_calls_leave_values(below + values);
        lemma_replay_concat(below, calls, self.3.calls());
        assert(below + values + self.3.values() =~= below + (values + self.3.values()));
        let values = values + self.3.values();
        let calls = calls + self.3.calls();
        self.4.lemma_calls_leave_values(below + values);
        lemma_replay_concat(below, calls, self.4.calls());
        assert(below + values + self.4.values() =~= below + (values + self.4.values()));
        let values = values + self.4.values();
        let calls = calls + self.4.calls();
    }
}

impl<
    A: Pushable,
    B: Pushable,
    C: Pushable,
    D: Pushable,
    E: Pushable,
    F: Pushable,
> Pushable for (A, B, C, D, E, F) {
    open spec fn pushable(&self) -> bool {
        &&& self.0.pushable()
        &&& self.1.pushable()
        &&& self.2.pushable()
        &&& self.3.pushable()
        &&& self.4.pushable()
        &&& self.5.pushable()
        &&& self.values().len() <= i32::MAX
    }

    open spec fn values(&self) -> Seq<SpecValue> {
        self.0.values() + self.1.values() + self.2.values() + self.3.values() + self.4.values()
            + self.5.values()
    }

    open spec fn calls(&self) -> Seq<SpecCall> {
        self.0.calls() + self.1.calls() + self.2.calls() + self.3.calls() + self.4.calls()
            + self.5.calls()
    }

    /// Pushes the members from left to right, each as it pushes itself, with no table around
    /// them, and returns how many values that made. Where each member has one value, the
    /// stack gains one slot for each, in the order of the members.
    fn push(self, stack: &mut Stack) -> (n: i32)
        ensures
            single(&self.0) && single(&self.1) && single(&self.2) && single(&self.3)
                && single(&self.4) && single(&self.5)
                ==> n == 6 && final(stack)@ == old(stack)@ + seq![
                    sole(&self.0), sole(&self.1), sole(&self.2), sole(&self.3), sole(&self.4),
                    sole(&self.5),
                ],
    {
        let (a, b, c, d, e, f) = self;
        let ghost below = stack@;
        let ghost made = stack.journal();
        let pushed = a.push(stack);
        let ghost values = self.0.values();
        let ghost calls = self.0.calls();
        let pushed = pushed + b.push(stack);
        let ghost values = values + self.1.values();
        let ghost calls = calls + self.1.calls();
        assert(stack@ =~= below + values);
        assert(stack.journal() =~= made + calls);
        let pushed = pushed + c.push(stack);
        let ghost values = values + self.2.values();
        let ghost calls = calls + self.2.calls();
        assert(stack@ =~= below + values);
        assert(stack.journal() =~= made + calls);
        let pushed = pushed + d.push(stack);
        let ghost values = values + self.3.values();
        let ghost calls = calls + self.3.calls();
        assert(stack@ =~= below + values);
        assert(stack.journal() =~= made + calls);
        let pushed = pushed + e.push(stack);
        let ghost values = values + self.4.values();
        let ghost calls = calls + self.4.calls();
        assert(stack@ =~= below + values);
        assert(stack.journal() =~= made + calls);
        let pushed = pushed + f.push(stack);
        let ghost values = values + self.5.values();
        let ghost calls = calls + self.5.calls();
        assert(stack@ =~= below + values);
        assert(stack.journal() =~= made + calls);
        proof {
            if single(&self.0) && single(&self.1) && single(&self.2) && single(&self.3)
                && single(&self.4) && single(&self.5) {
                assert(values =~= seq![
                    sole(&self.0), sole(&self.1), sole(&self.2), sole(&self.3), sole(&self.4),
                    sole(&self.5),
                ]);
            }
        }
        pushed
    }

    proof fn lemma_calls_leave_values(&self, below: Seq<SpecValue>) {
        self.0.lemma_calls_leave_values(below);
        let values = self.0.values();
        let calls = self.0.calls();
        self.1.lemma_calls_leave_values(below + values);
        lemma_replay_concat(below, calls, self.1.calls());
        assert(below + values + self.1.values() =~= below + (values + self.1.values()));
        let values = values + self.1.values();
        let calls = calls + self.1.calls();
        self.2.lemma_calls_leave_values(below + values);
        lemma_replay_concat(below, calls, self.2.calls());
        assert(below + values + self.2.values() =~= below + (values + self.2.values()));
        let values = values + self.2.values();
        let calls = calls + self.2.calls();
        self.3.lemma_calls_leave_values(below + values);
        lemma_replay_concat(below, calls, self.3.calls());
        assert(below + values + self.3.values() =~= below + (values + self.3.values()));
        let values = values + self.3.values();
        let calls = calls + self.3.calls();
        self.4.lemma_calls_leave_values(below + values);
        lemma_replay_concat(below, calls, self.4.calls());
        assert(below + values + self.4.values() =~= below + (values + self.4.values()));
        let values = values + self.4.values();
        let calls = calls + self.4.calls();
        self.5.lemma_calls_leave_values(below + values);
        lemma_replay_concat(below, calls, self.5.calls());
        assert(below + values + self.5.values() =~= below + (values + self.5.values()));
        let values = values + self.5.values();
        let calls = calls + self.5.calls();
    }
}

impl<
    A: Pushable,
    B: Pushable,
    C: Pushable,
    D: Pushable,
    E: Pushable,
    F: Pushable,
    G: Pushable,
> Pushable for (A, B, C, D, E, F, G) {
    open spec fn pushable(&self) -> bool {
        &&& self.0.pushable()
        &&& self.1.pushable()
        &&& self.2.pushable()
        &&& self.3.pushable()
        &&& self.4.pushable()
        &&& self.5.pushable()
        &&& self.6.pushable()
        &&& self.values().len() <= i32::MAX
    }

    open spec fn values(&self) -> Seq<SpecValue> {
        self.0.values() + self.1.values() + self.2.values() + self.3.values() + self.4.values()
            + self.5.values() + self.6.values()
    }

    open spec fn calls(&self) -> Seq<SpecCall> {
        self.0.calls() + self.1.calls() + self.2.calls() + self.3.calls() + self.4.calls()
            + self.5.calls() + self.6.calls()
    }

    /// Pushes the members from left to right, each as it pushes itself, with no table around
    /// them, and returns how many values that made. Where each member has one value, the
    /// stack gains one slot for each, in the order of the members.
    fn push(self, stack: &mut Stack) -> (n: i32)
        ensures
            single(&self.0) && single(&self.1) && single(&self.2) && single(&self.3)
                && single(&self.4) && single(&self.5) && single(&self.6)
                ==> n == 7 && final(stack)@ == old(stack)@ + seq![
                    sole(&self.0), sole(&self.1), sole(&self.2), sole(&self.3), sole(&self.4),
                    sole(&self.5), sole(&self.6),
                ],
    {
        let (a, b, c, d, e, f, g) = self;
        let ghost below = stack@;
        let ghost made = stack.journal();
        let pushed = a.push(stack);
        let ghost values = self.0.values();
        let ghost calls = self.0.calls();
        let pushed = pushed + b.push(stack);
        let ghost values = values + self.1.values();
        let ghost calls = calls + self.1.calls();
        assert(stack@ =~= below + values);
        assert(stack.journal() =~= made + calls);
        let pushed = pushed + c.push(stack);
        let ghost values = values + self.2.values();
        let ghost calls = calls + self.2.calls();
        assert(stack@ =~= below + values);
        assert(stack.journal() =~= made + calls);
        let pushed = pushed + d.push(stack);
        let ghost values = values + self.3.values();
        let ghost calls = calls + self.3.calls();
        assert(stack@ =~= below + values);
        assert(stack.journal() =~= made + calls);
        let pushed = pushed + e.push(stack);
        let ghost values = values + self.4.values();
        let ghost calls = calls + self.4.calls();
        assert(stack@ =~= below + values);
        assert(stack.journal() =~= made + calls);
        let pushed = pushed + f.push(stack);
        let ghost values = values + self.5.values();
        let ghost calls = calls + self.5.calls();
        assert(stack@ =~= below + values);
        assert(stack.journal() =~= made + calls);
        let pushed = pushed + g.push(stack);
        let ghost values = values + self.6.values();
        let ghost calls = calls + self.6.calls();
        assert(stack@ =~= below + values);
        assert(stack.journal() =~= made + calls);
        proof {
            if single(&self.0) && single(&self.1) && single(&self.2) && single(&self.3)
                && single(&self.4) && single(&self.5) && single(&self.6) {
                assert(values =~= seq![
                    sole(&self.0), sole(&self.1), sole(&self.2), sole(&self.3), sole(&self.4),
                    sole(&self.5), sole(&self.6),
                ]);
            }
        }
        pushed
    }

    proof fn lemma_calls_leave_values(&self, below: Seq<SpecValue>) {
        self.0.lemma_calls_leave_values(below);
        let values = self.0.values();
        let calls = self.0.calls();
        self.1.lemma_calls_leave_values(below + values);
        lemma_replay_concat(below, calls, self.1.calls());
        assert(below + values + self.1.values() =~= below + (values + self.1.values()));
        let values = values + self.1.values();
        let calls = calls + self.1.calls();
        self.2.lemma_calls_leave_values(below + values);
        lemma_replay_concat(below, calls, self.2.calls());
        assert(below + values + self.2.values() =~= below + (values + self.2.values()));
        let values = values + self.2.values();
        let calls = calls + self.2.calls();
        self.3.lemma_calls_leave_values(below + values);
        lemma_replay_concat(below, calls, self.3.calls());
        assert(below + values + self.3.values() =~= below + (values + self.3.values()));
        let values = values + self.3.values();
        let calls = calls + self.3.calls();
        self.4.lemma_calls_leave_values(below + values);
        lemma_replay_concat(below, calls, self.4.calls());
        assert(below + values + self.4.values() =~= below + (values + self.4.values()));
        let values = values + self.4.values();
        let calls = calls + self.4.calls();
        self.5.lemma_calls_leave_values(below + values);
        lemma_replay_concat(below, calls, self.5.calls());
        assert(below + values + self.5.values() =~= below + (values + self.5.values()));
        let values = values + self.5.values();
        let calls = calls + self.5.calls();
        self.6.lemma_calls_leave_values(below + values);
        lemma_replay_concat(below, calls, self.6.calls());
        assert(below + values + self.6.values() =~= below + (values + self.6.values()));
        let values = values + self.6.values();
        let calls = calls + self.6.calls();
    }
}

impl<
    A: Pushable,
    B: Pushable,
    C: Pushable,
    D: Pushable,
    E: Pushable,
    F: Pushable,
    G: Pushable,
    H: Pushable,
> Pushable for (A, B, C, D, E, F, G, H) {
    open spec fn pushable(&self) -> bool {
        &&& self.0.pushable()
        &&& self.1.pushable()
        &&& self.2.pushable()
        &&& self.3.pushable()
        &&& self.4.pushable()
        &&& self.5.pushable()
        &&& self.6.pushable()
        &&& self.7.pushable()
        &&& self.values().len() <= i32::MAX
    }

    open spec fn values(&self) -> Seq<SpecValue> {
        self.0.values() + self.1.values() + self.2.values() + self.3.values() + self.4.values()
            + self.5.values() + self.6.values() + self.7.values()
    }

    open spec fn calls(&self) -> Seq<SpecCall> {
        self.0.calls() + self.1.calls() + self.2.calls() + self.3.calls() + self.4.calls()
            + self.5.calls() + self.6.calls() + self.7.calls()
    }

    /// Pushes the members from left to right, each as it pushes itself, with no table around
    /// them, and returns how many values that made. Where each member has one value, the
    /// stack gains one slot for each, in the order of the members.
    fn push(self, stack: &mut Stack) -> (n: i32)
        ensures
            single(&self.0) && single(&self.1) && single(&self.2) && single(&self.3)
                && single(&self.4) && single(&self.5) && single(&self.6) && single(&self.7)
                ==> n == 8 && final(stack)@ == old(stack)@ + seq![
                    sole(&self.0), sole(&self.1), sole(&self.2), sole(&self.3), sole(&self.4),
                    sole(&self.5), sole(&self.6), sole(&self.7),
                ],
    {
        let (a, b, c, d, e, f, g, h) = self;
        let ghost below = stack@;
        let ghost made = stack.journal();
        let pushed = a.push(stack);
        let ghost values = self.0.values();
        let ghost calls = self.0.calls();
        let pushed = pushed + b.push(stack);
        let ghost values = values + self.1.values();
        let ghost calls = calls + self.1.calls();
        assert(stack@ =~= below + values);
        assert(stack.journal() =~= made + calls);
        let pushed = pushed + c.push(stack);
        let ghost values = values + self.2.values();
        let ghost calls = calls + self.2.calls();
        assert(stack@ =~= below + values);
        assert(stack.journal() =~= made + calls);
        let pushed = pushed + d.push(stack);
        let ghost values = values + self.3.values();
        let ghost calls = calls + self.3.calls();
        assert(stack@ =~= below + values);
        assert(stack.journal() =~= made + calls);
        let pushed = pushed + e.push(stack);
        let ghost values = values + self.4.values();
        let ghost calls = calls + self.4.calls();
        assert(stack@ =~= below + values);
        assert(stack.journal() =~= made + calls);
        let pushed = pushed + f.push(stack);
        let ghost values = values + self.5.values();
        let ghost calls = calls + self.5.calls();
        assert(stack@ =~= below + values);
        assert(stack.journal() =~= made + calls);
        let pushed = pushed + g.push(stack);
        let ghost values = values + self.6.values();
        let ghost calls = calls + self.6.calls();
        assert(stack@ =~= below + values);
        assert(stack.journal() =~= made + calls);
        let pushed = pushed + h.push(stack);
        let ghost values = values + self.7.values();
        let ghost calls = calls + self.7.calls();
        assert(stack@ =~= below + values);
        assert(stack.journal() =~= made + calls);
        proof {
            if single(&self.0) && single(&self.1) && single(&self.2) && single(&self.3)
                && single(&self.4) && single(&self.5) && single(&self.6) && single(&self.7) {
                assert(values =~= seq![
                    sole(&self.0), sole(&self.1), sole(&self.2), sole(&self.3), sole(&self.4),
                    sole(&self.5), sole(&self.6), sole(&self.7),
                ]);
            }
        }
        pushed
    }

    proof fn lemma_calls_leave_values(&self, below: Seq<SpecValue>) {
        self.0.lemma_calls_leave_values(below);
        let values = self.0.values();
        let calls = self.0.calls();
        self.1.lemma_calls_leave_values(below + values);
        lemma_replay_concat(below, calls, self.1.calls());
        assert(below + values + self.1.values() =~= below + (values + self.1.values()));
        let values = values + self.1.values();
        let calls = calls + self.1.calls();
        self.2.lemma_calls_leave_values(below + values);
        lemma_replay_concat(below, calls, self.2.calls());
        assert(below + values + self.2.values() =~= below + (values + self.2.values()));
        let values = values + self.2.values();
        let calls = calls + self.2.calls();
        self.3.lemma_calls_leave_values(below + values);
        lemma_replay_concat(below, calls, self.3.calls());
        assert(below + values + self.3.values() =~= below + (values + self.3.values()));
        let values = values + self.3.values();
        let calls = calls + self.3.calls();
        self.4.lemma_calls_leave_values(below + values);
        lemma_replay_concat(below, calls, self.4.calls());
        assert(below + values + self.4.values() =~= below + (values + self.4.values()));
        let values = values + self.4.values();
        let calls = calls + self.4.calls();
        self.5.lemma_calls_leave_values(below + values);
        lemma_replay_concat(below, calls, self.5.calls());
        assert(below + values + self.5.values() =~= below + (values + self.5.values()));
        let values = values + self.5.values();
        let calls = calls + self.5.calls();
        self.6.lemma_calls_leave_values(below + values);
        lemma_replay_concat(below, calls, self.6.calls());
        assert(below + values + self.6.values() =~= below + (values + self.6.values()));
        let values = values + self.6.values();
        let calls = calls + self.6.calls();
        self.7.lemma_calls_leave_values(below + values);
        lemma_replay_concat(below, calls, self.7.calls());
        assert(below + values + self.7.values() =~= below + (values + self.7.values()));
        let values = values + self.7.values();
        let calls = calls + self.7.calls();
    }
}

impl<
    A: Pushable,
    B: Pushable,
    C: Pushable,
    D: Pushable,
    E: Pushable,
    F: Pushable,
    G: Pushable,
    H: Pushable,
    I: Pushable,
> Pushable for (A, B, C, D, E, F, G, H, I) {
    open spec fn pushable(&self) -> bool {
        &&& self.0.pushable()
        &&& self.1.pushable()
        &&& self.2.pushable()
        &&& self.3.pushable()
        &&& self.4.pushable()
        &&& self.5.pushable()
        &&& self.6.pushable()
        &&& self.7.pushable()
        &&& self.8.pushable()
        &&& self.values().len() <= i32::MAX
    }

    open spec fn values(&self) -> Seq<SpecValue> {
        self.0.values() + self.1.values() + self.2.values() + self.3.values() + self.4.values()
            + self.5.values() + self.6.values() + self.7.values() + self.8.values()
    }

    open spec fn calls(&self) -> Seq<SpecCall> {
        self.0.calls() + self.1.calls() + self.2.calls() + self.3.calls() + self.4.calls()
            + self.5.calls() + self.6.calls() + self.7.calls() + self.8.calls()
    }

    /// Pushes the members from left to right, each as it pushes itself, with no table around
    /// them, and returns how many values that made. Where each member has one value, the
    /// stack gains one slot for each, in the order of the members.
    fn push(self, stack: &mut Stack) -> (n: i32)
        ensures
            single(&self.0) && single(&self.1) && single(&self.2) && single(&self.3)
                && single(&self.4) && single(&self.5) && single(&self.6) && single(&self.7)
                && single(&self.8)
                ==> n == 9 && final(stack)@ == old(stack)@ + seq![
                    sole(&self.0), sole(&self.1), sole(&self.2), sole(&self.3), sole(&self.4),
                    sole(&self.5), sole(&self.6), sole(&self.7), sole(&self.8),
                ],
    {
        let (a, b, c, d, e, f, g, h, i) = self;
        let ghost below = stack@;
        let ghost made = stack.journal();
        let pushed = a.push(stack);
        let ghost values = self.0.values();
        let ghost calls = self.0.calls();
        let pushed = pushed + b.push(stack);
        let ghost values = values + self.1.values();
        let ghost calls = calls + self.1.calls();
        assert(stack@ =~= below + values);
        assert(stack.journal() =~= made + calls);
        let pushed = pushed + c.push(stack);
        let ghost values = values + self.2.values();
        let ghost calls = calls + self.2.calls();
        assert(stack@ =~= below + values);
        assert(stack.journal() =~= made + calls);
        let pushed = pushed + d.push(stack);
        let ghost values = values + self.3.values();
        let ghost calls = calls + self.3.calls();
        assert(stack@ =~= below + values);
        assert(stack.journal() =~= made + calls);
        let pushed = pushed + e.push(stack);
        let ghost values = values + self.4.values();
        let ghost calls = calls + self.4.calls();
        assert(stack@ =~= below + values);
        assert(stack.journal() =~= made + calls);
        let pushed = pushed + f.push(stack);
        let ghost values = values + self.5.values();
        let ghost calls = calls + self.5.calls();
        assert(stack@ =~= below + values);
        assert(stack.journal() =~= made + calls);
        let pushed = pushed + g.push(stack);
        let ghost values = values + self.6.values();
        let ghost calls = calls + self.6.calls();
        assert(stack@ =~= below + values);
        assert(stack.journal() =~= made + calls);
        let pushed = pushed + h.push(stack);
        let ghost values = values + self.7.values();
        let ghost calls = calls + self.7.calls();
        assert(stack@ =~= below + values);
        assert(stack.journal() =~= made + calls);
        let pushed = pushed + i.push(stack);
        let ghost values = values + self.8.values();
        let ghost calls = calls + self.8.calls();
        assert(stack@ =~= below + values);
        assert(stack.journal() =~= made + calls);
        proof {
            if single(&self.0) && single(&self.1) && single(&self.2) && single(&self.3)
                && single(&self.4) && single(&self.5) && single(&self.6) && single(&self.7)
                && single(&self.8) {
                assert(values =~= seq![
                    sole(&self.0), sole(&self.1), sole(&self.2), sole(&self.3), sole(&self.4),
                    sole(&self.5), sole(&self.6), sole(&self.7), sole(&self.8),
                ]);
            }
        }
        pushed
    }

    proof fn lemma_calls_leave_values(&self, below: Seq<SpecValue>) {
        self.0.lemma_calls_leave_values(below);
        let values = self.0.values();
        let calls = self.0.calls();
        self.1.lemma_calls_leave_values(below + values);
        lemma_replay_concat(below, calls, self.1.calls());
        assert(below + values + self.1.values() =~= below + (values + self.1.values()));
        let values = values + self.1.values();
        let calls = calls + self.1.calls();
        self.2.lemma_calls_leave_values(below + values);
        lemma_replay_concat(below, calls, self.2.calls());
        assert(below + values + self.2.values() =~= below + (values + self.2.values()));
        let values = values + self.2.values();
        let calls = calls + self.2.calls();
        self.3.lemma_calls_leave_values(below + values);
        lemma_replay_concat(below, calls, self.3.calls());
        assert(below + values + self.3.values() =~= below + (values + self.3.values()));
        let values = values + self.3.values();
        let calls = calls + self.3.calls();
        self.4.lemma_calls_leave_values(below + values);
        lemma_replay_concat(below, calls, self.4.calls());
        assert(below + values + self.4.values() =~= below + (values + self.4.values()));
        let values = values + self.4.values();
        let calls = calls + self.4.calls();
        self.5.lemma_calls_leave_values(below + values);
        lemma_replay_concat(below, calls, self.5.calls());
        assert(below + values + self.5.values() =~= below + (values + self.5.values()));
        let values = values + self.5.values();
        let calls = calls + self.5.calls();
        self.6.lemma_calls_leave_values(below + values);
        lemma_replay_concat(below, calls, self.6.calls());
        assert(below + values + self.6.values() =~= below + (values + self.6.values()));
        let values = values + self.6.values();
        let calls = calls + self.6.calls();
        self.7.lemma_calls_leave_values(below + values);
        lemma_replay_concat(below, calls, self.7.calls());
        assert(below + values + self.7.values() =~= below + (values + self.7.values()));
        let values = values + self.7.values();
        let calls = calls + self.7.calls();
        self.8.lemma_calls_leave_values(below + values);
        lemma_replay_concat(below, calls, self.8.calls());
        assert(below + values + self.8.values() =~= below + (values + self.8.values()));
        let values = values + self.8.values();
        let calls = calls + self.8.calls();
    }
}

impl<
    A: Pushable,
    B: Pushable,
    C: Pushable,
    D: Pushable,
    E: Pushable,
    F: Pushable,
    G: Pushable,
    H: Pushable,
    I: Pushable,
    J: Pushable,
> Pushable for (A, B, C, D, E, F, G, H, I, J) {
    open spec fn pushable(&self) -> bool {
        &&& self.0.pushable()
        &&& self.1.pushable()
        &&& self.2.pushable()
        &&& self.3.pushable()
        &&& self.4.pushable()
        &&& self.5.pushable()
        &&& self.6.pushable()
        &&& self.7.pushable()
        &&& self.8.pushable()
        &&& self.9.pushable()
        &&& self.values().len() <= i32::MAX
    }

    open spec fn values(&self) -> Seq<SpecValue> {
        self.0.values() + self.1.values() + self.2.values() + self.3.values() + self.4.values()
            + self.5.values() + self.6.values() + self.7.values() + self.8.values()
            + self.9.values()
    }

    open spec fn calls(&self) -> Seq<SpecCall> {
        self.0.calls() + self.1.calls() + self.2.calls() + self.3.calls() + self.4.calls()
            + self.5.calls() + self.6.calls() + self.7.calls() + self.8.calls() + self.9.calls()
    }

    /// Pushes the members from left to right, each as it pushes itself, with no table around
    /// them, and returns how many values that made. Where each member has one value, the
    /// stack gains one slot for each, in the order of the members.
    fn push(self, stack: &mut Stack) -> (n: i32)
        ensures
            single(&self.0) && single(&self.1) && single(&self.2) && single(&self.3)
                && single(&self.4) && single(&self.5) && single(&self.6) && single(&self.7)
                && single(&self.8) && single(&self.9)
                ==> n == 10 && final(stack)@ == old(stack)@ + seq![
                    sole(&self.0), sole(&self.1), sole(&self.2), sole(&self.3), sole(&self.4),
                    sole(&self.5), sole(&self.6), sole(&self.7), sole(&self.8), sole(&self.9),
                ],
    {
        let (a, b, c, d, e, f, g, h, i, j) = self;
        let ghost below = stack@;
        let ghost made = stack.journal();
        let pushed = a.push(stack);
        let ghost values = self.0.values();
        let ghost calls = self.0.calls();
        let pushed = pushed + b.push(stack);
        let ghost values = values + self.1.values();
        let ghost calls = calls + self.1.calls();
        assert(stack@ =~= below + values);
        assert(stack.journal() =~= made + calls);
        let pushed = pushed + c.push(stack);
        let ghost values = values + self.2.values();
        let ghost calls = calls + self.2.calls();
        assert(stack@ =~= below + values);
        assert(stack.journal() =~= made + calls);
        let pushed = pushed + d.push(stack);
        let ghost values = values + self.3.values();
        let ghost calls = calls + self.3.calls();
        assert(stack@ =~= below + values);
        assert(stack.journal() =~= made + calls);
        let pushed = pushed + e.push(stack);
        let ghost values = values + self.4.values();
        let ghost calls = calls + self.4.calls();
        assert(stack@ =~= below + values);
        assert(stack.journal() =~= made + calls);
        let pushed = pushed + f.push(stack);
        let ghost values = values + self.5.values();
        let ghost calls = calls + self.5.calls();
        assert(stack@ =~= below + values);
        assert(stack.journal() =~= made + calls);
        let pushed = pushed + g.push(stack);
        let ghost values = values + self.6.values();
        let ghost calls = calls + self.6.calls();
        assert(stack@ =~= below + values);
        assert(stack.journal() =~= made + calls);
        let pushed = pushed + h.push(stack);
        let ghost values = values + self.7.values();
        let ghost calls = calls + self.7.calls();
        assert(stack@ =~= below + values);
        assert(stack.journal() =~= made + calls);
        let pushed = pushed + i.push(stack);
        let ghost values = values + self.8.values();
        let ghost calls = calls + self.8.calls();
        assert(stack@ =~= below + values);
        assert(stack.journal() =~= made + calls);
        let pushed = pushed + j.push(stack);
        let ghost values = values + self.9.values();
        let ghost calls = calls + self.9.calls();
        assert(stack@ =~= below + values);
        assert(stack.journal() =~= made + calls);
        proof {
            if single(&self.0) && single(&self.1) && single(&self.2) && single(&self.3)
                && single(&self.4) && single(&self.5) && single(&self.6) && single(&self.7)
                && single(&self.8) && single(&self.9) {
                assert(values =~= seq![
                    sole(&self.0), sole(&self.1), sole(&self.2), sole(&self.3), sole(&self.4),
                    sole(&self.5), sole(&self.6), sole(&self.7), sole(&self.8), sole(&self.9),
                ]);
            }
        }
        pushed
    }

    proof fn lemma_calls_leave_values(&self, below: Seq<SpecValue>) {
        self.0.lemma_calls_leave_values(below);
        let values = self.0.values();
        let calls = self.0.calls();
        self.1.lemma_calls_leave_values(below + values);
        lemma_replay_concat(below, calls, self.1.calls());
        assert(below + values + self.1.values() =~= below + (values + self.1.values()));
        let values = values + self.1.values();
        let calls = calls + self.1.calls();
        self.2.lemma_calls_leave_values(below + values);
        lemma_replay_concat(below, calls, self.2.calls());
        assert(below + values + self.2.values() =~= below + (values + self.2.values()));
        let values = values + self.2.values();
        let calls = calls + self.2.calls();
        self.3.lemma_calls_leave_values(below + values);
        lemma_replay_concat(below, calls, self.3.calls());
        assert(below + values + self.3.values() =~= below + (values + self.3.values()));
        let values = values + self.3.values();
        let calls = calls + self.3.calls();
        self.4.lemma_calls_leave_values(below + values);
        lemma_replay_concat(below, calls, self.4.calls());
        assert(below + values + self.4.values() =~= below + (values + self.4.values()));
        let values = values + self.4.values();
        let calls = calls + self.4.calls();
        self.5.lemma_calls_leave_values(below + values);
        lemma_replay_concat(below, calls, self.5.calls());
        assert(below + values + self.5.values() =~= below + (values + self.5.values()));
        let values = values + self.5.values();
        let calls = calls + self.5.calls();
        self.6.lemma_calls_leave_values(below + values);
        lemma_replay_concat(below, calls, self.6.calls());
        assert(below + values + self.6.values() =~= below + (values + self.6.values()));
        let values = values + self.6.values();
        let calls = calls + self.6.calls();
        self.7.lemma_calls_leave_values(below + values);
        lemma_replay_concat(below, calls, self.7.calls());
        assert(below + values + self.7.values() =~= below + (values + self.7.values()));
        let values = values + self.7.values();
        let calls = calls + self.7.calls();
        self.8.lemma_calls_leave_values(below + values);
        lemma_replay_concat(below, calls, self.8.calls());
        assert(below + values + self.8.values() =~= below + (values + self.8.values()));
        let values = values + self.8.values();
        let calls = calls + self.8.calls();
        self.9.lemma_calls_leave_values(below + values);
        lemma_replay_concat(below, calls, self.9.calls());
        assert(below + values + self.9.values() =~= below + (values + self.9.values()));
        let values = values + self.9.values();
        let calls = calls + self.9.calls();
    }
}

impl<
    A: Pushable,
    B: Pushable,
    C: Pushable,
    D: Pushable,
    E: Pushable,
    F: Pushable,
    G: Pushable,
    H: Pushable,
    I: Pushable,
    J: Pushable,
    K: Pushable,
> Pushable for (A, B, C, D, E, F, G, H, I, J, K) {
    open spec fn pushable(&self) -> bool {
        &&& self.0.pushable()
        &&& self.1.pushable()
        &&& self.2.pushable()
        &&& self.3.pushable()
        &&& self.4.pushable()
        &&& self.5.pushable()
        &&& self.6.pushable()
        &&& self.7.pushable()
        &&& self.8.pushable()
        &&& self.9.pushable()
        &&& self.10.pushable()
        &&& self.values().len() <= i32::MAX
    }

    open spec fn values(&self) -> Seq<SpecValue> {
        self.0.values() + self.1.values() + self.2.values() + self.3.values() + self.4.values()
            + self.5.values() + self.6.values() + self.7.values() + self.8.values()
            + self.9.values() + self.10.values()
    }

    open spec fn calls(&self) -> Seq<SpecCall> {
        self.0.calls() + self.1.calls() + self.2.calls() + self.3.calls() + self.4.calls()
            + self.5.calls() + self.6.calls() + self.7.calls() + self.8.calls() + self.9.calls()
            + self.10.calls()
    }

    /// Pushes the members from left to right, each as it pushes itself, with no table around
    /// them, and returns how many values that made. Where each member has one value, the
    /// stack gains one slot for each, in the order of the members.
    fn push(self, stack: &mut Stack) -> (n: i32)
        ensures
            single(&self.0) && single(&self.1) && single(&self.2) && single(&self.3)
                && single(&self.4) && single(&self.5) && single(&self.6) && single(&self.7)
                && single(&self.8) && single(&self.9) && single(&self.10)
                ==> n == 11 && final(stack)@ == old(stack)@ + seq![
                    sole(&self.0), sole(&self.1), sole(&self.2), sole(&self.3), sole(&self.4),
                    sole(&self.5), sole(&self.6), sole(&self.7), sole(&self.8), sole(&self.9),
                    sole(&self.10),
                ],
    {
        let (a, b, c, d, e, f, g, h, i, j, k) = self;
        let ghost below = stack@;
        let ghost made = stack.journal();
        let pushed = a.push(stack);
        let ghost values = self.0.values();
        let ghost calls = self.0.calls();
        let pushed = pushed + b.push(stack);
        let ghost values = values + self.1.values();
        let ghost calls = calls + self.1.calls();
        assert(stack@ =~= below + values);
        assert(stack.journal() =~= made + calls);
        let pushed = pushed + c.push(stack);
        let ghost values = values + self.2.values();
        let ghost calls = calls + self.2.calls();
        assert(stack@ =~= below + values);
        assert(stack.journal() =~= made + calls);
        let pushed = pushed + d.push(stack);
        let ghost values = values + self.3.values();
        let ghost calls = calls + self.3.calls();
        assert(stack@ =~= below + values);
        assert(stack.journal() =~= made + calls);
        let pushed = pushed + e.push(stack);
        let ghost values = values + self.4.values();
        let ghost calls = calls + self.4.calls();
        assert(stack@ =~= below + values);
        assert(stack.journal() =~= made + calls);
        let pushed = pushed + f.push(stack);
        let ghost values = values + self.5.values();
        let ghost calls = calls + self.5.calls();
        assert(stack@ =~= below + values);
        assert(stack.journal() =~= made + calls);
        let pushed = pushed + g.push(stack);
        let ghost values = values + self.6.values();
        let ghost calls = calls + self.6.calls();
        assert(stack@ =~= below + values);
        assert(stack.journal() =~= made + calls);
        let pushed = pushed + h.push(stack);
        let ghost values = values + self.7.values();
        let ghost calls = calls + self.7.calls();
        assert(stack@ =~= below + values);
        assert(stack.journal() =~= made + calls);
        let pushed = pushed + i.push(stack);
        let ghost values = values + self.8.values();
        let ghost calls = calls + self.8.calls();
        assert(stack@ =~= below + values);
        assert(stack.journal() =~= made + calls);
        let pushed = pushed + j.push(stack);
        let ghost values = values + self.9.values();
        let ghost calls = calls + self.9.calls();
        assert(stack@ =~= below + values);
        assert(stack.journal() =~= made + calls);
        let pushed = pushed + k.push(stack);
        let ghost values = values + self.10.values();
        let ghost calls = calls + self.10.calls();
        assert(stack@ =~= below + values);
        assert(stack.journal() =~= made + calls);
        proof {
            if single(&self.0) && single(&self.1) && single(&self.2) && single(&self.3)
                && single(&self.4) && single(&self.5) && single(&self.6) && single(&self.7)
                && single(&self.8) && single(&self.9) && single(&self.10) {
                assert(values =~= seq![
                    sole(&self.0), sole(&self.1), sole(&self.2), sole(&self.3), sole(&self.4),
                    sole(&self.5), sole(&self.6), sole(&self.7), sole(&self.8), sole(&self.9),
                    sole(&self.10),
                ]);
            }
        }
        pushed
    }

    proof fn lemma_calls_leave_values(&self, below: Seq<SpecValue>) {
        self.0.lemma_calls_leave_values(below);
        let values = self.0.values();
        let calls = self.0.calls();
        self.1.lemma_calls_leave_values(below + values);
        lemma_replay_concat(below, calls, self.1.calls());
        assert(below + values + self.1.values() =~= below + (values + self.1.values()));
        let values = values + self.1.values();
        let calls = calls + self.1.calls();
        self.2.lemma_calls_leave_values(below + values);
        lemma_replay_concat(below, calls, self.2.calls());
        assert(below + values + self.2.values() =~= below + (values + self.2.values()));
        let values = values + self.2.values();
        let calls = calls + self.2.calls();
        self.3.lemma_calls_leave_values(below + values);
        lemma_replay_concat(below, calls, self.3.calls());
        assert(below + values + self.3.values() =~= below + (values + self.3.values()));
        let values = values + self.3.values();
        let calls = calls + self.3.calls();
        self.4.lemma_calls_leave_values(below + values);
        lemma_replay_concat(below, calls, self.4.calls());
        assert(below + values + self.4.values() =~= below + (values + self.4.values()));
        let values = values + self.4.values();
        let calls = calls + self.4.calls();
        self.5.lemma_calls_leave_values(below + values);
        lemma_replay_concat(below, calls, self.5.calls());
        assert(below + values + self.5.values() =~= below + (values + self.5.values()));
        let values = values + self.5.values();
        let calls = calls + self.5.calls();
        self.6.lemma_calls_leave_values(below + values);
        lemma_replay_concat(below, calls, self.6.calls());
        assert(below + values + self.6.values() =~= below + (values + self.6.values()));
        let values = values + self.6.values();
        let calls = calls + self.6.calls();
        self.7.lemma_calls_leave_values(below + values);
        lemma_replay_concat(below, calls, self.7.calls());
        assert(below + values + self.7.values() =~= below + (values + self.7.values()));
        let values = values + self.7.values();
        let calls = calls + self.7.calls();
        self.8.lemma_calls_leave_values(below + values);
        lemma_replay_concat(below, calls, self.8.calls());
        assert(below + values + self.8.values() =~= below + (values + self.8.values()));
        let values = values + self.8.values();
        let calls = calls + self.8.calls();
        self.9.lemma_calls_leave_values(below + values);
        lemma_replay_concat(below, calls, self.9.calls());
        assert(below + values + self.9.values() =~= below + (values + self.9.values()));
        let values = values + self.9.values();
        let calls = calls + self.9.calls();
        self.10.lemma_calls_leave_values(below + values);
        lemma_replay_concat(below, calls, self.10.calls());
        assert(below + values + self.10.values() =~= below + (values + self.10.values()));
        let values = values + self.10.values();
        let calls = calls + self.10.calls();
    }
}

impl<
    A: Pushable,
    B: Pushable,
    C: Pushable,
    D: Pushable,
    E: Pushable,
    F: Pushable,
    G: Pushable,
    H: Pushable,
    I: Pushable,
    J: Pushable,
    K: Pushable,
    L: Pushable,
> Pushable for (A, B, C, D, E, F, G, H, I, J, K, L) {
    open spec fn pushable(&self) -> bool {
        &&& self.0.pushable()
        &&& self.1.pushable()
        &&& self.2.pushable()
        &&& self.3.pushable()
        &&& self.4.pushable()
        &&& self.5.pushable()
        &&& self.6.pushable()
        &&& self.7.pushable()
        &&& self.8.pushable()
        &&& self.9.pushable()
        &&& self.10.pushable()
        &&& self.11.pushable()
        &&& self.values().len() <= i32::MAX
    }

    open spec fn values(&self) -> Seq<SpecValue> {
        self.0.values() + self.1.values() + self.2.values() + self.3.values() + self.4.values()
            + self.5.values() + self.6.values() + self.7.values() + self.8.values()
            + self.9.values() + self.10.values() + self.11.values()
    }

    open spec fn calls(&self) -> Seq<SpecCall> {
        self.0.calls() + self.1.calls() + self.2.calls() + self.3.calls() + self.4.calls()
            + self.5.calls() + self.6.calls() + self.7.calls() + self.8.calls() + self.9.calls()
            + self.10.calls() + self.11.calls()
    }

    /// Pushes the members from left to right, each as it pushes itself, with no table around
    /// them, and returns how many values that made. Where each member has one value, the
    /// stack gains one slot for each, in the order of the members.
    fn push(self, stack: &mut Stack) -> (n: i32)
        ensures
            single(&self.0) && single(&self.1) && single(&self.2) && single(&self.3)
                && single(&self.4) && single(&self.5) && single(&self.6) && single(&self.7)
                && single(&self.8) && single(&self.9) && single(&self.10) && single(&self.11)
                ==> n == 12 && final(stack)@ == old(stack)@ + seq![
                    sole(&self.0), sole(&self.1), sole(&self.2), sole(&self.3), sole(&self.4),
                    sole(&self.5), sole(&self.6), sole(&self.7), sole(&self.8), sole(&self.9),
                    sole(&self.10), sole(&self.11),
                ],
    {
        let (a, b, c, d, e, f, g, h, i, j, k, l) = self;
        let ghost below = stack@;
        let ghost made = stack.journal();
        let pushed = a.push(stack);
        let ghost values = self.0.values();
        let ghost calls = self.0.calls();
        let pushed = pushed + b.push(stack);
        let ghost values = values + self.1.values();
        let ghost calls = calls + self.1.calls();
        assert(stack@ =~= below + values);
        assert(stack.journal() =~= made + calls);
        let pushed = pushed + c.push(stack);
        let ghost values = values + self.2.values();
        let ghost calls = calls + self.2.calls();
        assert(stack@ =~= below + values);
        assert(stack.journal() =~= made + calls);
        let pushed = pushed + d.push(stack);
        let ghost values = values + self.3.values();
        let ghost calls = calls + self.3.calls();
        assert(stack@ =~= below + values);
        assert(stack.journal() =~= made + calls);
        let pushed = pushed + e.push(stack);
        let ghost values = values + self.4.values();
        let ghost calls = calls + self.4.calls();
        assert(stack@ =~= below + values);
        assert(stack.journal() =~= made + calls);
        let pushed = pushed + f.push(stack);
        let ghost values = values + self.5.values();
        let ghost calls = calls + self.5.calls();
        assert(stack@ =~= below + values);
        assert(stack.journal() =~= made + calls);
        let pushed = pushed + g.push(stack);
        let ghost values = values + self.6.values();
        let ghost calls = calls + self.6.calls();
        assert(stack@ =~= below + values);
        assert(stack.journal() =~= made + calls);
        let pushed = pushed + h.push(stack);
        let ghost values = values + self.7.values();
        let ghost calls = calls + self.7.calls();
        assert(stack@ =~= below + values);
        assert(stack.journal() =~= made + calls);
        let pushed = pushed + i.push(stack);
        let ghost values = values + self.8.values();
        let ghost calls = calls + self.8.calls();
        assert(stack@ =~= below + values);
        assert(stack.journal() =~= made + calls);
        let pushed = pushed + j.push(stack);
        let ghost values = values + self.9.values();
        let ghost calls = calls + self.9.calls();
        assert(stack@ =~= below + values);
        assert(stack.journal() =~= made + calls);
        let pushed = pushed + k.push(stack);
        let ghost values = values + self.10.values();
        let ghost calls = calls + self.10.calls();
        assert(stack@ =~= below + values);
        assert(stack.journal() =~= made + calls);
        let pushed = pushed + l.push(stack);
        let ghost values = values + self.11.values();
        let ghost calls = calls + self.11.calls();
        assert(stack@ =~= below + values);
        assert(stack.journal() =~= made + calls);
        proof {
            if single(&self.0) && single(&self.1) && single(&self.2) && single(&self.3)
                && single(&self.4) && single(&self.5) && single(&self.6) && single(&self.7)
                && single(&self.8) && single(&self.9) && single(&self.10) && single(&self.11) {
                assert(values =~= seq![
                    sole(&self.0), sole(&self.1), sole(&self.2), sole(&self.3), sole(&self.4),
                    sole(&self.5), sole(&self.6), sole(&self.7), sole(&self.8), sole(&self.9),
                    sole(&self.10), sole(&self.11),
                ]);
            }
        }
        pushed
    }

    proof fn lemma_calls_leave_values(&self, below: Seq<SpecValue>) {
        self.0.lemma_calls_leave_values(below);
        let values = self.0.values();
        let calls = self.0.calls();
        self.1.lemma_calls_leave_values(below + values);
        lemma_replay_concat(below, calls, self.1.calls());
        assert(below + values + self.1.values() =~= below + (values + self.1.values()));
        let values = values + self.1.values();
        let calls = calls + self.1.calls();
        self.2.lemma_calls_leave_values(below + values);
        lemma_replay_concat(below, calls, self.2.calls());
        assert(below + values + self.2.values() =~= below + (values + self.2.values()));
        let values = values + self.2.values();
        let calls = calls + self.2.calls();
        self.3.lemma_calls_leave_values(below + values);
        lemma_replay_concat(below, calls, self.3.calls());
        assert(below + values + self.3.values() =~= below + (values + self.3.values()));
        let values = values + self.3.values();
        let calls = calls + self.3.calls();
        self.4.lemma_calls_leave_values(below + values);
        lemma_replay_concat(below, calls, self.4.calls());
        assert(below + values + self.4.values() =~= below + (values + self.4.values()));
        let values = values + self.4.values();
        let calls = calls + self.4.calls();
        self.5.lemma_calls_leave_values(below + values);
        lemma_replay_concat(below, calls, self.5.calls());
        assert(below + values + self.5.values() =~= below + (values + self.5.values()));
        let values = values + self.5.values();
        let calls = calls + self.5.calls();
        self.6.lemma_calls_leave_values(below + values);
        lemma_replay_concat(below, calls, self.6.calls());
        assert(below + values + self.6.values() =~= below + (values + self.6.values()));
        let values = values + self.6.values();
        let calls = calls + self.6.calls();
        self.7.lemma_calls_leave_values(below + values);
        lemma_replay_concat(below, calls, self.7.calls());
        assert(below + values + self.7.values() =~= below + (values + self.7.values()));
        let values = values + self.7.values();
        let calls = calls + self.7.calls();
        self.8.lemma_calls_leave_values(below + values);
        lemma_replay_concat(below, calls, self.8.calls());
        assert(below + values + self.8.values() =~= below + (values + self.8.values()));
        let values = values + self.8.values();
        let calls = calls + self.8.calls();
        self.9.lemma_calls_leave_values(below + values);
        lemma_replay_concat(below, calls, self.9.calls());
        assert(below + values + self.9.values() =~= below + (values + self.9.values()));
        let values = values + self.9.values();
        let calls = calls + self.9.calls();
        self.10.lemma_calls_leave_values(below + values);
        lemma_replay_concat(below, calls, self.10.calls());
        assert(below + values + self.10.values() =~= below + (values + self.10.values()));
        let values = values + self.10.values();
        let calls = calls + self.10.calls();
        self.11.lemma_calls_leave_values(below + values);
        lemma_replay_concat(below, calls, self.11.calls());
        assert(below + values + self.11.values() =~= below + (values + self.11.values()));
        let values = values + self.11.values();
        let calls = calls + self.11.calls();
    }
}

impl<
    A: Pushable,
    B: Pushable,
    C: Pushable,
    D: Pushable,
    E: Pushable,
    F: Pushable,
    G: Pushable,
    H: Pushable,
    I: Pushable,
    J: Pushable,
    K: Pushable,
    L: Pushable,
    M: Pushable,
> Pushable for (A, B, C, D, E, F, G, H, I, J, K, L, M) {
    open spec fn pushable(&self) -> bool {
        &&& self.0.pushable()
        &&& self.1.pushable()
        &&& self.2.pushable()
        &&& self.3.pushable()
        &&& self.4.pushable()
        &&& self.5.pushable()
        &&& self.6.pushable()
        &&& self.7.pushable()
        &&& self.8.pushable()
        &&& self.9.pushable()
        &&& self.10.pushable()
        &&& self.11.pushable()
        &&& self.12.pushable()
        &&& self.values().len() <= i32::MAX
    }

    open spec fn values(&self) -> Seq<SpecValue> {
        self.0.values() + self.1.values() + self.2.values() + self.3.values() + self.4.values()
            + self.5.values() + self.6.values() + self.7.values() + self.8.values()
            + self.9.values() + self.10.values() + self.11.values() + self.12.values()
    }

    open spec fn calls(&self) -> Seq<SpecCall> {
        self.0.calls() + self.1.calls() + self.2.calls() + self.3.calls() + self.4.calls()
            + self.5.calls() + self.6.calls() + self.7.calls() + self.8.calls() + self.9.calls()
            + self.10.calls() + self.11.calls() + self.12.calls()
    }

    /// Pushes the members from left to right, each as it pushes itself, with no table around
    /// them, and returns how many values that made. Where each member has one value, the
    /// stack gains one slot for each, in the order of the members.
    fn push(self, stack: &mut Stack) -> (n: i32)
        ensures
            single(&self.0) && single(&self.1) && single(&self.2) && single(&self.3)
                && single(&self.4) && single(&self.5) && single(&self.6) && single(&self.7)
                && single(&self.8) && single(&self.9) && single(&self.10) && single(&self.11)
                && single(&self.12)
                ==> n == 13 && final(stack)@ == old(stack)@ + seq![
                    sole(&self.0), sole(&self.1), sole(&self.2), sole(&self.3), sole(&self.4),
                    sole(&self.5), sole(&self.6), sole(&self.7), sole(&self.8), sole(&self.9),
                    sole(&self.10), sole(&self.11), sole(&self.12),
                ],
    {
        let (a, b, c, d, e, f, g, h, i, j, k, l, m) = self;
        let ghost below = stack@;
        let ghost made = stack.journal();
        let pushed = a.push(stack);
        let ghost values = self.0.values();
        let ghost calls = self.0.calls();
        let pushed = pushed + b.push(stack);
        let ghost values = values + self.1.values();
        let ghost calls = calls + self.1.calls();
        assert(stack@ =~= below + values);
        assert(stack.journal() =~= made + calls);
        let pushed = pushed + c.push(stack);
        let ghost values = values + self.2.values();
        let ghost calls = calls + self.2.calls();
        assert(stack@ =~= below + values);
        assert(stack.journal() =~= made + calls);
        let pushed = pushed + d.push(stack);
        let ghost values = values + self.3.values();
        let ghost calls = calls + self.3.calls();
        assert(stack@ =~= below + values);
        assert(stack.journal() =~= made + calls);
        let pushed = pushed + e.push(stack);
        let ghost values = values + self.4.values();
        let ghost calls = calls + self.4.calls();
        assert(stack@ =~= below + values);
        assert(stack.journal() =~= made + calls);
        let pushed = pushed + f.push(stack);
        let ghost values = values + self.5.values();
        let ghost calls = calls + self.5.calls();
        assert(stack@ =~= below + values);
        assert(stack.journal() =~= made + calls);
        let pushed = pushed + g.push(stack);
        let ghost values = values + self.6.values();
        let ghost calls = calls + self.6.calls();
        assert(stack@ =~= below + values);
        assert(stack.journal() =~= made + calls);
        let pushed = pushed + h.push(stack);
        let ghost values = values + self.7.values();
        let ghost calls = calls + self.7.calls();
        assert(stack@ =~= below + values);
        assert(stack.journal() =~= made + calls);
        let pushed = pushed + i.push(stack);
        let ghost values = values + self.8.values();
        let ghost calls = calls + self.8.calls();
        assert(stack@ =~= below + values);
        assert(stack.journal() =~= made + calls);
        let pushed = pushed + j.push(stack);
        let ghost values = values + self.9.values();
        let ghost calls = calls + self.9.calls();
        assert(stack@ =~= below + values);
        assert(stack.journal() =~= made + calls);
        let pushed = pushed + k.push(stack);
        let ghost values = values + self.10.values();
        let ghost calls = calls + self.10.calls();
        assert(stack@ =~= below + values);
        assert(stack.journal() =~= made + calls);
        let pushed = pushed + l.push(stack);
        let ghost values = values + self.11.values();
        let ghost calls = calls + self.11.calls();
        assert(stack@ =~= below + values);
        assert(stack.journal() =~= made + calls);
        let pushed = pushed + m.push(stack);
        let ghost values = values + self.12.values();
        let ghost calls = calls + self.12.calls();
        assert(stack@ =~= below + values);
        assert(stack.journal() =~= made + calls);
        proof {
            if single(&self.0) && single(&self.1) && single(&self.2) && single(&self.3)
                && single(&self.4) && single(&self.5) && single(&self.6) && single(&self.7)
                && single(&self.8) && single(&self.9) && single(&self.10) && single(&self.11)
                && single(&self.12) {
                assert(values =~= seq![
                    sole(&self.0), sole(&self.1), sole(&self.2), sole(&self.3), sole(&self.4),
                    sole(&self.5), sole(&self.6), sole(&self.7), sole(&self.8), sole(&self.9),
                    sole(&self.10), sole(&self.11), sole(&self.12),
                ]);
            }
        }
        pushed
    }

    proof fn lemma_calls_leave_values(&self, below: Seq<SpecValue>) {
        self.0.lemma_calls_leave_values(below);
        let values = self.0.values();
        let calls = self.0.calls();
        self.1.lemma_calls_leave_values(below + values);
        lemma_replay_concat(below, calls, self.1.calls());
        assert(below + values + self.1.values() =~= below + (values + self.1.values()));
        let values = values + self.1.values();
        let calls = calls + self.1.calls();
        self.2.lemma_calls_leave_values(below + values);
        lemma_replay_concat(below, calls, self.2.calls());
        assert(below + values + self.2.values() =~= below + (values + self.2.values()));
        let values = values + self.2.values();
        let calls = calls + self.2.calls();
        self.3.lemma_calls_leave_values(below + values);
        lemma_replay_concat(below, calls, self.3.calls());
        assert(below + values + self.3.values() =~= below + (values + self.3.values()));
        let values = values + self.3.values();
        let calls = calls + self.3.calls();
        self.4.lemma_calls_leave_values(below + values);
        lemma_replay_concat(below, calls, self.4.calls());
        assert(below + values + self.4.values() =~= below + (values + self.4.values()));
        let values = values + self.4.values();
        let calls = calls + self.4.calls();
        self.5.lemma_calls_leave_values(below + values);
        lemma_replay_concat(below, calls, self.5.calls());
        assert(below + values + self.5.values() =~= below + (values + self.5.values()));
        let values = values + self.5.values();
        let calls = calls + self.5.calls();
        self.6.lemma_calls_leave_values(below + values);
        lemma_replay_concat(below, calls, self.6.calls());
        assert(below + values + self.6.values() =~= below + (values + self.6.values()));
        let values = values + self.6.values();
        let calls = calls + self.6.calls();
        self.7.lemma_calls_leave_values(below + values);
        lemma_replay_concat(below, calls, self.7.calls());
        assert(below + values + self.7.values() =~= below + (values + self.7.values()));
        let values = values + self.7.values();
        let calls = calls + self.7.calls();
        self.8.lemma_calls_leave_values(below + values);
        lemma_replay_concat(below, calls, self.8.calls());
        assert(below + values + self.8.values() =~= below + (values + self.8.values()));
        let values = values + self.8.values();
        let calls = calls + self.8.calls();
        self.9.lemma_calls_leave_values(below + values);
        lemma_replay_concat(below, calls, self.9.calls());
        assert(below + values + self.9.values() =~= below + (values + self.9.values()));
        let values = values + self.9.values();
        let calls = calls + self.9.calls();
        self.10.lemma_calls_leave_values(below + values);
        lemma_replay_concat(below, calls, self.10.calls());
        assert(below + values + self.10.values() =~= below + (values + self.10.values()));
        let values = values + self.10.values();
        let calls = calls + self.10.calls();
        self.11.lemma_calls_leave_values(below + values);
        lemma_replay_concat(below, calls, self.11.calls());
        assert(below + values + self.11.values() =~= below + (values + self.11.values()));
        let values = values + self.11.values();
        let calls = calls + self.11.calls();
        self.12.lemma_calls_leave_values(below + values);
        lemma_replay_concat(below, calls, self.12.calls());
        assert(below + values + self.12.values() =~= below + (values + self.12.values()));
        let values = values + self.12.values();
        let calls = calls + self.12.calls();
    }
}

impl<
    A: Pushable,
    B: Pushable,
    C: Pushable,
    D: Pushable,
    E: Pushable,
    F: Pushable,
    G: Pushable,
    H: Pushable,
    I: Pushable,
    J: Pushable,
    K: Pushable,
    L: Pushable,
    M: Pushable,
    N: Pushable,
> Pushable for (A, B, C, D, E, F, G, H, I, J, K, L, M, N) {
    open spec fn pushable(&self) -> bool {
        &&& self.0.pushable()
        &&& self.1.pushable()
        &&& self.2.pushable()
        &&& self.3.pushable()
        &&& self.4.pushable()
        &&& self.5.pushable()
        &&& self.6.pushable()
        &&& self.7.pushable()
        &&& self.8.pushable()
        &&& self.9.pushable()
        &&& self.10.pushable()
        &&& self.11.pushable()
        &&& self.12.pushable()
        &&& self.13.pushable()
        &&& self.values().len() <= i32::MAX
    }

    open spec fn values(&self) -> Seq<SpecValue> {
        self.0.values() + self.1.values() + self.2.values() + self.3.values() + self.4.values()
            + self.5.values() + self.6.values() + self.7.values() + self.8.values()
            + self.9.values() + self.10.values() + self.11.values() + self.12.values()
            + self.13.values()
    }

    open spec fn calls(&self) -> Seq<SpecCall> {
        self.0.calls() + self.1.calls() + self.2.calls() + self.3.calls() + self.4.calls()
            + self.5.calls() + self.6.calls() + self.7.calls() + self.8.calls() + self.9.calls()
            + self.10.calls() + self.11.calls() + self.12.calls() + self.13.calls()
    }

    /// Pushes the members from left to right, each as it pushes itself, with no table around
    /// them, and returns how many values that made. Where each member has one value, the
    /// stack gains one slot for each, in the order of the members.
    fn push(self, stack: &mut Stack) -> (n: i32)
        ensures
            single(&self.0) && single(&self.1) && single(&self.2) && single(&self.3)
                && single(&self.4) && single(&self.5) && single(&self.6) && single(&self.7)
                && single(&self.8) && single(&self.9) && single(&self.10) && single(&self.11)
                && single(&self.12) && single(&self.13)
                ==> n == 14 && final(stack)@ == old(stack)@ + seq![
                    sole(&self.0), sole(&self.1), sole(&self.2), sole(&self.3), sole(&self.4),
                    sole(&self.5), sole(&self.6), sole(&self.7), sole(&self.8), sole(&self.9),
                    sole(&self.10), sole(&self.11), sole(&self.12), sole(&self.13),
                ],
    {
        let (a, b, c, d, e, f, g, h, i, j, k, l, m, n) = self;
        let ghost below = stack@;
        let ghost made = stack.journal();
        let pushed = a.push(stack);
        let ghost values = self.0.values();
        let ghost calls = self.0.calls();
        let pushed = pushed + b.push(stack);
        let ghost values = values + self.1.values();
        let ghost calls = calls + self.1.calls();
        assert(stack@ =~= below + values);
        assert(stack.journal() =~= made + calls);
        let pushed = pushed + c.push(stack);
        let ghost values = values + self.2.values();
        let ghost calls = calls + self.2.calls();
        assert(stack@ =~= below + values);
        assert(stack.journal() =~= made + calls);
        let pushed = pushed + d.push(stack);
        let ghost values = values + self.3.values();
        let ghost calls = calls + self.3.calls();
        assert(stack@ =~= below + values);
        assert(stack.journal() =~= made + calls);
        let pushed = pushed + e.push(stack);
        let ghost values = values + self.4.values();
        let ghost calls = calls + self.4.calls();
        assert(stack@ =~= below + values);
        assert(stack.journal() =~= made + calls);
        let pushed = pushed + f.push(stack);
        let ghost values = values + self.5.values();
        let ghost calls = calls + self.5.calls();
        assert(stack@ =~= below + values);
        assert(stack.journal() =~= made + calls);
        let pushed = pushed + g.push(stack);
        let ghost values = values + self.6.values();
        let ghost calls = calls + self.6.calls();
        assert(stack@ =~= below + values);
        assert(stack.journal() =~= made + calls);
        let pushed = pushed + h.push(stack);
        let ghost values = values + self.7.values();
        let ghost calls = calls + self.7.calls();
        assert(stack@ =~= below + values);
        assert(stack.journal() =~= made + calls);
        let pushed = pushed + i.push(stack);
        let ghost values = values + self.8.values();
        let ghost calls = calls + self.8.calls();
        assert(stack@ =~= below + values);
        assert(stack.journal() =~= made + calls);
        let pushed = pushed + j.push(stack);
        let ghost values = values + self.9.values();
        let ghost calls = calls + self.9.calls();
        assert(stack@ =~= below + values);
        assert(stack.journal() =~= made + calls);
        let pushed = pushed + k.push(stack);
        let ghost values = values + self.10.values();
        let ghost calls = calls + self.10.calls();
        assert(stack@ =~= below + values);
        assert(stack.journal() =~= made + calls);
        let pushed = pushed + l.push(stack);
        let ghost values = values + self.11.values();
        let ghost calls = calls + self.11.calls();
        assert(stack@ =~= below + values);
        assert(stack.journal() =~= made + calls);
        let pushed = pushed + m.push(stack);
        let ghost values = values + self.12.values();
        let ghost calls = calls + self.12.calls();
        assert(stack@ =~= below + values);
        assert(stack.journal() =~= made + calls);
        let pushed = pushed + n.push(stack);
        let ghost values = values + self.13.values();
        let ghost calls = calls + self.13.calls();
        assert(stack@ =~= below + values);
        assert(stack.journal() =~= made + calls);
        proof {
            if single(&self.0) && single(&self.1) && single(&self.2) && single(&self.3)
                && single(&self.4) && single(&self.5) && single(&self.6) && single(&self.7)
                && single(&self.8) && single(&self.9) && single(&self.10) && single(&self.11)
                && single(&self.12) && single(&self.13) {
                assert(values =~= seq![
                    sole(&self.0), sole(&self.1), sole(&self.2), sole(&self.3), sole(&self.4),
                    sole(&self.5), sole(&self.6), sole(&self.7), sole(&self.8), sole(&self.9),
                    sole(&self.10), sole(&self.11), sole(&self.12), sole(&self.13),
                ]);
            }
        }
        pushed
    }

    proof fn lemma_calls_leave_values(&self, below: Seq<SpecValue>) {
        self.0.lemma_calls_leave_values(below);
        let values = self.0.values();
        let calls = self.0.calls();
        self.1.lemma_calls_leave_values(below + values);
        lemma_replay_concat(below, calls, self.1.calls());
        assert(below + values + self.1.values() =~= below + (values + self.1.values()));
        let values = values + self.1.values();
        let calls = calls + self.1.calls();
        self.2.lemma_calls_leave_values(below + values);
        lemma_replay_concat(below, calls, self.2.calls());
        assert(below + values + self.2.values() =~= below + (values + self.2.values()));
        let values = values + self.2.values();
        let calls = calls + self.2.calls();
        self.3.lemma_calls_leave_values(below + values);
        lemma_replay_concat(below, calls, self.3.calls());
        assert(below + values + self.3.values() =~= below + (values + self.3.values()));
        let values = values + self.3.values();
        let calls = calls + self.3.calls();
        self.4.lemma_calls_leave_values(below + values);
        lemma_replay_concat(below, calls, self.4.calls());
        assert(below + values + self.4.values() =~= below + (values + self.4.values()));
        let values = values + self.4.values();
        let calls = calls + self.4.calls();
        self.5.lemma_calls_leave_values(below + values);
        lemma_replay_concat(below, calls, self.5.calls());
        assert(below + values + self.5.values() =~= below + (values + self.5.values()));
        let values = values + self.5.values();
        let calls = calls + self.5.calls();
        self.6.lemma_calls_leave_values(below + values);
        lemma_replay_concat(below, calls, self.6.calls());
        assert(below + values + self.6.values() =~= below + (values + self.6.values()));
        let values = values + self.6.values();
        let calls = calls + self.6.calls();
        self.7.lemma_calls_leave_values(below + values);
        lemma_replay_concat(below, calls, self.7.calls());
        assert(below + values + self.7.values() =~= below + (values + self.7.values()));
        let values = values + self.7.values();
        let calls = calls + self.7.calls();
        self.8.lemma_calls_leave_values(below + values);
        lemma_replay_concat(below, calls, self.8.calls());
        assert(below + values + self.8.values() =~= below + (values + self.8.values()));
        let values = values + self.8.values();
        let calls = calls + self.8.calls();
        self.9.lemma_calls_leave_values(below + values);
        lemma_replay_concat(below, calls, self.9.calls());
        assert(below + values + self.9.values() =~= below + (values + self.9.values()));
        let values = values + self.9.values();
        let calls = calls + self.9.calls();
        self.10.lemma_calls_leave_values(below + values);
        lemma_replay_concat(below, calls, self.10.calls());
        assert(below + values + self.10.values() =~= below + (values + self.10.values()));
        let values = values + self.10.values();
        let calls = calls + self.10.calls();
        self.11.lemma_calls_leave_values(below + values);
        lemma_replay_concat(below, calls, self.11.calls());
        assert(below + values + self.11.values() =~= below + (values + self.11.values()));
        let values = values + self.11.values();
        let calls = calls + self.11.calls();
        self.12.lemma_calls_leave_values(below + values);
        lemma_replay_concat(below, calls, self.12.calls());
        assert(below + values + self.12.values() =~= below + (values + self.12.values()));
        let values = values + self.12.values();
        let calls = calls + self.12.calls();
        self.13.lemma_calls_leave_values(below + values);
        lemma_replay_concat(below, calls, self.13.calls());
        assert(below + values + self.13.values() =~= below + (values + self.13.values()));
        let values = values + self.13.values();
        let calls = calls + self.13.calls();
    }
}

impl<
    A: Pushable,
    B: Pushable,
    C: Pushable,
    D: Pushable,
    E: Pushable,
    F: Pushable,
    G: Pushable,
    H: Pushable,
    I: Pushable,
    J: Pushable,
    K: Pushable,
    L: Pushable,
    M: Pushable,
    N: Pushable,
    O: Pushable,
> Pushable for (A, B, C, D, E, F, G, H, I, J, K, L, M, N, O) {
    open spec fn pushable(&self) -> bool {
        &&& self.0.pushable()
        &&& self.1.pushable()
        &&& self.2.pushable()
        &&& self.3.pushable()
        &&& self.4.pushable()
        &&& self.5.pushable()
        &&& self.6.pushable()
        &&& self.7.pushable()
        &&& self.8.pushable()
        &&& self.9.pushable()
        &&& self.10.pushable()
        &&& self.11.pushable()
        &&& self.12.pushable()
        &&& self.13.pushable()
        &&& self.14.pushable()
        &&& self.values().len() <= i32::MAX
    }

    open spec fn values(&self) -> Seq<SpecValue> {
        self.0.values() + self.1.values() + self.2.values() + self.3.values() + self.4.values()
            + self.5.values() + self.6.values() + self.7.values() + self.8.values()
            + self.9.values() + self.10.values() + self.11.values() + self.12.values()
            + self.13.values() + self.14.values()
    }

    open spec fn calls(&self) -> Seq<SpecCall> {
        self.0.calls() + self.1.calls() + self.2.calls() + self.3.calls() + self.4.calls()
            + self.5.calls() + self.6.calls() + self.7.calls() + self.8.calls() + self.9.calls()
            + self.10.calls() + self.11.calls() + self.12.calls() + self.13.calls()
            + self.14.calls()
    }

    /// Pushes the members from left to right, each as it pushes itself, with no table around
    /// them, and returns how many values that made. Where each member has one value, the
    /// stack gains one slot for each, in the order of the members.
    fn push(self, stack: &mut Stack) -> (n: i32)
        ensures
            single(&self.0) && single(&self.1) && single(&self.2) && single(&self.3)
                && single(&self.4) && single(&self.5) && single(&self.6) && single(&self.7)
                && single(&self.8) && single(&self.9) && single(&self.10) && single(&self.11)
                && single(&self.12) && single(&self.13) && single(&self.14)
                ==> n == 15 && final(stack)@ == old(stack)@ + seq![
                    sole(&self.0), sole(&self.1), sole(&self.2), sole(&self.3), sole(&self.4),
                    sole(&self.5), sole(&self.6), sole(&self.7), sole(&self.8), sole(&self.9),
                    sole(&self.10), sole(&self.11), sole(&self.12), sole(&self.13), sole(&self.14),
                ],
    {
        let (a, b, c, d, e, f, g, h, i, j, k, l, m, n, o) = self;
        let ghost below = stack@;
        let ghost made = stack.journal();
        let pushed = a.push(stack);
        let ghost values = self.0.values();
        let ghost calls = self.0.calls();
        let pushed = pushed + b.push(stack);
        let ghost values = values + self.1.values();
        let ghost calls = calls + self.1.calls();
        assert(stack@ =~= below + values);
        assert(stack.journal() =~= made + calls);
        let pushed = pushed + c.push(stack);
        let ghost values = values + self.2.values();
        let ghost calls = calls + self.2.calls();
        assert(stack@ =~= below + values);
        assert(stack.journal() =~= made + calls);
        let pushed = pushed + d.push(stack);
        let ghost values = values + self.3.values();
        let ghost calls = calls + self.3.calls();
        assert(stack@ =~= below + values);
        assert(stack.journal() =~= made + calls);
        let pushed = pushed + e.push(stack);
        let ghost values = values + self.4.values();
        let ghost calls = calls + self.4.calls();
        assert(stack@ =~= below + values);
        assert(stack.journal() =~= made + calls);
        let pushed = pushed + f.push(stack);
        let ghost values = values + self.5.values();
        let ghost calls = calls + self.5.calls();
        assert(stack@ =~= below + values);
        assert(stack.journal() =~= made + calls);
        let pushed = pushed + g.push(stack);
        let ghost values = values + self.6.values();
        let ghost calls = calls + self.6.calls();
        assert(stack@ =~= below + values);
        assert(stack.journal() =~= made + calls);
        let pushed = pushed + h.push(stack);
        let ghost values = values + self.7.values();
        let ghost calls = calls + self.7.calls();
        assert(stack@ =~= below + values);
        assert(stack.journal() =~= made + calls);
        let pushed = pushed + i.push(stack);
        let ghost values = values + self.8.values();
        let ghost calls = calls + self.8.calls();
        assert(stack@ =~= below + values);
        assert(stack.journal() =~= made + calls);
        let pushed = pushed + j.push(stack);
        let ghost values = values + self.9.values();
        let ghost calls = calls + self.9.calls();
        assert(stack@ =~= below + values);
        assert(stack.journal() =~= made + calls);
        let pushed = pushed + k.push(stack);
        let ghost values = values + self.10.values();
        let ghost calls = calls + self.10.calls();
        assert(stack@ =~= below + values);
        assert(stack.journal() =~= made + calls);
        let pushed = pushed + l.push(stack);
        let ghost values = values + self.11.values();
        let ghost calls = calls + self.11.calls();
        assert(stack@ =~= below + values);
        assert(stack.journal() =~= made + calls);
        let pushed = pushed + m.push(stack);
        let ghost values = values + self.12.values();
        let ghost calls = calls + self.12.calls();
        assert(stack@ =~= below + values);
        assert(stack.journal() =~= made + calls);
        let pushed = pushed + n.push(stack);
        let ghost values = values + self.13.values();
        let ghost calls = calls + self.13.calls();
        assert(stack@ =~= below + values);
        assert(stack.journal() =~= made + calls);
        let pushed = pushed + o.push(stack);
        let ghost values = values + self.14.values();
        let ghost calls = calls + self.14.calls();
        assert(stack@ =~= below + values);
        assert(stack.journal() =~= made + calls);
        proof {
            if single(&self.0) && single(&self.1) && single(&self.2) && single(&self.3)
                && single(&self.4) && single(&self.5) && single(&self.6) && single(&self.7)
                && single(&self.8) && single(&self.9) && single(&self.10) && single(&self.11)
                && single(&self.12) && single(&self.13) && single(&self.14) {
                assert(values =~= seq![
                    sole(&self.0), sole(&self.1), sole(&self.2), sole(&self.3), sole(&self.4),
                    sole(&self.5), sole(&self.6), sole(&self.7), sole(&self.8), sole(&self.9),
                    sole(&self.10), sole(&self.11), sole(&self.12), sole(&self.13), sole(&self.14),
                ]);
            }
        }
        pushed
    }

    proof fn lemma_calls_leave_values(&self, below: Seq<SpecValue>) {
        self.0.lemma_calls_leave_values(below);
        let values = self.0.values();
        let calls = self.0.calls();
        self.1.lemma_calls_leave_values(below + values);
        lemma_replay_concat(below, calls, self.1.calls());
        assert(below + values + self.1.values() =~= below + (values + self.1.values()));
        let values = values + self.1.values();
        let calls = calls + self.1.calls();
        self.2.lemma_calls_leave_values(below + values);
        lemma_replay_concat(below, calls, self.2.calls());
        assert(below + values + self.2.values() =~= below + (values + self.2.values()));
        let values = values + self.2.values();
        let calls = calls + self.2.calls();
        self.3.lemma_calls_leave_values(below + values);
        lemma_replay_concat(below, calls, self.3.calls());
        assert(below + values + self.3.values() =~= below + (values + self.3.values()));
        let values = values + self.3.values();
        let calls = calls + self.3.calls();
        self.4.lemma_calls_leave_values(below + values);
        lemma_replay_concat(below, calls, self.4.calls());
        assert(below + values + self.4.values() =~= below + (values + self.4.values()));
        let values = values + self.4.values();
        let calls = calls + self.4.calls();
        self.5.lemma_calls_leave_values(below + values);
        lemma_replay_concat(below, calls, self.5.calls());
        assert(below + values + self.5.values() =~= below + (values + self.5.values()));
        let values = values + self.5.values();
        let calls = calls + self.5.calls();
        self.6.lemma_calls_leave_values(below + values);
        lemma_replay_concat(below, calls, self.6.calls());
        assert(below + values + self.6.values() =~= below + (values + self.6.values()));
        let values = values + self.6.values();
        let calls = calls + self.6.calls();
        self.7.lemma_calls_leave_values(below + values);
        lemma_replay_concat(below, calls, self.7.calls());
        assert(below + values + self.7.values() =~= below + (values + self.7.values()));
        let values = values + self.7.values();
        let calls = calls + self.7.calls();
        self.8.lemma_calls_leave_values(below + values);
        lemma_replay_concat(below, calls, self.8.calls());
        assert(below + values + self.8.values() =~= below + (values + self.8.values()));
        let values = values + self.8.values();
        let calls = calls + self.8.calls();
        self.9.lemma_calls_leave_values(below + values);
        lemma_replay_concat(below, calls, self.9.calls());
        assert(below + values + self.9.values() =~= below + (values + self.9.values()));
        let values = values + self.9.values();
        let calls = calls + self.9.calls();
        self.10.lemma_calls_leave_values(below + values);
        lemma_replay_concat(below, calls, self.10.calls());
        assert(below + values + self.10.values() =~= below + (values + self.10.values()));
        let values = values + self.10.values();
        let calls = calls + self.10.calls();
        self.11.lemma_calls_leave_values(below + values);
        lemma_replay_concat(below, calls, self.11.calls());
        assert(below + values + self.11.values() =~= below + (values + self.11.values()));
        let values = values + self.11.values();
        let calls = calls + self.11.calls();
        self.12.lemma_calls_leave_values(below + values);
        lemma_replay_concat(below, calls, self.12.calls());
        assert(below + values + self.12.values() =~= below + (values + self.12.values()));
        let values = values + self.12.values();
        let calls = calls + self.12.calls();
        self.13.lemma_calls_leave_values(below + values);
        lemma_replay_concat(below, calls, self.13.calls());
        assert(below + values + self.13.values() =~= below + (values + self.13.values()));
        let values = values + self.13.values();
        let calls = calls + self.13.calls();
        self.14.lemma_calls_leave_values(below + values);
        lemma_replay_concat(below, calls, self.14.calls());
        assert(below + values + self.14.values() =~= below + (values + self.14.values()));
        let values = values + self.14.values();
        let calls = calls + self.14.calls();
    }
}

impl<
    A: Pushable,
    B: Pushable,
    C: Pushable,
    D: Pushable,
    E: Pushable,
    F: Pushable,
    G: Pushable,
    H: Pushable,
    I: Pushable,
    J: Pushable,
    K: Pushable,
    L: Pushable,
    M: Pushable,
    N: Pushable,
    O: Pushable,
    P: Pushable,
> Pushable for (A, B, C, D, E, F, G, H, I, J, K, L, M, N, O, P) {
    open spec fn pushable(&self) -> bool {
        &&& self.0.pushable()
        &&& self.1.pushable()
        &&& self.2.pushable()
        &&& self.3.pushable()
        &&& self.4.pushable()
        &&& self.5.pushable()
        &&& self.6.pushable()
        &&& self.7.pushable()
        &&& self.8.pushable()
        &&& self.9.pushable()
        &&& self.10.pushable()
        &&& self.11.pushable()
        &&& self.12.pushable()
        &&& self.13.pushable()
        &&& self.14.pushable()
        &&& self.15.pushable()
        &&& self.values().len() <= i32::MAX
    }

    open spec fn values(&self) -> Seq<SpecValue> {
        self.0.values() + self.1.values() + self.2.values() + self.3.values() + self.4.values()
            + self.5.values() + self.6.values() + self.7.values() + self.8.values()
            + self.9.values() + self.10.values() + self.11.values() + self.12.values()
            + self.13.values() + self.14.values() + self.15.values()
    }

    open spec fn calls(&self) -> Seq<SpecCall> {
        self.0.calls() + self.1.calls() + self.2.calls() + self.3.calls() + self.4.calls()
            + self.5.calls() + self.6.calls() + self.7.calls() + self.8.calls() + self.9.calls()
            + self.10.calls() + self.11.calls() + self.12.calls() + self.13.calls()
            + self.14.calls() + self.15.calls()
    }

    /// Pushes the members from left to right, each as it pushes itself, with no table around
    /// them, and returns how many values that made. Where each member has one value, the
    /// stack gains one slot for each, in the order of the members.
    fn push(self, stack: &mut Stack) -> (n: i32)
        ensures
            single(&self.0) && single(&self.1) && single(&self.2) && single(&self.3)
                && single(&self.4) && single(&self.5) && single(&self.6) && single(&self.7)
                && single(&self.8) && single(&self.9) && single(&self.10) && single(&self.11)
                && single(&self.12) && single(&self.13) && single(&self.14) && single(&self.15)
                ==> n == 16 && final(stack)@ == old(stack)@ + seq![
                    sole(&self.0), sole(&self.1), sole(&self.2), sole(&self.3), sole(&self.4),
                    sole(&self.5), sole(&self.6), sole(&self.7), sole(&self.8), sole(&self.9),
                    sole(&self.10), sole(&self.11), sole(&self.12), sole(&self.13), sole(&self.14),
                    sole(&self.15),
                ],
    {
        let (a, b, c, d, e, f, g, h, i, j, k, l, m, n, o, p) = self;
        let ghost below = stack@;
        let ghost made = stack.journal();
        let pushed = a.push(stack);
        let ghost values = self.0.values();
        let ghost calls = self.0.calls();
        let pushed = pushed + b.push(stack);
        let ghost values = values + self.1.values();
        let ghost calls = calls + self.1.calls();
        assert(stack@ =~= below + values);
        assert(stack.journal() =~= made + calls);
        let pushed = pushed + c.push(stack);
        let ghost values = values + self.2.values();
        let ghost calls = calls + self.2.calls();
        assert(stack@ =~= below + values);
        assert(stack.journal() =~= made + calls);
        let pushed = pushed + d.push(stack);
        let ghost values = values + self.3.values();
        let ghost calls = calls + self.3.calls();
        assert(stack@ =~= below + values);
        assert(stack.journal() =~= made + calls);
        let pushed = pushed + e.push(stack);
        let ghost values = values + self.4.values();
        let ghost calls = calls + self.4.calls();
        assert(stack@ =~= below + values);
        assert(stack.journal() =~= made + calls);
        let pushed = pushed + f.push(stack);
        let ghost values = values + self.5.values();
        let ghost calls = calls + self.5.calls();
        assert(stack@ =~= below + values);
        assert(stack.journal() =~= made + calls);
        let pushed = pushed + g.push(stack);
        let ghost values = values + self.6.values();
        let ghost calls = calls + self.6.calls();
        assert(stack@ =~= below + values);
        assert(stack.journal() =~= made + calls);
        let pushed = pushed + h.push(stack);
        let ghost values = values + self.7.values();
        let ghost calls = calls + self.7.calls();
        assert(stack@ =~= below + values);
        assert(stack.journal() =~= made + calls);
        let pushed = pushed + i.push(stack);
        let ghost values = values + self.8.values();
        let ghost calls = calls + self.8.calls();
        assert(stack@ =~= below + values);
        assert(stack.journal() =~= made + calls);
        let pushed = pushed + j.push(stack);
        let ghost values = values + self.9.values();
        let ghost calls = calls + self.9.calls();
        assert(stack@ =~= below + values);
        assert(stack.journal() =~= made + calls);
        let pushed = pushed + k.push(stack);
        let ghost values = values + self.10.values();
        let ghost calls = calls + self.10.calls();
        assert(stack@ =~= below + values);
        assert(stack.journal() =~= made + calls);
        let pushed = pushed + l.push(stack);
        let ghost values = values + self.11.values();
        let ghost calls = calls + self.11.calls();
        assert(stack@ =~= below + values);
        assert(stack.journal() =~= made + calls);
        let pushed = pushed + m.push(stack);
        let ghost values = values + self.12.values();
        let ghost calls = calls + self.12.calls();
        assert(stack@ =~= below + values);
        assert(stack.journal() =~= made + calls);
        let pushed = pushed + n.push(stack);
        let ghost values = values + self.13.values();
        let ghost calls = calls + self.13.calls();
        assert(stack@ =~= below + values);
        assert(stack.journal() =~= made + calls);
        let pushed = pushed + o.push(stack);
        let ghost values = values + self.14.values();
        let ghost calls = calls + self.14.calls();
        assert(stack@ =~= below + values);
        assert(stack.journal() =~= made + calls);
        let pushed = pushed + p.push(stack);
        let ghost values = values + self.15.values();
        let ghost calls = calls + self.15.calls();
        assert(stack@ =~= below + values);
        assert(stack.journal() =~= made + calls);
        proof {
            if single(&self.0) && single(&self.1) && single(&self.2) && single(&self.3)
                && single(&self.4) && single(&self.5) && single(&self.6) && single(&self.7)
                && single(&self.8) && single(&self.9) && single(&self.10) && single(&self.11)
                && single(&self.12) && single(&self.13) && single(&self.14) && single(&self.15) {
                assert(values =~= seq![
                    sole(&self.0), sole(&self.1), sole(&self.2), sole(&self.3), sole(&self.4),
                    sole(&self.5), sole(&self.6), sole(&self.7), sole(&self.8), sole(&self.9),
                    sole(&self.10), sole(&self.11), sole(&self.12), sole(&self.13), sole(&self.14),
                    sole(&self.15),
                ]);
            }
        }
        pushed
    }

    proof fn lemma_calls_leave_values(&self, below: Seq<SpecValue>) {
        self.0.lemma_calls_leave_values(below);
        let values = self.0.values();
        let calls = self.0.calls();
        self.1.lemma_calls_leave_values(below + values);
        lemma_replay_concat(below, calls, self.1.calls());
        assert(below + values + self.1.values() =~= below + (values + self.1.values()));
        let values = values + self.1.values();
        let calls = calls + self.1.calls();
        self.2.lemma_calls_leave_values(below + values);
        lemma_replay_concat(below, calls, self.2.calls());
        assert(below + values + self.2.values() =~= below + (values + self.2.values()));
        let values = values + self.2.values();
        let calls = calls + self.2.calls();
        self.3.lemma_calls_leave_values(below + values);
        lemma_replay_concat(below, calls, self.3.calls());
        assert(below + values + self.3.values() =~= below + (values + self.3.values()));
        let values = values + self.3.values();
        let calls = calls + self.3.calls();
        self.4.lemma_calls_leave_values(below + values);
        lemma_replay_concat(below, calls, self.4.calls());
        assert(below + values + self.4.values() =~= below + (values + self.4.values()));
        let values = values + self.4.values();
        let calls = calls + self.4.calls();
        self.5.lemma_calls_leave_values(below + values);
        lemma_replay_concat(below, calls, self.5.calls());
        assert(below + values + self.5.values() =~= below + (values + self.5.values()));
        let values = values + self.5.values();
        let calls = calls + self.5.calls();
        self.6.lemma_calls_leave_values(below + values);
        lemma_replay_concat(below, calls, self.6.calls());
        assert(below + values + self.6.values() =~= below + (values + self.6.values()));
        let values = values + self.6.values();
        let calls = calls + self.6.calls();
        self.7.lemma_calls_leave_values(below + values);
        lemma_replay_concat(below, calls, self.7.calls());
        assert(below + values + self.7.values() =~= below + (values + self.7.values()));
        let values = values + self.7.values();
        let calls = calls + self.7.calls();
        self.8.lemma_calls_leave_values(below + values);
        lemma_replay_concat(below, calls, self.8.calls());
        assert(below + values + self.8.values() =~= below + (values + self.8.values()));
        let values = values + self.8.values();
        let calls = calls + self.8.calls();
        self.9.lemma_calls_leave_values(below + values);
        lemma_replay_concat(below, calls, self.9.calls());
        assert(below + values + self.9.values() =~= below + (values + self.9.values()));
        let values = values + self.9.values();
        let calls = calls + self.9.calls();
        self.10.lemma_calls_leave_values(below + values);
        lemma_replay_concat(below, calls, self.10.calls());
        assert(below + values + self.10.values() =~= below + (values + self.10.values()));
        let values = values + self.10.values();
        let calls = calls + self.10.calls();
        self.11.lemma_calls_leave_values(below + values);
        lemma_replay_concat(below, calls, self.11.calls());
        assert(below + values + self.11.values() =~= below + (values + self.11.values()));
        let values = values + self.11.values();
        let calls = calls + self.11.calls();
        self.12.lemma_calls_leave_values(below + values);
        lemma_replay_concat(below, calls, self.12.calls());
        assert(below + values + self.12.values() =~= below + (values + self.12.values()));
        let values = values + self.12.values();
        let calls = calls + self.12.calls();
        self.13.lemma_calls_leave_values(below + values);
        lemma_replay_concat(below, calls, self.13.calls());
        assert(below + values + self.13.values() =~= below + (values + self.13.values()));
        let values = values + self.13.values();
        let calls = calls + self.13.calls();
        self.14.lemma_calls_leave_values(below + values);
        lemma_replay_concat(below, calls, self.14.calls());
        assert(below + values + self.14.values() =~= below + (values + self.14.values()));
        let values = values + self.14.values();
        let calls = calls + self.14.calls();
        self.15.lemma_calls_leave_values(below + values);
        lemma_replay_concat(below, calls, self.15.calls());
        assert(below + values + self.15.values() =~= below + (values + self.15.values()));
        let values = values + self.15.values();
        let calls = calls + self.15.calls();
    }
}

} // verus!
