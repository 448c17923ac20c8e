//! The conversion of host values into script values on a stack.

use core::num::TryFromIntError;
use vstd::prelude::*;
use vstd::utf8::encode_utf8;
use crate::error::{Error, SpecError, OUT_OF_RANGE};
use crate::stack::{
    lemma_replay_concat, lemma_replay_one, raw_get, replay, step, SpecCall, Stack,
};
use crate::value::{Integer, Number, SpecValue};

verus! {

/// A host value that can be pushed onto a stack of the VM.
pub trait Pushable: Sized {
    /// Whether the value can be pushed at all.
    spec fn pushable(&self) -> bool;

    /// The script values that stand for the value, in the order in which they are pushed.
    spec fn values(&self) -> Seq<SpecValue>;

    /// The calls that push the value, in the order in which they are made.
    spec fn calls(&self) -> Seq<SpecCall>;

    /// Pushes all its values onto `stack`, above what is there, and returns the number of
    /// values that it pushed.
    fn push(self, stack: &mut Stack) -> (n: i32)
        requires
            self.pushable(),
        ensures
            final(stack)@ == old(stack)@ + self.values(),
            final(stack).journal() == old(stack).journal() + self.calls(),
            n == self.values().len(),
            final(stack)@.len() == old(stack)@.len() + n,
    ;

    /// The VM accepts the calls whatever its stack holds, and they leave the values above
    /// what was there.
    proof fn lemma_calls_leave_values(&self, below: Seq<SpecValue>)
        requires
            self.pushable(),
        ensures
            replay(below, self.calls()) == Some(below + self.values()),
    ;
}

impl Pushable for () {
    open spec fn pushable(&self) -> bool {
        true
    }

    open spec fn values(&self) -> Seq<SpecValue> {
        seq![SpecValue::Nil]
    }

    open spec fn calls(&self) -> Seq<SpecCall> {
        seq![SpecCall::PushNil]
    }

    /// Pushes nil.
    fn push(self, stack: &mut Stack) -> (n: i32)
        ensures
            n == 1,
    {
        stack.push_nil();
        assert(stack@ =~= old(stack)@ + self.values());
        assert(stack.journal() =~= old(stack).journal() + self.calls());
        1
    }

    proof fn lemma_calls_leave_values(&self, below: Seq<SpecValue>) {
        lemma_replay_one(below, SpecCall::PushNil);
        assert(below + self.values() =~= below.push(self.values()[0]));
    }
}

impl Pushable for bool {
    open spec fn pushable(&self) -> bool {
        true
    }

    open spec fn values(&self) -> Seq<SpecValue> {
        seq![SpecValue::Boolean(*self)]
    }

    open spec fn calls(&self) -> Seq<SpecCall> {
        seq![SpecCall::PushBoolean(*self)]
    }

    /// Pushes the boolean.
    fn push(self, stack: &mut Stack) -> (n: i32)
        ensures
            n == 1,
    {
        stack.push_boolean(self);
        assert(stack@ =~= old(stack)@ + self.values());
        assert(stack.journal() =~= old(stack).journal() + self.calls());
        1
    }

    proof fn lemma_calls_leave_values(&self, below: Seq<SpecValue>) {
        lemma_replay_one(below, SpecCall::PushBoolean(*self));
        assert(below + self.values() =~= below.push(self.values()[0]));
    }
}

impl Pushable for Integer {
    open spec fn pushable(&self) -> bool {
        true
    }

    open spec fn values(&self) -> Seq<SpecValue> {
        seq![SpecValue::Integer(*self as int)]
    }

    open spec fn calls(&self) -> Seq<SpecCall> {
        seq![SpecCall::PushInteger(*self as int)]
    }

    /// Pushes the integer as it is.
    fn push(self, stack: &mut Stack) -> (n: i32)
        ensures
            n == 1,
    {
        stack.push_integer(self);
        assert(stack@ =~= old(stack)@ + self.values());
        assert(stack.journal() =~= old(stack).journal() + self.calls());
        1
    }

    proof fn lemma_calls_leave_values(&self, below: Seq<SpecValue>) {
        lemma_replay_one(below, SpecCall::PushInteger(*self as int));
        assert(below + self.values() =~= below.push(self.values()[0]));
    }
}

/// Whether the VM's integer can hold `n`.
pub open spec fn fits(n: int) -> bool {
    Integer::MIN <= n <= Integer::MAX
}

/// The error for an integer of the host type `ty` that the VM's integer cannot hold.
pub open spec fn out_of_range(ty: Seq<char>) -> SpecError {
    SpecError::Push { ty, message: OUT_OF_RANGE@ }
}

/// What stands for the integer `n` of the host type `ty`: the integer where the VM's can hold
/// it, the error otherwise.
pub open spec fn narrowed_values(n: int, ty: Seq<char>) -> Seq<SpecValue> {
    if fits(n) {
        seq![SpecValue::Integer(n)]
    } else {
        seq![SpecValue::Error(out_of_range(ty))]
    }
}

/// The call that pushes what stands for the integer `n` of the host type `ty`.
pub open spec fn narrowed_calls(n: int, ty: Seq<char>) -> Seq<SpecCall> {
    if fits(n) {
        seq![SpecCall::PushInteger(n)]
    } else {
        seq![SpecCall::PushError(out_of_range(ty))]
    }
}

/// The call that pushes what stands for the integer `n` of the host type `ty` is accepted
/// whatever the stack holds, and leaves that value above what was there.
pub proof fn lemma_narrowed_calls_leave_values(n: int, ty: Seq<char>, below: Seq<SpecValue>)
    ensures
        replay(below, narrowed_calls(n, ty)) == Some(below + narrowed_values(n, ty)),
{
    lemma_replay_one(below, narrowed_calls(n, ty)[0]);
    assert(below + narrowed_values(n, ty) =~= below.push(narrowed_values(n, ty)[0]));
}

/// The outcome of a checked conversion from the host type `ty`, with the failure turned into
/// the error that names the type.
fn or_out_of_range(n: Result<Integer, TryFromIntError>, ty: &'static str) -> (r: Result<
    Integer,
    Error,
>)
    ensures
        n is Ok ==> r is Ok && r->Ok_0 == n->Ok_0,
        n is Err ==> r is Err && r->Err_0@ == out_of_range(ty@),
{
    match n {
        Ok(n) => Ok(n),
        Err(_) => Err(Error::push_error(ty, OUT_OF_RANGE)),
    }
}

impl Pushable for i8 {
    open spec fn pushable(&self) -> bool {
        true
    }

    open spec fn values(&self) -> Seq<SpecValue> {
        seq![SpecValue::Integer(*self as int)]
    }

    open spec fn calls(&self) -> Seq<SpecCall> {
        seq![SpecCall::PushInteger(*self as int)]
    }

    /// Widens the integer to the VM's and pushes it.
    fn push(self, stack: &mut Stack) -> (n: i32)
        ensures
            n == 1,
    {
        let n: Integer = self as Integer;
        n.push(stack)
    }

    proof fn lemma_calls_leave_values(&self, below: Seq<SpecValue>) {
        lemma_replay_one(below, SpecCall::PushInteger(*self as int));
        assert(below + self.values() =~= below.push(self.values()[0]));
    }
}

impl Pushable for u8 {
    open spec fn pushable(&self) -> bool {
        true
    }

    open spec fn values(&self) -> Seq<SpecValue> {
        seq![SpecValue::Integer(*self as int)]
    }

    open spec fn calls(&self) -> Seq<SpecCall> {
        seq![SpecCall::PushInteger(*self as int)]
    }

    /// Widens the integer to the VM's and pushes it.
    fn push(self, stack: &mut Stack) -> (n: i32)
        ensures
            n == 1,
    {
        let n: Integer = self as Integer;
        n.push(stack)
    }

    proof fn lemma_calls_leave_values(&self, below: Seq<SpecValue>) {
        lemma_replay_one(below, SpecCall::PushInteger(*self as int));
        assert(below + self.values() =~= below.push(self.values()[0]));
    }
}

impl Pushable for i16 {
    open spec fn pushable(&self) -> bool {
        true
    }

    open spec fn values(&self) -> Seq<SpecValue> {
        seq![SpecValue::Integer(*self as int)]
    }

    open spec fn calls(&self) -> Seq<SpecCall> {
        seq![SpecCall::PushInteger(*self as int)]
    }

    /// Widens the integer to the VM's and pushes it.
    fn push(self, stack: &mut Stack) -> (n: i32)
        ensures
            n == 1,
    {
        let n: Integer = self as Integer;
        n.push(stack)
    }

    proof fn lemma_calls_leave_values(&self, below: Seq<SpecValue>) {
        lemma_replay_one(below, SpecCall::PushInteger(*self as int));
        assert(below + self.values() =~= below.push(self.values()[0]));
    }
}

impl Pushable for u16 {
    open spec fn pushable(&self) -> bool {
        true
    }

    open spec fn values(&self) -> Seq<SpecValue> {
        narrowed_values(*self as int, "u16"@)
    }

    open spec fn calls(&self) -> Seq<SpecCall> {
        narrowed_calls(*self as int, "u16"@)
    }

    /// Pushes the integer where the VM's integer can hold it, and otherwise the error that
    /// names `u16`.
    fn push(self, stack: &mut Stack) -> (n: i32)
        ensures
            n == 1,
            fits(self as int) ==> final(stack)@ == old(stack)@.push(
                SpecValue::Integer(self as int),
            ),
            !fits(self as int) ==> final(stack)@ == old(stack)@.push(
                SpecValue::Error(out_of_range("u16"@)),
            ),
    {
        let n: Result<Integer, Error> = or_out_of_range(Integer::try_from(self as u32), "u16");
        n.push(stack)
    }

    proof fn lemma_calls_leave_values(&self, below: Seq<SpecValue>) {
        lemma_narrowed_calls_leave_values(*self as int, "u16"@, below);
    }
}

impl Pushable for i32 {
    open spec fn pushable(&self) -> bool {
        true
    }

    open spec fn values(&self) -> Seq<SpecValue> {
        narrowed_values(*self as int, "i32"@)
    }

    open spec fn calls(&self) -> Seq<SpecCall> {
        narrowed_calls(*self as int, "i32"@)
    }

    /// Pushes the integer where the VM's integer can hold it, and otherwise the error that
    /// names `i32`.
    fn push(self, stack: &mut Stack) -> (n: i32)
        ensures
            n == 1,
            fits(self as int) ==> final(stack)@ == old(stack)@.push(
                SpecValue::Integer(self as int),
            ),
            !fits(self as int) ==> final(stack)@ == old(stack)@.push(
                SpecValue::Error(out_of_range("i32"@)),
            ),
    {
        let n: Result<Integer, Error> = or_out_of_range(Integer::try_from(self), "i32");
        n.push(stack)
    }

    proof fn lemma_calls_leave_values(&self, below: Seq<SpecValue>) {
        lemma_narrowed_calls_leave_values(*self as int, "i32"@, below);
    }
}

impl Pushable for u32 {
    open spec fn pushable(&self) -> bool {
        true
    }

    open spec fn values(&self) -> Seq<SpecValue> {
        narrowed_values(*self as int, "u32"@)
    }

    open spec fn calls(&self) -> Seq<SpecCall> {
        narrowed_calls(*self as int, "u32"@)
    }

    /// Pushes the integer where the VM's integer can hold it, and otherwise the error that
    /// names `u32`.
    fn push(self, stack: &mut Stack) -> (n: i32)
        ensures
            n == 1,
            fits(self as int) ==> final(stack)@ == old(stack)@.push(
                SpecValue::Integer(self as int),
            ),
            !fits(self as int) ==> final(stack)@ == old(stack)@.push(
                SpecValue::Error(out_of_range("u32"@)),
            ),
    {
        let n: Result<Integer, Error> = or_out_of_range(Integer::try_from(self), "u32");
        n.push(stack)
    }

    proof fn lemma_calls_leave_values(&self, below: Seq<SpecValue>) {
        lemma_narrowed_calls_leave_values(*self as int, "u32"@, below);
    }
}

impl Pushable for i64 {
    open spec fn pushable(&self) -> bool {
        true
    }

    open spec fn values(&self) -> Seq<SpecValue> {
        narrowed_values(*self as int, "i64"@)
    }

    open spec fn calls(&self) -> Seq<SpecCall> {
        narrowed_calls(*self as int, "i64"@)
    }

    /// Pushes the integer where the VM's integer can hold it, and otherwise the error that
    /// names `i64`.
    fn push(self, stack: &mut Stack) -> (n: i32)
        ensures
            n == 1,
            fits(self as int) ==> final(stack)@ == old(stack)@.push(
                SpecValue::Integer(self as int),
            ),
            !fits(self as int) ==> final(stack)@ == old(stack)@.push(
                SpecValue::Error(out_of_range("i64"@)),
            ),
    {
        let n: Result<Integer, Error> = or_out_of_range(Integer::try_from(self), "i64");
        n.push(stack)
    }

    proof fn lemma_calls_leave_values(&self, below: Seq<SpecValue>) {
        lemma_narrowed_calls_leave_values(*self as int, "i64"@, below);
    }
}

impl Pushable for u64 {
    open spec fn pushable(&self) -> bool {
        true
    }

    open spec fn values(&self) -> Seq<SpecValue> {
        narrowed_values(*self as int, "u64"@)
    }

    open spec fn calls(&self) -> Seq<SpecCall> {
        narrowed_calls(*self as int, "u64"@)
    }

    /// Pushes the integer where the VM's integer can hold it, and otherwise the error that
    /// names `u64`.
    fn push(self, stack: &mut Stack) -> (n: i32)
        ensures
            n == 1,
            fits(self as int) ==> final(stack)@ == old(stack)@.push(
                SpecValue::Integer(self as int),
            ),
            !fits(self as int) ==> final(stack)@ == old(stack)@.push(
                SpecValue::Error(out_of_range("u64"@)),
            ),
    {
        let n: Result<Integer, Error> = or_out_of_range(Integer::try_from(self), "u64");
        n.push(stack)
    }

    proof fn lemma_calls_leave_values(&self, below: Seq<SpecValue>) {
        lemma_narrowed_calls_leave_values(*self as int, "u64"@, below);
    }
}

impl Pushable for usize {
    open spec fn pushable(&self) -> bool {
        true
    }

    open spec fn values(&self) -> Seq<SpecValue> {
        narrowed_values(*self as int, "usize"@)
    }

    open spec fn calls(&self) -> Seq<SpecCall> {
        narrowed_calls(*self as int, "usize"@)
    }

    /// Pushes the integer where the VM's integer can hold it, and otherwise the error that
    /// names `usize`.
    fn push(self, stack: &mut Stack) -> (n: i32)
        ensures
            n == 1,
            fits(self as int) ==> final(stack)@ == old(stack)@.push(
                SpecValue::Integer(self as int),
            ),
            !fits(self as int) ==> final(stack)@ == old(stack)@.push(
                SpecValue::Error(out_of_range("usize"@)),
            ),
    {
        let n: Result<Integer, Error> = or_out_of_range(Integer::try_from(self as u64), "usize");
        n.push(stack)
    }

    proof fn lemma_calls_leave_values(&self, below: Seq<SpecValue>) {
        lemma_narrowed_calls_leave_values(*self as int, "usize"@, below);
    }
}

impl Pushable for Number {
    open spec fn pushable(&self) -> bool {
        true
    }

    open spec fn values(&self) -> Seq<SpecValue> {
        seq![SpecValue::Number(self.bits)]
    }

    open spec fn calls(&self) -> Seq<SpecCall> {
        seq![SpecCall::PushNumber(self.bits)]
    }

    /// Pushes the number as it is.
    fn push(self, stack: &mut Stack) -> (n: i32)
        ensures
            n == 1,
    {
        stack.push_number(self.bits);
        assert(stack@ =~= old(stack)@ + self.values());
        assert(stack.journal() =~= old(stack).journal() + self.calls());
        1
    }

    proof fn lemma_calls_leave_values(&self, below: Seq<SpecValue>) {
        lemma_replay_one(below, SpecCall::PushNumber(self.bits));
        assert(below + self.values() =~= below.push(self.values()[0]));
    }
}

impl Pushable for String {
    open spec fn pushable(&self) -> bool {
        true
    }

    open spec fn values(&self) -> Seq<SpecValue> {
        seq![SpecValue::String(encode_utf8(self@))]
    }

    open spec fn calls(&self) -> Seq<SpecCall> {
        seq![SpecCall::PushLString(encode_utf8(self@))]
    }

    /// Pushes the bytes of the text as one string: as many bytes as the text has, a zero
    /// byte like any other.
    fn push(self, stack: &mut Stack) -> (n: i32)
        ensures
            n == 1,
    {
        stack.push_lstring(self.as_str().as_bytes());
        assert(stack@ =~= old(stack)@ + self.values());
        assert(stack.journal() =~= old(stack).journal() + self.calls());
        1
    }

    proof fn lemma_calls_leave_values(&self, below: Seq<SpecValue>) {
        lemma_replay_one(below, SpecCall::PushLString(encode_utf8(self@)));
        assert(below + self.values() =~= below.push(self.values()[0]));
    }
}

impl<T: Pushable> Pushable for Option<T> {
    open spec fn pushable(&self) -> bool {
        match self {
            Some(t) => t.pushable(),
            None => true,
        }
    }

    open spec fn values(&self) -> Seq<SpecValue> {
        match self {
            Some(t) => t.values(),
            None => ().values(),
        }
    }

    open spec fn calls(&self) -> Seq<SpecCall> {
        match self {
            Some(t) => t.calls(),
            None => ().calls(),
        }
    }

    /// Pushes the value that is there, as that value pushes itself, and nil where none is.
    fn push(self, stack: &mut Stack) -> (n: i32)
        ensures
            self is None ==> n == 1 && final(stack)@ == old(stack)@.push(SpecValue::Nil),
    {
        match self {
            Some(t) => t.push(stack),
            None => ().push(stack),
        }
    }

    proof fn lemma_calls_leave_values(&self, below: Seq<SpecValue>) {
        match self {
            Some(t) => t.lemma_calls_leave_values(below),
            None => ().lemma_calls_leave_values(below),
        }
    }
}

impl<T: Pushable> Pushable for Result<T, Error> {
    open spec fn pushable(&self) -> bool {
        match self {
            Ok(value) => value.pushable(),
            Err(_) => true,
        }
    }

    open spec fn values(&self) -> Seq<SpecValue> {
        match self {
            Ok(value) => value.values(),
            Err(err) => seq![SpecValue::Error(err@)],
        }
    }

    open spec fn calls(&self) -> Seq<SpecCall> {
        match self {
            Ok(value) => value.calls(),
            Err(err) => seq![SpecCall::PushError(err@)],
        }
    }

    /// Pushes the value of a success, as that value pushes itself, and for a failure the one
    /// error value that stands for it, with nothing of a success beside it.
    fn push(self, stack: &mut Stack) -> (n: i32)
        ensures
            self matches Err(err) ==> n == 1 && final(stack)@ == old(stack)@.push(
                SpecValue::Error(err@),
            ),
    {
        match self {
            Ok(value) => value.push(stack),
            Err(err) => {
                let n = stack.push_error(err);
                assert(stack@ =~= old(stack)@ + self.values());
                assert(stack.journal() =~= old(stack).journal() + self.calls());
                n
            },
        }
    }

    proof fn lemma_calls_leave_values(&self, below: Seq<SpecValue>) {
        match self {
            Ok(value) => value.lemma_calls_leave_values(below),
            Err(err) => {
                lemma_replay_one(below, SpecCall::PushError(err@));
                assert(below + self.values() =~= below.push(SpecValue::Error(err@)));
            },
        }
    }
}

/// Whether `value` has one value and no more.
pub open spec fn single<T: Pushable>(value: &T) -> bool {
    value.values().len() == 1
}

/// The value of a `value` that has one.
pub open spec fn sole<T: Pushable>(value: &T) -> SpecValue
    recommends
        single(value),
{
    value.values()[0]
}

/// The array part of the table that stands for the sequence `items`: each element by its one
/// value, in the order of the sequence.
pub open spec fn entries_of<T: Pushable>(items: Seq<T>) -> Seq<SpecValue> {
    Seq::new(items.len(), |i: int| sole(&items[i]))
}

/// The calls that store the first `k` elements of `items` in the table on top of the stack:
/// for each in turn those that push it, then the one that stores it under its key, which is
/// its place in the sequence, counted from 1.
pub open spec fn filling<T: Pushable>(items: Seq<T>, k: nat) -> Seq<SpecCall>
    decreases k,
{
    if k == 0 {
        Seq::empty()
    } else {
        filling(items, (k - 1) as nat) + items[k - 1].calls() + seq![
            SpecCall::RawSetI { index: -2, n: k as int },
        ]
    }
}

/// On a stack with a new table on top, the calls that store the first `k` elements of `items`
/// are accepted and leave the table with these elements, in their order, and nothing beside
/// it.
pub proof fn lemma_filling_leaves_entries<T: Pushable>(
    items: Seq<T>,
    k: nat,
    below: Seq<SpecValue>,
)
    requires
        k <= items.len(),
        forall|i: int| 0 <= i < items.len() ==> (#[trigger] items[i]).pushable() && single(&items[i]),
    ensures
        replay(below.push(SpecValue::Table(Seq::empty())), filling(items, k)) == Some(
            below.push(SpecValue::Table(entries_of(items.take(k as int)))),
        ),
    decreases k,
{
    let start = below.push(SpecValue::Table(Seq::empty()));
    if k == 0 {
        assert(entries_of(items.take(0)) =~= Seq::<SpecValue>::empty());
    } else {
        let item = items[k - 1];
        let before = filling(items, (k - 1) as nat);
        let filled = entries_of(items.take(k - 1));
        let table = below.push(SpecValue::Table(filled));
        let store = SpecCall::RawSetI { index: -2, n: k as int };
        lemma_filling_leaves_entries(items, (k - 1) as nat, below);
        item.lemma_calls_leave_values(table);
        lemma_replay_concat(start, before, item.calls());
        assert(table + item.values() =~= table.push(sole(&item)));
        lemma_replay_one(table.push(sole(&item)), store);
        lemma_replay_concat(start, before + item.calls(), seq![store]);
        assert(entries_of(items.take(k as int)) =~= filled.push(sole(&item)));
        assert(step(table.push(sole(&item)), store) =~= below.push(
            SpecValue::Table(entries_of(items.take(k as int))),
        ));
    }
}

impl<T: Pushable> Pushable for Vec<T> {
    /// A sequence can be pushed where a key of the VM can count its elements and each of them
    /// can be pushed and has one value.
    open spec fn pushable(&self) -> bool {
        &&& self@.len() <= i32::MAX
        &&& forall|i: int|
            0 <= i < self@.len() ==> (#[trigger] self@[i]).pushable() && single(&self@[i])
    }

    open spec fn values(&self) -> Seq<SpecValue> {
        seq![SpecValue::Table(entries_of(self@))]
    }

    open spec fn calls(&self) -> Seq<SpecCall> {
        seq![SpecCall::CreateTable { narr: self@.len() as int, nrec: 0 }] + filling(
            self@,
            self@.len(),
        )
    }

    /// Pushes one table that holds the elements in their order, the first under the key 1.
    /// The table is made with room for as many entries as the sequence has elements.
    fn push(self, stack: &mut Stack) -> (n: i32)
        ensures
            n == 1,
            final(stack)@.last() matches SpecValue::Table(entries) && entries.len() == self@.len()
                && forall|key: int|
                1 <= key <= self@.len() ==> raw_get(entries, key) == sole(&#[trigger] self@[key - 1]),
    {
        let ghost items = self@;
        let ghost below = stack@;
        let ghost made = stack.journal();
        let len = self.len();
        stack.create_table(len as i32, 0);
        assert(entries_of(items.take(0)) =~= Seq::<SpecValue>::empty());
        let mut key: i32 = 0;
        for item in it: self.into_iter()
            invariant
                it.seq() == items,
                items.len() == len <= i32::MAX,
                key == it.index(),
                forall|i: int|
                    0 <= i < items.len() ==> (#[trigger] items[i]).pushable() && single(&items[i]),
                stack@ == below.push(SpecValue::Table(entries_of(items.take(key as int)))),
                stack.journal() == made + seq![
                    SpecCall::CreateTable { narr: len as int, nrec: 0 },
                ] + filling(items, key as nat),
        {
            let ghost filled = entries_of(items.take(key as int));
            let ghost called = stack.journal();
            assert(item == items[key as int]);
            item.push(stack);
            key = key + 1;
            stack.raw_seti(-2, key);
            proof {
                assert(entries_of(items.take(key as int)) =~= filled.push(sole(&item)));
                assert(stack@ =~= below.push(
                    SpecValue::Table(entries_of(items.take(key as int))),
                ));
                assert(stack.journal() =~= called + item.calls() + seq![
                    SpecCall::RawSetI { index: -2, n: key as int },
                ]);
                assert(stack.journal() =~= made + seq![
                    SpecCall::CreateTable { narr: len as int, nrec: 0 },
                ] + filling(items, key as nat));
            }
        }
        proof {
            assert(items.take(key as int) =~= items);
            assert(stack@ =~= below + self.values());
            assert(stack.journal() =~= made + self.calls());
        }
        1
    }

    proof fn lemma_calls_leave_values(&self, below: Seq<SpecValue>) {
        let made = SpecCall::CreateTable { narr: self@.len() as int, nrec: 0 };
        lemma_replay_one(below, made);
        lemma_filling_leaves_entries(self@, self@.len(), below);
        lemma_replay_concat(below, seq![made], filling(self@, self@.len()));
        assert(self@.take(self@.len() as int) =~= self@);
        assert(below + self.values() =~= below.push(SpecValue::Table(entries_of(self@))));
    }
}

} // verus!
