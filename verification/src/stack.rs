//! A value stack of the VM, kept on the host's side.

use vstd::prelude::*;
use crate::error::{Error, SpecError};
use crate::value::{Integer, SpecValue, Value};

verus! {

/// One call of a primitive of the VM's stack interface.
#[derive(Debug, PartialEq, Eq)]
pub enum Call {
    PushNil,
    PushBoolean(bool),
    PushInteger(Integer),
    PushNumber(u64),
    PushLString(Vec<u8>),
    CreateTable { narr: i32, nrec: i32 },
    RawSetI { index: i32, n: i32 },
    PushError(Error),
}

/// A [`Call`] as specifications see it.
pub enum SpecCall {
    PushNil,
    PushBoolean(bool),
    PushInteger(int),
    PushNumber(u64),
    PushLString(Seq<u8>),
    CreateTable { narr: int, nrec: int },
    RawSetI { index: int, n: int },
    PushError(SpecError),
}

impl View for Call {
    type V = SpecCall;

    open spec fn view(&self) -> SpecCall {
        match self {
            Call::PushNil => SpecCall::PushNil,
            Call::PushBoolean(b) => SpecCall::PushBoolean(*b),
            Call::PushInteger(n) => SpecCall::PushInteger(*n as int),
            Call::PushNumber(bits) => SpecCall::PushNumber(*bits),
            Call::PushLString(bytes) => SpecCall::PushLString(bytes@),
            Call::CreateTable { narr, nrec } => SpecCall::CreateTable {
                narr: *narr as int,
                nrec: *nrec as int,
            },
            Call::RawSetI { index, n } => SpecCall::RawSetI { index: *index as int, n: *n as int },
            Call::PushError(err) => SpecCall::PushError(err@),
        }
    }
}

/// The position, counted from the bottom and from 0, of the slot that `index` names on a stack
/// of `len` slots: a positive index counts from the bottom and from 1, a negative one from the
/// top, -1 being the top itself.
pub open spec fn slot_of(len: int, index: int) -> int {
    if index > 0 {
        index - 1
    } else {
        len + index
    }
}

/// Whether `index` names a slot of a stack of `len` slots.
pub open spec fn names_slot(len: int, index: int) -> bool {
    index != 0 && 0 <= slot_of(len, index) < len
}

/// The entry of a table under the key `n`; nil where the array part has none.
pub open spec fn raw_get(items: Seq<SpecValue>, n: int) -> SpecValue {
    if 1 <= n <= items.len() {
        items[n - 1]
    } else {
        SpecValue::Nil
    }
}

/// The array part after `value` was stored under the key `n`, which is a key that it has or
/// the first one that it lacks.
pub open spec fn raw_set(items: Seq<SpecValue>, n: int, value: SpecValue) -> Seq<SpecValue>
    recommends
        1 <= n <= items.len() + 1,
{
    if n == items.len() + 1 {
        items.push(value)
    } else {
        items.update(n - 1, value)
    }
}

/// Whether the VM accepts `call` on a stack that holds `s`.
pub open spec fn accepts(s: Seq<SpecValue>, call: SpecCall) -> bool {
    match call {
        SpecCall::CreateTable { narr, nrec } => narr >= 0 && nrec >= 0,
        SpecCall::RawSetI { index, n } => {
            let at = slot_of(s.len() as int, index);
            &&& names_slot(s.len() as int, index)
            &&& at < s.len() - 1
            &&& s[at] matches SpecValue::Table(items)
            &&& 1 <= n <= items.len() + 1
        },
        _ => true,
    }
}

/// What the stack holds after `call`, where it held `s` before and the VM accepts the call.
pub open spec fn step(s: Seq<SpecValue>, call: SpecCall) -> Seq<SpecValue>
    recommends
        accepts(s, call),
{
    match call {
        SpecCall::PushNil => s.push(SpecValue::Nil),
        SpecCall::PushBoolean(b) => s.push(SpecValue::Boolean(b)),
        SpecCall::PushInteger(n) => s.push(SpecValue::Integer(n)),
        SpecCall::PushNumber(bits) => s.push(SpecValue::Number(bits)),
        SpecCall::PushLString(bytes) => s.push(SpecValue::String(bytes)),
        SpecCall::CreateTable { narr, nrec } => s.push(SpecValue::Table(Seq::empty())),
        SpecCall::RawSetI { index, n } => {
            let at = slot_of(s.len() as int, index);
            s.drop_last().update(at, SpecValue::Table(raw_set(s[at]->Table_0, n, s.last())))
        },
        SpecCall::PushError(err) => s.push(SpecValue::Error(err)),
    }
}

/// What the stack holds after the calls of `calls`, made in their order on a stack that held
/// `s`; `None` where the VM does not accept one of them.
pub open spec fn replay(s: Seq<SpecValue>, calls: Seq<SpecCall>) -> Option<Seq<SpecValue>>
    decreases calls.len(),
{
    if calls.len() == 0 {
        Some(s)
    } else {
        match replay(s, calls.drop_last()) {
            Some(t) => if accepts(t, calls.last()) {
                Some(step(t, calls.last()))
            } else {
                None
            },
            None => None,
        }
    }
}

/// One call alone leaves what its step leaves, where the VM accepts it.
pub proof fn lemma_replay_one(s: Seq<SpecValue>, call: SpecCall)
    ensures
        replay(s, seq![call]) == if accepts(s, call) {
            Some(step(s, call))
        } else {
            None::<Seq<SpecValue>>
        },
{
    assert(seq![call].drop_last() =~= Seq::<SpecCall>::empty());
    assert(replay(s, Seq::<SpecCall>::empty()) == Some(s));
}

/// Calls made one after another: what `first` leaves is what `then` starts from.
pub proof fn lemma_replay_concat(s: Seq<SpecValue>, first: Seq<SpecCall>, then: Seq<SpecCall>)
    ensures
        replay(s, first + then) == match replay(s, first) {
            Some(t) => replay(t, then),
            None => None,
        },
    decreases then.len(),
{
    if then.len() == 0 {
        assert(first + then =~= first);
    } else {
        lemma_replay_concat(s, first, then.drop_last());
        assert((first + then).drop_last() =~= first + then.drop_last());
        assert((first + then).last() == then.last());
    }
}

/// A stack of script values on the host's side, with the calls that built it.
///
/// Values are pushed here first. The calls are then made on the VM, in their order, and leave
/// there what this stack holds.
pub struct Stack {
    slots: Vec<Value>,
    journal: Vec<Call>,
}

impl View for Stack {
    type V = Seq<SpecValue>;

    /// The values on the stack, the bottom first.
    closed spec fn view(&self) -> Seq<SpecValue> {
        self.slots@.map_values(|v: Value| v@)
    }
}

impl Stack {
    /// The calls that built the stack, the first one first.
    pub closed spec fn journal(&self) -> Seq<SpecCall> {
        self.journal@.map_values(|c: Call| c@)
    }

    #[verifier::type_invariant]
    spec fn replays(&self) -> bool {
        replay(Seq::empty(), self.journal()) == Some(self@)
    }

    /// An empty stack, on which nothing was called.
    pub fn new() -> (stack: Stack)
        ensures
            stack@ == Seq::<SpecValue>::empty(),
            stack.journal() == Seq::<SpecCall>::empty(),
    {
        let slots: Vec<Value> = Vec::new();
        let journal: Vec<Call> = Vec::new();
        assert(slots@.map_values(|v: Value| v@) =~= Seq::<SpecValue>::empty());
        assert(journal@.map_values(|c: Call| c@) =~= Seq::<SpecCall>::empty());
        Stack { slots, journal }
    }

    /// The number of values on the stack.
    pub fn len(&self) -> (n: usize)
        ensures
            n == self@.len(),
    {
        self.slots.len()
    }

    /// Makes `call`, which pushes `value` and leaves the rest of the stack as it is.
    fn push_value(&mut self, value: Value, call: Call)
        requires
            accepts(old(self)@, call@),
            step(old(self)@, call@) == old(self)@.push(value@),
        ensures
            final(self)@ == old(self)@.push(value@),
            final(self).journal() == old(self).journal().push(call@),
    {
        let mut taken = Stack::new();
        core::mem::swap(self, &mut taken);
        proof {
            use_type_invariant(&taken);
        }
        let Stack { mut slots, mut journal } = taken;
        let ghost before = journal@.map_values(|c: Call| c@);
        slots.push(value);
        journal.push(call);
        proof {
            let after = journal@.map_values(|c: Call| c@);
            assert(after =~= before.push(call@));
            assert(after.drop_last() =~= before);
            assert(slots@.map_values(|v: Value| v@) =~= old(self)@.push(value@));
        }
        *self = Stack { slots, journal };
    }

    /// The value in the slot that `index` names, if it names one.
    pub fn get(&self, index: i32) -> (value: Option<&Value>)
        ensures
            names_slot(self@.len() as int, index as int) ==> value.is_some() && value.unwrap()@
                == self@[slot_of(self@.len() as int, index as int)],
            !names_slot(self@.len() as int, index as int) ==> value.is_none(),
    {
        let len = self.slots.len();
        if index > 0 {
            let at: usize = (index - 1) as usize;
            if at < len {
                Some(&self.slots[at])
            } else {
                None
            }
        } else if index < 0 {
            let back: usize = (-(index as i64)) as usize;
            if back <= len {
                Some(&self.slots[len - back])
            } else {
                None
            }
        } else {
            None
        }
    }

    /// The values on the stack, the bottom first.
    pub fn values(&self) -> (values: &Vec<Value>)
        ensures
            values@.map_values(|v: Value| v@) == self@,
    {
        &self.slots
    }

    /// The calls that built the stack, the first one first. Made in this order on an empty
    /// stack, they are all accepted and leave what this stack holds.
    pub fn calls(&self) -> (calls: &Vec<Call>)
        ensures
            calls@.map_values(|c: Call| c@) == self.journal(),
            replay(Seq::empty(), self.journal()) == Some(self@),
    {
        proof {
            use_type_invariant(self);
        }
        &self.journal
    }

    /// Pushes nil.
    pub fn push_nil(&mut self)
        ensures
            final(self)@ == old(self)@.push(SpecValue::Nil),
            final(self).journal() == old(self).journal().push(SpecCall::PushNil),
    {
        self.push_value(Value::Nil, Call::PushNil);
    }

    /// Pushes the boolean `b`.
    pub fn push_boolean(&mut self, b: bool)
        ensures
            final(self)@ == old(self)@.push(SpecValue::Boolean(b)),
            final(self).journal() == old(self).journal().push(SpecCall::PushBoolean(b)),
    {
        self.push_value(Value::Boolean(b), Call::PushBoolean(b));
    }

    /// Pushes the integer `n`.
    pub fn push_integer(&mut self, n: Integer)
        ensures
            final(self)@ == old(self)@.push(SpecValue::Integer(n as int)),
            final(self).journal() == old(self).journal().push(SpecCall::PushInteger(n as int)),
    {
        self.push_value(Value::Integer(n), Call::PushInteger(n));
    }

    /// Pushes the floating-point number whose double-precision encoding is `bits`.
    pub fn push_number(&mut self, bits: u64)
        ensures
            final(self)@ == old(self)@.push(SpecValue::Number(bits)),
            final(self).journal() == old(self).journal().push(SpecCall::PushNumber(bits)),
    {
        self.push_value(Value::Number(bits), Call::PushNumber(bits));
    }

    /// Pushes a string made of the bytes of `bytes`, all of them and no others.
    pub fn push_lstring(&mut self, bytes: &[u8])
        ensures
            final(self)@ == old(self)@.push(SpecValue::String(bytes@)),
            final(self).journal() == old(self).journal().push(SpecCall::PushLString(bytes@)),
    {
        self.push_value(Value::String(copy_of(bytes)), Call::PushLString(copy_of(bytes)));
    }

    /// Pushes a new, empty table. `narr` and `nrec` tell the VM how many entries to make room
    /// for, in the array part and outside it.
    pub fn create_table(&mut self, narr: i32, nrec: i32)
        requires
            narr >= 0,
            nrec >= 0,
        ensures
            final(self)@ == old(self)@.push(SpecValue::Table(Seq::empty())),
            final(self).journal() == old(self).journal().push(
                SpecCall::CreateTable { narr: narr as int, nrec: nrec as int },
            ),
    {
        let items: Vec<Value> = Vec::new();
        assert(Value::Table(items)@ == SpecValue::Table(Seq::empty())) by {
            assert(Value::Table(items)@->Table_0 =~= Seq::<SpecValue>::empty());
        }
        self.push_value(Value::Table(items), Call::CreateTable { narr, nrec });
    }

    /// Stores the value on top of the stack in the table that `index` names, under the key
    /// `n`, and pops the value.
    pub fn raw_seti(&mut self, index: i32, n: i32)
        requires
            accepts(old(self)@, SpecCall::RawSetI { index: index as int, n: n as int }),
        ensures
            final(self)@ == step(old(self)@, SpecCall::RawSetI { index: index as int, n: n as int }),
            final(self).journal() == old(self).journal().push(
                SpecCall::RawSetI { index: index as int, n: n as int },
            ),
    {
        let mut taken = Stack::new();
        core::mem::swap(self, &mut taken);
        proof {
            use_type_invariant(&taken);
        }
        let Stack { mut slots, mut journal } = taken;
        let ghost call = SpecCall::RawSetI { index: index as int, n: n as int };
        let ghost before = slots@.map_values(|v: Value| v@);
        let ghost calls = journal@.map_values(|c: Call| c@);
        let len = slots.len();
        let at: usize = if index > 0 {
            (index - 1) as usize
        } else {
            len - (-(index as i64)) as usize
        };
        assert(at == slot_of(before.len() as int, index as int));
        assert(before[at as int] == slots@[at as int]@);
        let value = slots.pop().unwrap();
        let mut table = Value::Nil;
        core::mem::swap(&mut slots[at], &mut table);
        assert(table == old(self).slots@[at as int]);
        match table {
            Value::Table(items) => {
                let ghost entries = Value::Table(items)@->Table_0;
                assert(entries.len() == items@.len());
                let mut items = items;
                let key: usize = n as usize;
                if key - 1 == items.len() {
                    items.push(value);
                } else {
                    items[key - 1] = value;
                }
                assert(Value::Table(items)@->Table_0 =~= raw_set(entries, n as int, value@));
                slots[at] = Value::Table(items);
            },
            _ => {
                assert(false);
            },
        }
        journal.push(Call::RawSetI { index, n });
        proof {
            let after = journal@.map_values(|c: Call| c@);
            assert(after =~= calls.push(call));
            assert(after.drop_last() =~= calls);
            assert(slots@.map_values(|v: Value| v@) =~= step(before, call));
        }
        *self = Stack { slots, journal };
    }

    /// Hands `err` to the script: pushes the one error value that stands for it, and returns
    /// the number of values pushed.
    pub fn push_error(&mut self, err: Error) -> (n: i32)
        ensures
            final(self)@ == old(self)@.push(SpecValue::Error(err@)),
            final(self).journal() == old(self).journal().push(SpecCall::PushError(err@)),
            n == 1,
    {
        let call = Call::PushError(err.clone());
        self.push_value(Value::Error(err), call);
        1
    }
}

/// A vector of the bytes of `bytes`.
fn copy_of(bytes: &[u8]) -> (copy: Vec<u8>)
    ensures
        copy@ == bytes@,
{
    let mut copy: Vec<u8> = Vec::with_capacity(bytes.len());
    let mut i: usize = 0;
    while i < bytes.len()
        invariant
            i <= bytes@.len(),
            copy@ == bytes@.subrange(0, i as int),
        decreases bytes@.len() - i,
    {
        copy.push(bytes[i]);
        i += 1;
    }
    copy
}

} // verus!

