//! The values of the script, as the VM holds them.

use vstd::prelude::*;
use crate::error::{Error, SpecError};

verus! {

/// The VM's native integer.
pub type Integer = isize;

/// A floating-point number of the VM, held by the bits of its double-precision encoding.
#[derive(Debug, Clone, Copy, PartialEq, Eq)]
pub struct Number {
    pub bits: u64,
}

/// A value of the script.
#[derive(Debug, PartialEq, Eq)]
pub enum Value {
    Nil,
    Boolean(bool),
    Integer(Integer),
    /// A floating-point number, by the bits of its double-precision encoding.
    Number(u64),
    /// A byte string; it has a length of its own and may hold any byte.
    String(Vec<u8>),
    /// The array part of a table: the entry under key `n` is `items[n - 1]`.
    Table(Vec<Value>),
    /// An error raised for the script to catch.
    Error(Error),
}

/// A [`Value`] as specifications see it.
pub enum SpecValue {
    Nil,
    Boolean(bool),
    Integer(int),
    Number(u64),
    String(Seq<u8>),
    Table(Seq<SpecValue>),
    Error(SpecError),
}

impl Value {
    /// What the value is, with sequences in place of vectors.
    pub open spec fn spec_value(&self) -> SpecValue
        decreases self,
    {
        match self {
            Value::Nil => SpecValue::Nil,
            Value::Boolean(b) => SpecValue::Boolean(*b),
            Value::Integer(n) => SpecValue::Integer(*n as int),
            Value::Number(bits) => SpecValue::Number(*bits),
            Value::String(bytes) => SpecValue::String(bytes@),
            Value::Table(items) => SpecValue::Table(
                Seq::new(
                    items@.len(),
                    |i: int|
                        if 0 <= i < items@.len() {
                            items@[i].spec_value()
                        } else {
                            SpecValue::Nil
                        },
                ),
            ),
            Value::Error(err) => SpecValue::Error(err@),
        }
    }
}

impl View for Value {
    type V = SpecValue;

    open spec fn view(&self) -> SpecValue {
        self.spec_value()
    }
}

} // verus!
