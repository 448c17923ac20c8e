//! Marshalling of host values onto the value stack of an embedded Lua virtual machine.
//!
//! A host value that implements [`Pushable`] pushes itself onto a [`Stack`], which holds the
//! script values that stand for it and the calls of the VM's primitives that put them there.

pub mod error;
pub mod laws;
pub mod pushable;
pub mod stack;
pub mod tuple;
pub mod value;

pub use crate::error::Error;
pub use crate::pushable::Pushable;
pub use crate::stack::{Call, Stack};
pub use crate::value::{Integer, Number, Value};
