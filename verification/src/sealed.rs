use vstd::prelude::*;

verus! {

/// Public but unreachable from other crates: it limits the set of types that can
/// implement the signal traits to the impls written in this crate.
pub trait Sealed {}

impl Sealed for bool {}
impl Sealed for u8 {}
impl Sealed for i8 {}
impl Sealed for u16 {}
impl Sealed for i16 {}
impl Sealed for u32 {}
impl Sealed for i32 {}

} // verus!
