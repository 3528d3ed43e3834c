//! A module with no errors, warnings or hints.
use vstd::prelude::*;

verus! {

/// Adds two numbers.
pub fn add(a: i32, b: i32) -> (r: i32)
    requires
        i32::MIN <= a + b <= i32::MAX,
    ensures
        r == a + b,
{
    a + b
}

/// A running value.
#[derive(Debug, Clone, PartialEq)]
pub struct Calculator {
    value: i32,
}

impl Calculator {
    pub closed spec fn value_spec(&self) -> i32 {
        self.value
    }

    /// A calculator that starts at `value`.
    pub fn new(value: i32) -> (r: Self)
        ensures
            r.value_spec() == value,
    {
        Calculator { value }
    }

    /// The current value.
    pub fn value(&self) -> (r: i32)
        ensures
            r == self.value_spec(),
    {
        self.value
    }

    /// Adds to the current value.
    pub fn add(&mut self, amount: i32)
        requires
            i32::MIN <= old(self).value_spec() + amount <= i32::MAX,
        ensures
            final(self).value_spec() == old(self).value_spec() + amount,
    {
        self.value = self.value + amount;
    }

    /// Multiplies the current value.
    pub fn multiply(&mut self, factor: i32)
        requires
            i32::MIN <= old(self).value_spec() * factor <= i32::MAX,
        ensures
            final(self).value_spec() == old(self).value_spec() * factor,
    {
        self.value = self.value * factor;
    }
}

} // verus!
