//! The parts of a small command: a greeting and a calculator without state.
use vstd::prelude::*;
use vstd::string::StringExecFns;

verus! {

/// `Hello, <name>!`
pub fn greet(name: &str) -> (r: String)
    ensures
        r@ == "Hello, "@ + name@ + "!"@,
{
    let mut s = "Hello, ".to_string();
    s.append(name);
    s.append("!");
    s
}

/// A calculator that keeps no running value.
pub struct Calculator {
    value: i32,
}

impl Calculator {
    pub fn new() -> (r: Self) {
        Calculator { value: 0 }
    }

    pub fn add(&self, a: i32, b: i32) -> (r: i32)
        requires
            i32::MIN <= a + b <= i32::MAX,
        ensures
            r == a + b,
    {
        a + b
    }

    pub fn multiply(&self, a: i32, b: i32) -> (r: i32)
        requires
            i32::MIN <= a * b <= i32::MAX,
        ensures
            r == a * b,
    {
        a * b
    }
}

} // verus!
