//! The greeter: receives a name and greets it.
use vstd::prelude::*;
use vstd::string::*;

verus! {

/// The line the greeter prints for `name`: `Hello, {name}!`.
pub fn greeter(name: &str) -> (line: String)
    ensures
        line@ == "Hello, "@ + name@ + "!"@,
{
    let mut line = String::from_str("Hello, ");
    line.append(name);
    line.append("!");
    line
}

} // verus!
