use vstd::prelude::*;
use vstd::string::StringExecFns;

verus! {

/// The greeting shown by the UI: `"Hello, {name}! You've been greeted from Rust!"`.
pub fn greet(name: &str) -> (res: String)
    ensures
        res@ == "Hello, "@ + name@ + "! You've been greeted from Rust!"@,
{
    let mut s = "Hello, ".to_owned();
    s.append(name);
    s.append("! You've been greeted from Rust!");
    s
}

} // verus!
