use vstd::prelude::*;

pub mod ast;
pub mod digits;
pub mod lemmas;
pub mod letters;
pub mod numeral;
pub mod grammar;

verus! {

/// Returns a fixed greeting.
pub fn hello_world() -> (r: &'static str)
    ensures
        r@ == "hi world fjdskl"@,
{
    "hi world fjdskl"
}

} // verus!
