use vstd::prelude::*;

verus! {

/// The health-check command's reply: always the same fixed literal.
pub fn pong() -> (r: String)
    ensures
        r@ == "pong!"@,
{
    String::from_str("pong!")
}

} // verus!
