//! Values that change hands: a function can make a value and hand it to its
//! caller, or take one and hand the same one back.

use vstd::prelude::*;

verus! {

/// Makes the string `yours` and hands it to the caller.
pub fn gives_ownership() -> (some_string: String)
    ensures
        some_string@ == "yours"@,
{
    "yours".to_owned()
}

/// Takes a string and hands the same string back.
pub fn takes_and_gives_back(a_string: String) -> (given_back: String)
    ensures
        given_back == a_string,
{
    a_string
}

} // verus!
