//! The miracle transformation applied to secular code: nine substring
//! replacements, in order, each applied to the previous step's result.
//! Reading the input, the devotional framing around the result and writing
//! the output are rendering concerns outside the library.

use vstd::prelude::*;

use crate::text::{replace_all, replace_spec};

verus! {

/// The sanctified form of secular code: each replacement of the fixed
/// table, applied in order over the previous result.
pub open spec fn sanctify_spec(s: Seq<char>) -> Seq<char> {
    let s = replace_spec(s, "function "@, "bless function "@);
    let s = replace_spec(s, "class "@, "covenant class "@);
    let s = replace_spec(s, "async function"@, "miracle async function"@);
    let s = replace_spec(s, "throw new Error"@, "confess new Sin"@);
    let s = replace_spec(s, "try {"@, "attempt_salvation {"@);
    let s = replace_spec(s, "catch ("@, "forgive ("@);
    let s = replace_spec(s, "console.log"@, "revelation"@);
    let s = replace_spec(s, "for ("@, "preach ("@);
    let s = replace_spec(s, "return"@, "ascend with"@);
    s
}

/// Transforms secular code by the fixed replacement table, left to right,
/// one replacement pass after the other.
pub fn transform_secular(s: &str) -> (r: String)
    ensures
        r@ == sanctify_spec(s@),
{
    proof {
        reveal_strlit("function ");
        reveal_strlit("class ");
        reveal_strlit("async function");
        reveal_strlit("throw new Error");
        reveal_strlit("try {");
        reveal_strlit("catch (");
        reveal_strlit("console.log");
        reveal_strlit("for (");
        reveal_strlit("return");
    }
    let s = replace_all(s, "function ", "bless function ");
    let s = replace_all(s.as_str(), "class ", "covenant class ");
    let s = replace_all(s.as_str(), "async function", "miracle async function");
    let s = replace_all(s.as_str(), "throw new Error", "confess new Sin");
    let s = replace_all(s.as_str(), "try {", "attempt_salvation {");
    let s = replace_all(s.as_str(), "catch (", "forgive (");
    let s = replace_all(s.as_str(), "console.log", "revelation");
    let s = replace_all(s.as_str(), "for (", "preach (");
    let s = replace_all(s.as_str(), "return", "ascend with");
    s
}

} // verus!
