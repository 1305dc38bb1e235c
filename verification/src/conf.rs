//! Environment and configuration utilities.
//!
//! The environment is read outside this library; functions here take the
//! values of the variables they depend on.

use crate::pager::{less_flags, less_value, opt_view};
use crate::text::{push_str, string_of};
use vstd::prelude::*;

verus! {

broadcast use vstd::string::group_string_axioms;

/// Returns the environment variables to pass to the pager, as
/// `NAME=value` strings: `LESS`, set to the user's `$LESS` (whose value is
/// `less`, `None` if it is unset) or `FSRX`, with `R` always included and,
/// when output is printed one item per line, `S` included too.
pub fn pager_env(oneline: &bool, less: Option<String>) -> (vars: Vec<String>)
    ensures
        vars@.len() == 1,
        vars@[0]@ == "LESS="@ + less_value(opt_view(less), *oneline),
{
    let value = match &less {
        Some(v) => less_flags(v.as_str(), *oneline),
        None => less_flags("FSRX", *oneline),
    };
    let mut var: Vec<char> = Vec::new();
    push_str(&mut var, "LESS=");
    push_str(&mut var, value.as_str());
    let mut vars: Vec<String> = Vec::new();
    vars.push(string_of(&var));
    vars
}

} // verus!
