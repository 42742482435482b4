//! The context object behind the `wasi` module.
use vstd::prelude::*;

verus! {

/// The context of one WASI instance.
pub struct Context {}

impl Context {
    pub fn new() -> (r: Context) {
        Context {}
    }
}

} // verus!
