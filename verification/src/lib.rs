pub mod decimal;
pub mod error;
pub mod laws;
pub mod services;
pub mod store;

use vstd::prelude::*;

verus! {

/// Names of the process-wide values that must be initialised at startup.
#[derive(Debug, Clone, Copy)]
pub enum Statics {
    Config,
}

/// Liveness probe: a fixed greeting.
pub fn index() -> (r: &'static str)
    ensures
        r@ == "Hello, world!"@,
{
    "Hello, world!"
}

} // verus!
