//! The rules of the Clumpiverse: which Masses a new Mass connects to under
//! each topology, how Masses are grabbed and released, what each panel
//! setting selects, and which layers a frame draws.

use vstd::prelude::*;

pub mod clumpiverse;
pub mod mass;
pub mod numbers;
pub mod renderer;
pub mod spiral;
pub mod topology;

pub use clumpiverse::{Clumpiverse, NO_MASS};
pub use mass::Mass;

verus! {

/// The greeting the page shows once the library has loaded.
pub fn greet_wasm() -> (s: String)
    ensures
        s@ == "Hello, Clumpiverse!"@,
{
    "Hello, Clumpiverse!".to_owned()
}

} // verus!
