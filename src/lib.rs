use vstd::prelude::*;

pub mod dbap;
pub mod reader;
pub mod soundscape;
pub mod stream;
pub mod table;

verus! {

} // verus!
