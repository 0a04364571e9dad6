use vstd::prelude::*;

pub mod clock;
pub mod counter;
pub mod ids;
pub mod service;
pub mod store;
pub mod text;
pub mod value;

verus! {

} // verus!
