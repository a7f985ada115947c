use vstd::prelude::*;

pub mod bus;
pub mod connection;
pub mod descriptor;
pub mod frame;
pub mod rp1210;
pub mod rp1210_parsing;

verus! {

} // verus!
