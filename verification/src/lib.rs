pub mod api;
pub mod auth;
pub mod civil;
pub mod instant;
pub mod convert;
pub mod format;
pub mod resolve;
pub mod slots;
pub mod zone;

use vstd::prelude::*;

verus! {

} // verus!
