pub mod commands;
pub mod discord;
pub mod interface;
pub mod model;
pub mod prelude;
pub mod transceiver;
pub mod utils;

use vstd::prelude::*;

verus! {

/// A handler for an error case that the code does not handle
/// (`result.unwrap_or_else(unchecked())`): it accepts any error and
/// discards it.
pub fn unchecked<E>() -> (handler: impl Fn(E))
    ensures
        forall|e: E| call_requires(handler, (e,)),
{
    |_e: E| {}
}

} // verus!
