use vstd::prelude::*;

verus! {

/// Everything that can go wrong in this crate.
#[derive(Clone, Copy, Debug, PartialEq, Eq, Structural)]
pub enum Error {
    /// Construction was attempted although an allocator state already exists.
    AlreadyInitialized,
    /// A draw was attempted although every identifier has been handed out.
    Exhausted,
}

} // verus!
