use vstd::prelude::*;

verus! {

/// The ways an operation on the task store can fail.
#[derive(Debug, Clone, Copy, PartialEq, Eq, Structural)]
pub enum StoreError {
    /// A description was empty or held only white space.
    Validation,
    /// No task carries the requested id.
    NotFound,
    /// A due date and time could not be read from its text.
    Parse,
    /// Saved data was not well formed.
    Format,
    /// Saved data was well formed but broke the store's rules.
    Schema,
}

} // verus!
