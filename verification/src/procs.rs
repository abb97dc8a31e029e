//! The table that the example program fills with `seq!`.
use vstd::prelude::*;

verus! {

/// A process, known by its id.
#[derive(Debug)]
pub struct Proc {
    pub id: usize,
}

impl Proc {
    /// The process with id `id`.
    pub fn new(id: usize) -> (r: Proc)
        ensures
            r.id == id,
    {
        Proc { id }
    }
}

} // verus!
