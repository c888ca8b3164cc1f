use vstd::prelude::*;

verus! {

/// Handles data processing with a number of workers.
pub struct AppProcessor {
    pub name: String,
    pub workers: u32,
}

impl AppProcessor {
    pub fn new(name: String, workers: u32) -> (r: AppProcessor)
        ensures
            r.name == name,
            r.workers == workers,
    {
        AppProcessor { name, workers }
    }
}

} // verus!
