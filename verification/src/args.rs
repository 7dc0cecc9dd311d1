use vstd::prelude::*;

verus! {

/// Configuration for one session: how many words to sample for the target
/// text. A command-line front end fills this in; the core only reads it.
#[derive(Debug, Clone, Copy)]
pub struct Args {
    pub words: usize,
}

} // verus!
