//! The two ways the program driver can be invoked.
use vstd::prelude::*;

verus! {

/// What the driver is asked to do.
#[derive(Debug, PartialEq, Eq)]
pub enum Args {
    /// Read programs interactively, then assemble, link and run each one.
    Repl,
    /// Translate the program in the file `src` and write the assembly to `out`.
    Compile { src: String, out: String },
}

} // verus!
