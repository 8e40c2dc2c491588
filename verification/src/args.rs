use vstd::prelude::*;

verus! {

/// The operations the control surface can ask for. The thin binary
/// around this library parses the command line into this type.
#[derive(Clone, Copy, PartialEq, Eq, Structural, Debug)]
pub enum BruteforcerCmds {
    /// Optimize a pattern, then validate every ordering of the
    /// resulting blocks through the execution oracle.
    Bruteforce,
    /// Emit a C function body for a pattern, for manual insertion
    /// into a C program.
    SimpleCFunc,
    /// Produce a random pattern biased towards mergeable runs.
    RandomPattern,
}

/// The parsed invocation: a subcommand with its inputs.
#[derive(Debug)]
pub struct BruteforcerArgs {
    /// The subcommand to run.
    pub cmd: BruteforcerCmds,
    /// The pattern to generate output code for.
    pub pattern: Option<Vec<u32>>,
    /// Length of a random pattern.
    pub len: u32,
    /// Name of the target architecture.
    pub arch: String,
}

} // verus!
