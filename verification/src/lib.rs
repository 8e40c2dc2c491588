//! Turns a fixed data permutation (a "shuffle") into optimized target code:
//! contiguous runs of the permutation that read one window and write one
//! window are merged into single vector lane-permute blocks, which are then
//! rendered as source text or framed as machine code for an execution oracle.

pub mod abstract_instructions;
pub mod args;
pub mod encodings;
pub mod instructions_x86_64;
pub mod optimize;
pub mod oracle;
pub mod search;
