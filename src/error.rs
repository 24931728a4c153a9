use vstd::prelude::*;

verus! {

/// Why an operation of the program was refused. A refused operation changes nothing.
#[derive(Clone, Copy, PartialEq, Eq, Structural, Debug)]
pub enum ErrorCode {
    /// The caller is not the configuration's update authority.
    InvalidUpdateAuthority,
    /// The item's metadata names another mint than the one presented.
    InvalidMintAddress,
    /// The item is not a verified member of the collection.
    MismatchCollection,
    /// No open stake exists for this player and item.
    StakeNotFound,
    /// A stake is already open for this player and item.
    DuplicateStake,
    /// The configuration has not been funded yet.
    NotInitialized,
    /// The draw matched no entry of the bank's outcome table.
    NoMatchingOutcome,
    /// An amount or a counter would leave the range of its integer type.
    MathOverflow,
}

} // verus!
