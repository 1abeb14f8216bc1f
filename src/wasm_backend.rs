//! Gas accounting of a Wasm execution.

use vstd::prelude::*;

verus! {

/// The gas budget of one execution and what was left of it at the end.
#[derive(Clone, Copy, Debug, PartialEq, Eq)]
pub struct GasUsage {
    /// The amount of gas the execution was allowed.
    pub gas_limit: u64,
    /// The amount of gas remaining after the execution.
    pub remaining_points: u64,
}

impl GasUsage {
    /// The gas the execution used; what remains never exceeds the limit.
    pub fn gas_spent(&self) -> (r: u64)
        requires
            self.remaining_points <= self.gas_limit,
        ensures
            r == self.gas_limit - self.remaining_points,
    {
        self.gas_limit - self.remaining_points
    }
}

/// An address in global state.
pub type Address = [u8; 32];

/// What an execution request needs: the address it runs at, its view of
/// global state and the executor of nested calls.
pub struct Context<S, E> {
    pub address: Address,
    pub storage: S,
    pub executor: E,
}

/// The gas meter of a running instance.
#[derive(Clone, Copy, Debug, PartialEq, Eq)]
pub enum MeteringPoints {
    Remaining(u64),
    Exhausted,
}

impl MeteringPoints {
    /// The points left, or the meter itself once it is exhausted.
    pub fn try_into_remaining(self) -> (r: Result<u64, Self>)
        ensures
            self matches MeteringPoints::Remaining(v) ==> r == Ok::<u64, Self>(v),
            self is Exhausted ==> r == Err::<u64, Self>(self),
    {
        match self {
            MeteringPoints::Remaining(v) => Ok(v),
            MeteringPoints::Exhausted => Err(self),
        }
    }
}

/// Why a Wasm module could not be made ready to run.
#[derive(Debug, PartialEq, Eq)]
pub enum PreparationError {
    MissingExport(String),
    Compile(String),
    Memory(String),
    Instantiation(String),
}

} // verus!
