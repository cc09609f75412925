use vstd::prelude::*;
use crate::key::Key;

verus! {

/// Why an operation on a counter record was refused. A refused operation
/// leaves every record as it was.
#[derive(Clone, Copy, Debug, PartialEq, Eq, Structural)]
pub enum CounterError {
    /// An increment would take the count past `u64::MAX`.
    CounterOverflow,
    /// A decrement would take the count below zero.
    CounterUnderflow,
    /// The caller is not the record's authority.
    Unauthorized,
    /// A record already occupies the derived address.
    AccountInUse,
    /// No record is stored at the given address.
    AccountNotInitialized,
    /// The address is not the one derived from the namespace tag and owner
    /// (or no such address exists).
    ConstraintSeeds,
}

/// The change that an update applies to a count.
#[derive(Clone, Copy, Debug, PartialEq, Eq, Structural)]
pub enum Operation {
    Increment,
    Decrement,
}

impl Operation {
    /// The operation's tag as it appears in an update notification.
    pub fn tag(&self) -> (r: &'static str)
        ensures
            *self == Operation::Increment ==> r@ == "increment"@,
            *self == Operation::Decrement ==> r@ == "decrement"@,
    {
        match self {
            Operation::Increment => "increment",
            Operation::Decrement => "decrement",
        }
    }
}

/// The count that `op` makes of `count`, or the error when it would leave
/// the range of `u64`.
pub open spec fn apply_spec(op: Operation, count: u64) -> Result<u64, CounterError> {
    match op {
        Operation::Increment => if count == u64::MAX {
            Err(CounterError::CounterOverflow)
        } else {
            Ok((count + 1) as u64)
        },
        Operation::Decrement => if count == 0 {
            Err(CounterError::CounterUnderflow)
        } else {
            Ok((count - 1) as u64)
        },
    }
}

/// Applies `op` to `count` with checked arithmetic.
pub fn apply(op: Operation, count: u64) -> (r: Result<u64, CounterError>)
    ensures
        r == apply_spec(op, count),
{
    match op {
        Operation::Increment => match count.checked_add(1) {
            Some(n) => Ok(n),
            None => Err(CounterError::CounterOverflow),
        },
        Operation::Decrement => match count.checked_sub(1) {
            Some(n) => Ok(n),
            None => Err(CounterError::CounterUnderflow),
        },
    }
}

/// The abstract content of a counter record.
pub struct CounterView {
    pub count: u64,
    pub bump: u8,
    pub authority: Seq<u8>,
}

/// A counter record: its count, the bump seed that re-derives its address,
/// and the key of the owner who alone may change or close it.
#[derive(Clone, Copy, Debug, PartialEq, Eq)]
pub struct Counter {
    pub count: u64,
    pub bump: u8,
    pub authority: Key,
}

impl Counter {
    pub open spec fn view(&self) -> CounterView {
        CounterView { count: self.count, bump: self.bump, authority: self.authority@ }
    }
}

/// Notification of a record's creation.
#[derive(Clone, Copy, Debug, PartialEq, Eq)]
pub struct CounterInitialized {
    pub user: Key,
    pub counter: Key,
    pub count: u64,
}

/// Notification of a change to a record's count.
#[derive(Clone, Copy, Debug, PartialEq, Eq)]
pub struct CounterUpdated {
    pub user: Key,
    pub counter: Key,
    pub previous_count: u64,
    pub new_count: u64,
    pub operation: Operation,
}

/// Notification that a record was closed, with the count it held.
#[derive(Clone, Copy, Debug, PartialEq, Eq)]
pub struct CounterClosed {
    pub user: Key,
    pub counter: Key,
    pub final_count: u64,
}

} // verus!
