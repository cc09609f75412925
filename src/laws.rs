use vstd::prelude::*;
use crate::ledger::{after, initialize_step, LedgerView};
use crate::program::{
    close_outcome,
    initialize_outcome,
    rederived_address,
    update_outcome,
};
use crate::record::{CounterError, Operation};

verus! {

/// Creating a record for an owner and then creating one again for the same
/// owner never succeeds the second time; when the first succeeded, the second
/// fails because the derived address is taken. So an owner has at most one
/// record at a time.
pub proof fn lemma_create_twice_fails(l: LedgerView, user: Seq<u8>)
    ensures
        initialize_outcome(after(l, initialize_outcome(l, user)), user) is Err,
        initialize_outcome(l, user) is Ok ==> initialize_outcome(
            after(l, initialize_outcome(l, user)),
            user,
        ) == Err::<LedgerView, CounterError>(CounterError::AccountInUse),
{
}

/// An increment that succeeds, followed by a decrement from the same caller,
/// gives back the ledger as it was.
pub proof fn lemma_increment_then_decrement(l: LedgerView, address: Seq<u8>, user: Seq<u8>)
    requires
        update_outcome(l, address, user, Operation::Increment) is Ok,
    ensures
        update_outcome(
            after(l, update_outcome(l, address, user, Operation::Increment)),
            address,
            user,
            Operation::Decrement,
        ) == Ok::<LedgerView, CounterError>(l),
{
    let l1 = after(l, update_outcome(l, address, user, Operation::Increment));
    assert(rederived_address(l1, address, user) == rederived_address(l, address, user));
    let l2 = after(l1, update_outcome(l1, address, user, Operation::Decrement));
    assert(l2.records =~= l.records);
}

/// A decrement that succeeds, followed by an increment from the same caller,
/// gives back the ledger as it was.
pub proof fn lemma_decrement_then_increment(l: LedgerView, address: Seq<u8>, user: Seq<u8>)
    requires
        update_outcome(l, address, user, Operation::Decrement) is Ok,
    ensures
        update_outcome(
            after(l, update_outcome(l, address, user, Operation::Decrement)),
            address,
            user,
            Operation::Increment,
        ) == Ok::<LedgerView, CounterError>(l),
{
    let l1 = after(l, update_outcome(l, address, user, Operation::Decrement));
    assert(rederived_address(l1, address, user) == rederived_address(l, address, user));
    let l2 = after(l1, update_outcome(l1, address, user, Operation::Increment));
    assert(l2.records =~= l.records);
}

/// An increment of a record at `u64::MAX` fails and changes nothing; for its
/// authority, at the record's own address, the error is `CounterOverflow`.
pub proof fn lemma_increment_at_max(l: LedgerView, address: Seq<u8>, user: Seq<u8>)
    requires
        l.records.contains_key(address),
        l.records[address].count == u64::MAX,
    ensures
        update_outcome(l, address, user, Operation::Increment) is Err,
        after(l, update_outcome(l, address, user, Operation::Increment)) == l,
        l.records[address].authority == user && rederived_address(l, address, user) == Some(
            address,
        ) ==> update_outcome(l, address, user, Operation::Increment) == Err::<
            LedgerView,
            CounterError,
        >(CounterError::CounterOverflow),
{
}

/// A decrement of a record at zero fails and changes nothing; for its
/// authority, at the record's own address, the error is `CounterUnderflow`.
pub proof fn lemma_decrement_at_zero(l: LedgerView, address: Seq<u8>, user: Seq<u8>)
    requires
        l.records.contains_key(address),
        l.records[address].count == 0,
    ensures
        update_outcome(l, address, user, Operation::Decrement) is Err,
        after(l, update_outcome(l, address, user, Operation::Decrement)) == l,
        l.records[address].authority == user && rederived_address(l, address, user) == Some(
            address,
        ) ==> update_outcome(l, address, user, Operation::Decrement) == Err::<
            LedgerView,
            CounterError,
        >(CounterError::CounterUnderflow),
{
}

/// Anyone but a record's authority who tries to increment, decrement or close
/// it fails with `Unauthorized`, and the ledger stays as it was.
pub proof fn lemma_only_authority(l: LedgerView, address: Seq<u8>, user: Seq<u8>)
    requires
        l.records.contains_key(address),
        l.records[address].authority != user,
    ensures
        update_outcome(l, address, user, Operation::Increment) == Err::<LedgerView, CounterError>(
            CounterError::Unauthorized,
        ),
        update_outcome(l, address, user, Operation::Decrement) == Err::<LedgerView, CounterError>(
            CounterError::Unauthorized,
        ),
        close_outcome(l, address, user) == Err::<LedgerView, CounterError>(
            CounterError::Unauthorized,
        ),
        after(l, update_outcome(l, address, user, Operation::Increment)) == l,
        after(l, update_outcome(l, address, user, Operation::Decrement)) == l,
        after(l, close_outcome(l, address, user)) == l,
{
}

/// Closing a record frees its address: when its authority closes it, the
/// record is gone, nothing else in the ledger changed, and a new record may be
/// created at that address.
pub proof fn lemma_close_removes(l: LedgerView, address: Seq<u8>, user: Seq<u8>)
    requires
        close_outcome(l, address, user) is Ok,
    ensures
        !after(l, close_outcome(l, address, user)).records.contains_key(address),
        after(l, close_outcome(l, address, user)).records == l.records.remove(address),
        forall|owner: Seq<u8>, bump: u8|
            #[trigger] initialize_step(
                after(l, close_outcome(l, address, user)),
                owner,
                Some((address, bump)),
            ) is Ok,
{
}

} // verus!
