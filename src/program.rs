use vstd::prelude::*;
use crate::address::{
    create_program_address,
    find_program_address,
    found_address_of,
    program_address_of,
    COUNTER_TAG,
};
use crate::ledger::{
    after,
    close_step,
    initialize_step,
    outcome_matches,
    reports_update,
    update_step,
    Close,
    Initialize,
    Ledger,
    LedgerView,
    Update,
};
use crate::key::Key;
use crate::address::key_option_view;
use crate::record::{CounterClosed, CounterError, CounterInitialized, CounterUpdated, Operation};

verus! {

/// What creating `user`'s record does to `l`: the record goes to the address
/// derived from the namespace tag and the user's key.
pub open spec fn initialize_outcome(l: LedgerView, user: Seq<u8>) -> Result<
    LedgerView,
    CounterError,
> {
    initialize_step(l, user, found_address_of(l.program_id, COUNTER_TAG@, user))
}

/// The address re-derived for the record at `address` from the namespace tag,
/// `user`'s key and the record's stored bump seed.
pub open spec fn rederived_address(l: LedgerView, address: Seq<u8>, user: Seq<u8>) -> Option<
    Seq<u8>,
> {
    program_address_of(l.program_id, COUNTER_TAG@, user, l.records[address].bump)
}

/// What `user` applying `op` to the record at `address` does to `l`.
pub open spec fn update_outcome(
    l: LedgerView,
    address: Seq<u8>,
    user: Seq<u8>,
    op: Operation,
) -> Result<LedgerView, CounterError> {
    update_step(l, address, user, rederived_address(l, address, user), op)
}

/// What `user` closing the record at `address` does to `l`.
pub open spec fn close_outcome(l: LedgerView, address: Seq<u8>, user: Seq<u8>) -> Result<
    LedgerView,
    CounterError,
> {
    close_step(l, address, user, rederived_address(l, address, user))
}

/// Creates `ctx.user`'s counter record, with count zero and the user as its
/// authority, at the address derived from the namespace tag and the user's key.
/// Fails with `AccountInUse` when a record is already there.
pub fn initialize(ledger: &mut Ledger, ctx: &Initialize) -> (r: Result<
    CounterInitialized,
    CounterError,
>)
    requires
        old(ledger).wf(),
    ensures
        final(ledger).wf(),
        outcome_matches(r, initialize_outcome(old(ledger)@, ctx.user@)),
        final(ledger)@ == after(old(ledger)@, initialize_outcome(old(ledger)@, ctx.user@)),
        r matches Ok(e) ==> {
            &&& e.user@ == ctx.user@
            &&& Some(e.counter@) == program_address_of(
                old(ledger)@.program_id,
                COUNTER_TAG@,
                ctx.user@,
                final(ledger)@.records[e.counter@].bump,
            )
            &&& e.count == 0
        },
{
    let program_id = ledger.program_id();
    let found = find_program_address(&program_id, &COUNTER_TAG, &ctx.user);
    ledger.initialize_at(ctx, found)
}

fn rederive(ledger: &Ledger, address: &Key, user: &Key) -> (r: Option<Key>)
    requires
        ledger.wf(),
    ensures
        ledger@.records.contains_key(address@) ==> key_option_view(r) == rederived_address(
            ledger@,
            address@,
            user@,
        ),
{
    match ledger.get(address) {
        Some(c) => {
            let program_id = ledger.program_id();
            create_program_address(&program_id, &COUNTER_TAG, user, c.bump)
        },
        None => None,
    }
}

/// `ctx.user` adds one to the record at `ctx.counter`. Fails with
/// `Unauthorized` unless the user is the record's authority, with
/// `ConstraintSeeds` unless the stored bump seed re-derives the address, and
/// with `CounterOverflow` at `u64::MAX`.
pub fn increment(ledger: &mut Ledger, ctx: &Update) -> (r: Result<CounterUpdated, CounterError>)
    requires
        old(ledger).wf(),
    ensures
        final(ledger).wf(),
        outcome_matches(
            r,
            update_outcome(old(ledger)@, ctx.counter@, ctx.user@, Operation::Increment),
        ),
        final(ledger)@ == after(
            old(ledger)@,
            update_outcome(old(ledger)@, ctx.counter@, ctx.user@, Operation::Increment),
        ),
        r matches Ok(e) ==> reports_update(
            e,
            ctx.counter@,
            ctx.user@,
            Operation::Increment,
            old(ledger)@,
            final(ledger)@,
        ),
{
    let rederived = rederive(ledger, &ctx.counter, &ctx.user);
    ledger.increment_at(ctx, rederived)
}

/// `ctx.user` subtracts one from the record at `ctx.counter`. Fails as
/// `increment` does, but with `CounterUnderflow` at zero.
pub fn decrement(ledger: &mut Ledger, ctx: &Update) -> (r: Result<CounterUpdated, CounterError>)
    requires
        old(ledger).wf(),
    ensures
        final(ledger).wf(),
        outcome_matches(
            r,
            update_outcome(old(ledger)@, ctx.counter@, ctx.user@, Operation::Decrement),
        ),
        final(ledger)@ == after(
            old(ledger)@,
            update_outcome(old(ledger)@, ctx.counter@, ctx.user@, Operation::Decrement),
        ),
        r matches Ok(e) ==> reports_update(
            e,
            ctx.counter@,
            ctx.user@,
            Operation::Decrement,
            old(ledger)@,
            final(ledger)@,
        ),
{
    let rederived = rederive(ledger, &ctx.counter, &ctx.user);
    ledger.decrement_at(ctx, rederived)
}

/// `ctx.user` closes the record at `ctx.counter`, which is removed; its address
/// is free for a new record. Fails with `Unauthorized` unless the user is the
/// record's authority, and with `ConstraintSeeds` unless the stored bump seed
/// re-derives the address.
pub fn close(ledger: &mut Ledger, ctx: &Close) -> (r: Result<CounterClosed, CounterError>)
    requires
        old(ledger).wf(),
    ensures
        final(ledger).wf(),
        outcome_matches(r, close_outcome(old(ledger)@, ctx.counter@, ctx.user@)),
        final(ledger)@ == after(old(ledger)@, close_outcome(old(ledger)@, ctx.counter@, ctx.user@)),
        r matches Ok(e) ==> {
            &&& e.user@ == ctx.user@
            &&& e.counter@ == ctx.counter@
            &&& e.final_count == old(ledger)@.records[ctx.counter@].count
        },
{
    let rederived = rederive(ledger, &ctx.counter, &ctx.user);
    ledger.close_at(ctx, rederived)
}

} // verus!
