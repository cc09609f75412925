use vstd::prelude::*;
use crate::key::Key;
use crate::address::{found_view, key_option_view};
use crate::record::{
    apply,
    apply_spec,
    Counter,
    CounterClosed,
    CounterError,
    CounterInitialized,
    CounterUpdated,
    CounterView,
    Operation,
};

verus! {

/// The abstract ledger: the program whose records it holds, and the records
/// by address.
pub struct LedgerView {
    pub program_id: Seq<u8>,
    pub records: Map<Seq<u8>, CounterView>,
}

/// What creating a record for `user` does to `l`, given the address and bump
/// seed that the derivation `found` gave: the new ledger, or the error.
pub open spec fn initialize_step(
    l: LedgerView,
    user: Seq<u8>,
    found: Option<(Seq<u8>, u8)>,
) -> Result<LedgerView, CounterError> {
    match found {
        None => Err(CounterError::ConstraintSeeds),
        Some((address, bump)) => if l.records.contains_key(address) {
            Err(CounterError::AccountInUse)
        } else {
            Ok(
                LedgerView {
                    program_id: l.program_id,
                    records: l.records.insert(
                        address,
                        CounterView { count: 0, bump, authority: user },
                    ),
                },
            )
        },
    }
}

/// What `user` applying `op` to the record at `address` does to `l`, given the
/// address `rederived` from the record's stored bump seed. The authority is
/// checked first, then the address, then the range of the count.
pub open spec fn update_step(
    l: LedgerView,
    address: Seq<u8>,
    user: Seq<u8>,
    rederived: Option<Seq<u8>>,
    op: Operation,
) -> Result<LedgerView, CounterError> {
    if !l.records.contains_key(address) {
        Err(CounterError::AccountNotInitialized)
    } else if l.records[address].authority != user {
        Err(CounterError::Unauthorized)
    } else if rederived != Some(address) {
        Err(CounterError::ConstraintSeeds)
    } else {
        match apply_spec(op, l.records[address].count) {
            Err(e) => Err(e),
            Ok(n) => Ok(
                LedgerView {
                    program_id: l.program_id,
                    records: l.records.insert(
                        address,
                        CounterView { count: n, ..l.records[address] },
                    ),
                },
            ),
        }
    }
}

/// What `user` closing the record at `address` does to `l`, given the address
/// `rederived` from the record's stored bump seed.
pub open spec fn close_step(
    l: LedgerView,
    address: Seq<u8>,
    user: Seq<u8>,
    rederived: Option<Seq<u8>>,
) -> Result<LedgerView, CounterError> {
    if !l.records.contains_key(address) {
        Err(CounterError::AccountNotInitialized)
    } else if l.records[address].authority != user {
        Err(CounterError::Unauthorized)
    } else if rederived != Some(address) {
        Err(CounterError::ConstraintSeeds)
    } else {
        Ok(LedgerView { program_id: l.program_id, records: l.records.remove(address) })
    }
}

/// The ledger after an operation with outcome `o`: unchanged when it failed.
pub open spec fn after(l: LedgerView, o: Result<LedgerView, CounterError>) -> LedgerView {
    match o {
        Ok(n) => n,
        Err(_) => l,
    }
}

/// An operation's result agrees with its abstract outcome: success when the
/// outcome is a new ledger, the same error otherwise.
pub open spec fn outcome_matches<E>(
    r: Result<E, CounterError>,
    o: Result<LedgerView, CounterError>,
) -> bool {
    match r {
        Ok(_) => o is Ok,
        Err(e) => o == Err::<LedgerView, CounterError>(e),
    }
}

/// The update notification `e` reports `user`'s `op` on the record at
/// `address`, which went from its count in `before` to its count in `now`.
pub open spec fn reports_update(
    e: CounterUpdated,
    address: Seq<u8>,
    user: Seq<u8>,
    op: Operation,
    before: LedgerView,
    now: LedgerView,
) -> bool {
    &&& e.user@ == user
    &&& e.counter@ == address
    &&& e.previous_count == before.records[address].count
    &&& e.new_count == now.records[address].count
    &&& e.operation == op
}

/// The accounts needed to create a counter record: its future owner.
#[derive(Clone, Copy, Debug)]
pub struct Initialize {
    pub user: Key,
}

/// The accounts needed to change a counter record: its address and the caller.
#[derive(Clone, Copy, Debug)]
pub struct Update {
    pub counter: Key,
    pub user: Key,
}

/// The accounts needed to close a counter record: its address and the caller.
#[derive(Clone, Copy, Debug)]
pub struct Close {
    pub counter: Key,
    pub user: Key,
}

/// The records of one program, each at its own address.
pub struct Ledger {
    program_id: Key,
    accounts: Vec<(Key, Counter)>,
    records: Ghost<Map<Seq<u8>, CounterView>>,
}

impl Ledger {
    pub closed spec fn view(&self) -> LedgerView {
        LedgerView { program_id: self.program_id@, records: self.records@ }
    }

    /// Every stored account is in the record map with its content, every
    /// record is stored, and no two accounts share an address.
    pub closed spec fn wf(&self) -> bool {
        &&& forall|i: int|
            #![trigger self.accounts@[i]]
            0 <= i < self.accounts@.len() ==> self.records@.contains_key(self.accounts@[i].0@)
                && self.records@[self.accounts@[i].0@] == self.accounts@[i].1@
        &&& forall|a: Seq<u8>|
            #[trigger] self.records@.contains_key(a) ==> exists|i: int|
                0 <= i < self.accounts@.len() && self.accounts@[i].0@ == a
        &&& forall|i: int, j: int|
            0 <= i < j < self.accounts@.len() ==> self.accounts@[i].0@ != self.accounts@[j].0@
    }

    /// An empty ledger for the program `program_id`.
    pub fn new(program_id: Key) -> (r: Ledger)
        ensures
            r.wf(),
            r@.program_id == program_id@,
            r@.records == Map::<Seq<u8>, CounterView>::empty(),
    {
        Ledger { program_id, accounts: Vec::new(), records: Ghost(Map::empty()) }
    }

    pub fn program_id(&self) -> (r: Key)
        ensures
            r@ == self@.program_id,
    {
        self.program_id
    }

    fn find(&self, address: &Key) -> (r: Option<usize>)
        requires
            self.wf(),
        ensures
            match r {
                Some(i) => {
                    &&& i < self.accounts@.len()
                    &&& self.accounts@[i as int].0@ == address@
                    &&& self.records@.contains_key(address@)
                    &&& self.records@[address@] == self.accounts@[i as int].1@
                },
                None => !self.records@.contains_key(address@),
            },
    {
        let mut i: usize = 0;
        while i < self.accounts.len()
            invariant
                self.wf(),
                i <= self.accounts@.len(),
                forall|j: int| 0 <= j < i ==> self.accounts@[j].0@ != address@,
            decreases self.accounts@.len() - i,
        {
            if self.accounts[i].0.same_as(address) {
                return Some(i);
            }
            i = i + 1;
        }
        None
    }

    /// The record stored at `address`, if any.
    pub fn get(&self, address: &Key) -> (r: Option<Counter>)
        requires
            self.wf(),
        ensures
            match r {
                Some(c) => self@.records.contains_key(address@) && self@.records[address@] == c@,
                None => !self@.records.contains_key(address@),
            },
    {
        match self.find(address) {
            Some(i) => Some(self.accounts[i].1),
            None => None,
        }
    }
}

impl Ledger {
    /// Creates `ctx.user`'s record at the address and bump seed that the
    /// derivation `found` gave: count zero, the user as its authority.
    pub fn initialize_at(&mut self, ctx: &Initialize, found: Option<(Key, u8)>) -> (r: Result<
        CounterInitialized,
        CounterError,
    >)
        requires
            old(self).wf(),
        ensures
            final(self).wf(),
            outcome_matches(r, initialize_step(old(self)@, ctx.user@, found_view(found))),
            final(self)@ == after(
                old(self)@,
                initialize_step(old(self)@, ctx.user@, found_view(found)),
            ),
            r matches Ok(e) ==> {
                &&& e.user@ == ctx.user@
                &&& e.counter@ == found.unwrap().0@
                &&& e.count == 0
            },
    {
        match found {
            None => Err(CounterError::ConstraintSeeds),
            Some((address, bump)) => {
                match self.find(&address) {
                    Some(_) => Err(CounterError::AccountInUse),
                    None => {
                        let c = Counter { count: 0, bump, authority: ctx.user };
                        let ghost old_accounts = self.accounts@;
                        let ghost old_records = self.records@;
                        self.accounts.push((address, c));
                        self.records = Ghost(self.records@.insert(address@, c@));
                        proof {
                            assert forall|a: Seq<u8>| #[trigger]
                                self.records@.contains_key(a) implies exists|i: int|
                                0 <= i < self.accounts@.len() && self.accounts@[i].0@ == a by {
                                if a == address@ {
                                    assert(self.accounts@[old_accounts.len() as int].0@ == a);
                                } else {
                                    assert(old_records.contains_key(a));
                                    let j = choose|j: int|
                                        0 <= j < old_accounts.len() && old_accounts[j].0@ == a;
                                    assert(self.accounts@[j] == old_accounts[j]);
                                }
                            }
                            assert forall|i: int|
                                #![trigger self.accounts@[i]]
                                0 <= i < old_accounts.len() implies self.accounts@[i].0@
                                != address@ by {
                                assert(self.accounts@[i] == old_accounts[i]);
                                assert(old_records.contains_key(old_accounts[i].0@));
                            }
                        }
                        Ok(CounterInitialized { user: ctx.user, counter: address, count: 0 })
                    },
                }
            },
        }
    }

    fn update_at(&mut self, ctx: &Update, rederived: Option<Key>, op: Operation) -> (r: Result<
        CounterUpdated,
        CounterError,
    >)
        requires
            old(self).wf(),
        ensures
            final(self).wf(),
            outcome_matches(
                r,
                update_step(old(self)@, ctx.counter@, ctx.user@, key_option_view(rederived), op),
            ),
            final(self)@ == after(
                old(self)@,
                update_step(old(self)@, ctx.counter@, ctx.user@, key_option_view(rederived), op),
            ),
            r matches Ok(e) ==> reports_update(
                e,
                ctx.counter@,
                ctx.user@,
                op,
                old(self)@,
                final(self)@,
            ),
    {
        match self.find(&ctx.counter) {
            None => Err(CounterError::AccountNotInitialized),
            Some(i) => {
                let c = self.accounts[i].1;
                if !c.authority.same_as(&ctx.user) {
                    return Err(CounterError::Unauthorized);
                }
                let derived_ok = match rederived {
                    Some(a) => a.same_as(&ctx.counter),
                    None => false,
                };
                if !derived_ok {
                    return Err(CounterError::ConstraintSeeds);
                }
                match apply(op, c.count) {
                    Err(e) => Err(e),
                    Ok(n) => {
                        let address = self.accounts[i].0;
                        let nc = Counter { count: n, bump: c.bump, authority: c.authority };
                        let ghost old_accounts = self.accounts@;
                        self.accounts[i] = (address, nc);
                        self.records = Ghost(self.records@.insert(address@, nc@));
                        proof {
                            assert forall|j: int|
                                #![trigger self.accounts@[j]]
                                0 <= j < self.accounts@.len() implies self.accounts@[j].0@
                                == old_accounts[j].0@ && (j != i ==> self.accounts@[j]
                                == old_accounts[j] && old_accounts[j].0@ != address@) by {
                                if j != i {
                                    assert(old_accounts[j] == old(self).accounts@[j]);
                                    if j < i {
                                        assert(old(self).accounts@[j].0@ != old(self).accounts@[i as int].0@);
                                    } else {
                                        assert(old(self).accounts@[i as int].0@ != old(self).accounts@[j].0@);
                                    }
                                }
                            }
                            assert forall|a: Seq<u8>| #[trigger]
                                self.records@.contains_key(a) implies exists|k: int|
                                0 <= k < self.accounts@.len() && self.accounts@[k].0@ == a by {
                                assert(old(self).records@.contains_key(a));
                                let k = choose|k: int|
                                    0 <= k < old_accounts.len() && old_accounts[k].0@ == a;
                                assert(self.accounts@[k].0@ == old_accounts[k].0@);
                            }
                        }
                        Ok(
                            CounterUpdated {
                                user: ctx.user,
                                counter: ctx.counter,
                                previous_count: c.count,
                                new_count: n,
                                operation: op,
                            },
                        )
                    },
                }
            },
        }
    }

    /// `ctx.user` adds one to the record at `ctx.counter`, whose address
    /// re-derived from its stored bump seed is `rederived`.
    pub fn increment_at(&mut self, ctx: &Update, rederived: Option<Key>) -> (r: Result<
        CounterUpdated,
        CounterError,
    >)
        requires
            old(self).wf(),
        ensures
            final(self).wf(),
            outcome_matches(
                r,
                update_step(
                    old(self)@,
                    ctx.counter@,
                    ctx.user@,
                    key_option_view(rederived),
                    Operation::Increment,
                ),
            ),
            final(self)@ == after(
                old(self)@,
                update_step(
                    old(self)@,
                    ctx.counter@,
                    ctx.user@,
                    key_option_view(rederived),
                    Operation::Increment,
                ),
            ),
            r matches Ok(e) ==> reports_update(
                e,
                ctx.counter@,
                ctx.user@,
                Operation::Increment,
                old(self)@,
                final(self)@,
            ),
    {
        self.update_at(ctx, rederived, Operation::Increment)
    }

    /// `ctx.user` subtracts one from the record at `ctx.counter`, whose address
    /// re-derived from its stored bump seed is `rederived`.
    pub fn decrement_at(&mut self, ctx: &Update, rederived: Option<Key>) -> (r: Result<
        CounterUpdated,
        CounterError,
    >)
        requires
            old(self).wf(),
        ensures
            final(self).wf(),
            outcome_matches(
                r,
                update_step(
                    old(self)@,
                    ctx.counter@,
                    ctx.user@,
                    key_option_view(rederived),
                    Operation::Decrement,
                ),
            ),
            final(self)@ == after(
                old(self)@,
                update_step(
                    old(self)@,
                    ctx.counter@,
                    ctx.user@,
                    key_option_view(rederived),
                    Operation::Decrement,
                ),
            ),
            r matches Ok(e) ==> reports_update(
                e,
                ctx.counter@,
                ctx.user@,
                Operation::Decrement,
                old(self)@,
                final(self)@,
            ),
    {
        self.update_at(ctx, rederived, Operation::Decrement)
    }

    /// `ctx.user` closes the record at `ctx.counter`, whose address re-derived
    /// from its stored bump seed is `rederived`; the record is removed.
    pub fn close_at(&mut self, ctx: &Close, rederived: Option<Key>) -> (r: Result<
        CounterClosed,
        CounterError,
    >)
        requires
            old(self).wf(),
        ensures
            final(self).wf(),
            outcome_matches(
                r,
                close_step(old(self)@, ctx.counter@, ctx.user@, key_option_view(rederived)),
            ),
            final(self)@ == after(
                old(self)@,
                close_step(old(self)@, ctx.counter@, ctx.user@, key_option_view(rederived)),
            ),
            r matches Ok(e) ==> {
                &&& e.user@ == ctx.user@
                &&& e.counter@ == ctx.counter@
                &&& e.final_count == old(self)@.records[ctx.counter@].count
            },
    {
        match self.find(&ctx.counter) {
            None => Err(CounterError::AccountNotInitialized),
            Some(i) => {
                let c = self.accounts[i].1;
                if !c.authority.same_as(&ctx.user) {
                    return Err(CounterError::Unauthorized);
                }
                let derived_ok = match rederived {
                    Some(a) => a.same_as(&ctx.counter),
                    None => false,
                };
                if !derived_ok {
                    return Err(CounterError::ConstraintSeeds);
                }
                let ghost old_accounts = self.accounts@;
                let ghost old_records = self.records@;
                self.accounts.remove(i);
                self.records = Ghost(self.records@.remove(ctx.counter@));
                proof {
                    assert forall|j: int|
                        #![trigger self.accounts@[j]]
                        0 <= j < self.accounts@.len() implies self.records@.contains_key(
                        self.accounts@[j].0@,
                    ) && self.records@[self.accounts@[j].0@] == self.accounts@[j].1@ by {
                        if j < i {
                            assert(self.accounts@[j] == old_accounts[j]);
                        } else {
                            assert(self.accounts@[j] == old_accounts[j + 1]);
                        }
                    }
                    assert forall|a: Seq<u8>| #[trigger]
                        self.records@.contains_key(a) implies exists|j: int|
                        0 <= j < self.accounts@.len() && self.accounts@[j].0@ == a by {
                        assert(old_records.contains_key(a));
                        let k = choose|k: int|
                            0 <= k < old_accounts.len() && old_accounts[k].0@ == a;
                        assert(k != i);
                        if k < i {
                            assert(self.accounts@[k] == old_accounts[k]);
                        } else {
                            assert(self.accounts@[k - 1] == old_accounts[k]);
                        }
                    }
                    assert forall|j1: int, j2: int|
                        0 <= j1 < j2 < self.accounts@.len() implies self.accounts@[j1].0@
                        != self.accounts@[j2].0@ by {
                        let o1 = if j1 < i {
                            j1
                        } else {
                            j1 + 1
                        };
                        let o2 = if j2 < i {
                            j2
                        } else {
                            j2 + 1
                        };
                        assert(self.accounts@[j1] == old_accounts[o1]);
                        assert(self.accounts@[j2] == old_accounts[o2]);
                    }
                }
                Ok(CounterClosed { user: ctx.user, counter: ctx.counter, final_count: c.count })
            },
        }
    }
}

} // verus!
