use anchor_lang::prelude::Pubkey;
use counter::address::COUNTER_TAG;
use counter::key::Key;
use counter::ledger::{Close, Initialize, Ledger, Update};
use counter::program::{close, decrement, increment, initialize};
use counter::record::{apply, Counter, CounterError, Operation};

fn program() -> Key {
    Key::new([7u8; 32])
}

fn alice() -> Key {
    Key::new([0xA1u8; 32])
}

fn bob() -> Key {
    Key::new([0xB0u8; 32])
}

fn create(ledger: &mut Ledger, user: Key) -> Key {
    let e = initialize(ledger, &Initialize { user }).expect("create");
    assert_eq!(e.user, user);
    assert_eq!(e.count, 0);
    e.counter
}

#[test]
fn scenario_create_increment_unauthorized_close_recreate() {
    let mut ledger = Ledger::new(program());
    let addr = create(&mut ledger, alice());
    assert_eq!(ledger.get(&addr).unwrap().count, 0);

    let up = increment(&mut ledger, &Update { counter: addr, user: alice() }).unwrap();
    assert_eq!(up.previous_count, 0);
    assert_eq!(up.new_count, 1);
    assert_eq!(up.operation, Operation::Increment);
    assert_eq!(up.operation.tag(), "increment");
    assert_eq!(up.user, alice());
    assert_eq!(up.counter, addr);

    let bad = increment(&mut ledger, &Update { counter: addr, user: bob() });
    assert_eq!(bad, Err(CounterError::Unauthorized));
    assert_eq!(ledger.get(&addr).unwrap().count, 1);

    let closed = close(&mut ledger, &Close { counter: addr, user: alice() }).unwrap();
    assert_eq!(closed.final_count, 1);
    assert_eq!(closed.user, alice());
    assert!(ledger.get(&addr).is_none());

    let again = create(&mut ledger, alice());
    assert_eq!(again, addr);
    assert_eq!(ledger.get(&addr).unwrap().count, 0);
}

#[test]
fn second_create_for_same_owner_fails() {
    let mut ledger = Ledger::new(program());
    let addr = create(&mut ledger, alice());
    let r = initialize(&mut ledger, &Initialize { user: alice() });
    assert_eq!(r, Err(CounterError::AccountInUse));
    assert_eq!(ledger.get(&addr).unwrap().count, 0);
    let other = create(&mut ledger, bob());
    assert_ne!(other, addr);
}

#[test]
fn increment_then_decrement_restores_count() {
    let mut ledger = Ledger::new(program());
    let addr = create(&mut ledger, alice());
    let ctx = Update { counter: addr, user: alice() };
    increment(&mut ledger, &ctx).unwrap();
    increment(&mut ledger, &ctx).unwrap();
    let before = ledger.get(&addr).unwrap();
    increment(&mut ledger, &ctx).unwrap();
    let down = decrement(&mut ledger, &ctx).unwrap();
    assert_eq!(down.previous_count, 3);
    assert_eq!(down.new_count, 2);
    assert_eq!(down.operation.tag(), "decrement");
    assert_eq!(ledger.get(&addr).unwrap(), before);
    decrement(&mut ledger, &ctx).unwrap();
    increment(&mut ledger, &ctx).unwrap();
    assert_eq!(ledger.get(&addr).unwrap(), before);
}

#[test]
fn increment_at_max_overflows() {
    assert_eq!(apply(Operation::Increment, u64::MAX), Err(CounterError::CounterOverflow));
    assert_eq!(apply(Operation::Increment, u64::MAX - 1), Ok(u64::MAX));
    assert_eq!(apply(Operation::Decrement, u64::MAX), Ok(u64::MAX - 1));
}

#[test]
fn decrement_at_zero_underflows() {
    assert_eq!(apply(Operation::Decrement, 0), Err(CounterError::CounterUnderflow));
    let mut ledger = Ledger::new(program());
    let addr = create(&mut ledger, alice());
    let r = decrement(&mut ledger, &Update { counter: addr, user: alice() });
    assert_eq!(r, Err(CounterError::CounterUnderflow));
    assert_eq!(ledger.get(&addr).unwrap().count, 0);
}

#[test]
fn only_authority_may_change_or_close() {
    let mut ledger = Ledger::new(program());
    let addr = create(&mut ledger, alice());
    increment(&mut ledger, &Update { counter: addr, user: alice() }).unwrap();
    let before: Counter = ledger.get(&addr).unwrap();
    let by_bob = Update { counter: addr, user: bob() };
    assert_eq!(increment(&mut ledger, &by_bob), Err(CounterError::Unauthorized));
    assert_eq!(decrement(&mut ledger, &by_bob), Err(CounterError::Unauthorized));
    assert_eq!(
        close(&mut ledger, &Close { counter: addr, user: bob() }),
        Err(CounterError::Unauthorized)
    );
    assert_eq!(ledger.get(&addr).unwrap(), before);
    assert_eq!(before.authority, alice());
}

#[test]
fn missing_record_is_not_initialized() {
    let mut ledger = Ledger::new(program());
    let nowhere = Key::new([9u8; 32]);
    let ctx = Update { counter: nowhere, user: alice() };
    assert_eq!(increment(&mut ledger, &ctx), Err(CounterError::AccountNotInitialized));
    assert_eq!(decrement(&mut ledger, &ctx), Err(CounterError::AccountNotInitialized));
    assert_eq!(
        close(&mut ledger, &Close { counter: nowhere, user: alice() }),
        Err(CounterError::AccountNotInitialized)
    );
}

#[test]
fn address_is_the_program_derived_address() {
    let mut ledger = Ledger::new(program());
    let addr = create(&mut ledger, alice());
    let pid = Pubkey::new_from_array(program().to_bytes());
    let (expected, bump) =
        Pubkey::find_program_address(&[&COUNTER_TAG[..], &alice().to_bytes()[..]], &pid);
    assert_eq!(addr.to_bytes(), expected.to_bytes());
    assert_ne!(addr, alice());
    let stored = ledger.get(&addr).unwrap();
    assert_eq!(stored.bump, bump);
    assert_eq!(&COUNTER_TAG[..], b"counter");
}

#[test]
fn explicit_derivation_results() {
    let mut ledger = Ledger::new(program());
    let addr = Key::new([4u8; 32]);
    let other = Key::new([5u8; 32]);
    assert_eq!(
        ledger.initialize_at(&Initialize { user: alice() }, None),
        Err(CounterError::ConstraintSeeds)
    );
    let e = ledger.initialize_at(&Initialize { user: alice() }, Some((addr, 250))).unwrap();
    assert_eq!(e.counter, addr);
    assert_eq!(ledger.get(&addr).unwrap().bump, 250);
    assert_eq!(
        ledger.initialize_at(&Initialize { user: bob() }, Some((addr, 250))),
        Err(CounterError::AccountInUse)
    );
    let ctx = Update { counter: addr, user: alice() };
    assert_eq!(ledger.increment_at(&ctx, Some(other)), Err(CounterError::ConstraintSeeds));
    assert_eq!(ledger.increment_at(&ctx, None), Err(CounterError::ConstraintSeeds));
    assert_eq!(ledger.increment_at(&ctx, Some(addr)).unwrap().new_count, 1);
    assert_eq!(ledger.decrement_at(&ctx, Some(addr)).unwrap().new_count, 0);
    assert_eq!(ledger.decrement_at(&ctx, Some(addr)), Err(CounterError::CounterUnderflow));
    let cl = Close { counter: addr, user: alice() };
    assert_eq!(ledger.close_at(&cl, Some(other)), Err(CounterError::ConstraintSeeds));
    assert_eq!(ledger.close_at(&cl, Some(addr)).unwrap().final_count, 0);
    assert!(ledger.get(&addr).is_none());
}

#[test]
fn keys_compare_by_bytes() {
    let a = Key::new([1u8; 32]);
    let mut bytes = [1u8; 32];
    assert!(a.same_as(&Key::new(bytes)));
    bytes[31] = 2;
    assert!(!a.same_as(&Key::new(bytes)));
    assert_eq!(ledger_program_id(), program());
}

fn ledger_program_id() -> Key {
    Ledger::new(program()).program_id()
}
