use vault_ledger::counter::Counter;
use vault_ledger::errors::CustomError;
use vault_ledger::identity::Identity;

fn id(b: u8) -> Identity {
    Identity { bytes: [b; 32] }
}

#[test]
fn counter_increment_is_owner_gated() {
    let mut c = Counter::initialize(id(3));
    assert_eq!(c.owner, id(3));
    assert_eq!(c.count, 0);
    assert_eq!(c.increment(id(3)), Ok(()));
    assert_eq!(c.count, 1);
    assert_eq!(c.increment(id(6)), Err(CustomError::Unauthorized));
    assert_eq!(c.count, 1);
    assert_eq!(c.increment(id(3)), Ok(()));
    assert_eq!(c.count, 2);
}

#[test]
fn counter_increment_checks_overflow() {
    let mut c = Counter::initialize(id(3));
    c.count = i64::MAX;
    assert_eq!(c.increment(id(3)), Err(CustomError::ArithmeticOverflow));
    assert_eq!(c.count, i64::MAX);
}
