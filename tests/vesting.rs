use vesting_locker::amount::Amount;
use vesting_locker::locker::{Release, VestingError, VestingLocker, VestingRecord, YEAR_IN_SECONDS};

fn owner() -> Vec<u8> {
    vec![0x11; 32]
}

fn stranger() -> Vec<u8> {
    vec![0x22; 32]
}

fn amount(v: u128) -> Amount {
    Amount::from_be_bytes(v.to_be_bytes().to_vec())
}

fn value(a: &Amount) -> u128 {
    a.to_be_bytes()
        .iter()
        .fold(0u128, |acc, &b| acc.checked_mul(256).unwrap() + b as u128)
}

fn snapshot(l: &VestingRecord) -> (Vec<u8>, Option<Vec<u8>>, Vec<u8>, u64, u64) {
    (
        l.owner().clone(),
        l.token().clone(),
        l.lock_amount().to_be_bytes(),
        l.times_unlocked(),
        l.last_unlock(),
    )
}

fn release_value(r: Result<Release, VestingError>) -> u128 {
    let release = r.unwrap();
    assert_eq!(release.to, owner());
    assert_eq!(release.token, b"ECITY".to_vec());
    value(&release.amount)
}

#[test]
fn deploy_test() {
    let l = VestingRecord::init(owner());
    assert_eq!(l.owner(), &owner());
    assert_eq!(l.token(), &None);
    assert_eq!(value(l.lock_amount()), 0);
    assert_eq!(l.times_unlocked(), 0);
    assert_eq!(l.last_unlock(), 0);
}

#[test]
fn lock_unlock_tokens() {
    let mut l = VestingRecord::init(owner());
    let mut owner_balance: u128 = 3000;
    let mut contract_balance: u128 = 0;

    let now: u64 = 100;
    assert_eq!(l.lock_tokens(&owner(), b"ECITY".to_vec(), amount(1000), now), Ok(()));
    owner_balance -= 1000;
    contract_balance += 1000;
    assert_eq!(owner_balance, 2000);
    assert_eq!(contract_balance, 1000);

    let err = l.unlock_tokens(&owner(), now).unwrap_err();
    assert_eq!(err, VestingError::TooEarly);
    assert_eq!(err.message(), "Tokens can only be unlocked once a year");

    let mut current_time: u64 = 100;
    for i in 1..=5u64 {
        current_time += 31536000 + i * 100;
        let sent = release_value(l.unlock_tokens(&owner(), current_time));
        owner_balance += sent;
        contract_balance -= sent;
        assert_eq!(owner_balance, 2000 + 1000 / 5 * i as u128);
        assert_eq!(contract_balance, 1000 - 1000 / 5 * i as u128);
    }

    current_time += 31536000 + 100;
    let err = l.unlock_tokens(&owner(), current_time).unwrap_err();
    assert_eq!(err, VestingError::ScheduleExhausted);
    assert_eq!(err.message(), "Tokens have already been unlocked 5 times");
}

#[test]
fn lock_twice() {
    let mut l = VestingRecord::init(owner());
    assert_eq!(l.lock_tokens(&owner(), b"ECITY".to_vec(), amount(1000), 100), Ok(()));
    assert_eq!(3000 - value(l.lock_amount()), 2000);
    assert_eq!(value(l.lock_amount()), 1000);

    let err = l.lock_tokens(&owner(), b"ECITY".to_vec(), amount(1000), 100).unwrap_err();
    assert_eq!(err, VestingError::AlreadyLocked);
    assert_eq!(err.message(), "Tokens already locked");
    assert_eq!(value(l.lock_amount()), 1000);
}

#[test]
fn lock_zero_tokens() {
    let mut l = VestingRecord::init(owner());
    let err = l.lock_tokens(&owner(), b"ECITY".to_vec(), amount(0), 100).unwrap_err();
    assert_eq!(err, VestingError::ZeroAmount);
    assert_eq!(err.message(), "Cannot lock 0 tokens");
    assert_eq!(l.last_unlock(), 0);
    assert_eq!(l.token(), &None);
}

#[test]
fn unlock_before_lock() {
    let mut l = VestingRecord::init(owner());
    let err = l.unlock_tokens(&owner(), 100).unwrap_err();
    assert_eq!(err, VestingError::NotLocked);
    assert_eq!(err.message(), "Tokens not locked");
}

#[test]
fn full_lifecycle_releases_everything() {
    let mut l = VestingRecord::init(owner());
    assert_eq!(l.lock_tokens(&owner(), b"ECITY".to_vec(), amount(1000), 100), Ok(()));
    assert_eq!(l.unlock_tokens(&owner(), 100).unwrap_err(), VestingError::TooEarly);
    let mut t: u64 = 100;
    let mut total: u128 = 0;
    for k in 1..=5u64 {
        t += 31536001;
        total += release_value(l.unlock_tokens(&owner(), t));
        assert_eq!(l.times_unlocked(), k);
        assert_eq!(total, 200 * k as u128);
    }
    t += 31536001;
    assert_eq!(l.unlock_tokens(&owner(), t).unwrap_err(), VestingError::ScheduleExhausted);
    assert_eq!(total, 1000);
}

#[test]
fn time_gate_is_strict() {
    let mut l = VestingRecord::init(owner());
    assert_eq!(l.lock_tokens(&owner(), b"ECITY".to_vec(), amount(1000), 100), Ok(()));
    assert_eq!(YEAR_IN_SECONDS, 31536000);
    let before = snapshot(&l);
    assert_eq!(l.unlock_tokens(&owner(), 100 + 31536000).unwrap_err(), VestingError::TooEarly);
    assert_eq!(snapshot(&l), before);
    assert_eq!(release_value(l.unlock_tokens(&owner(), 100 + 31536001)), 200);
    assert_eq!(l.last_unlock(), 100 + 31536001);
    assert_eq!(l.times_unlocked(), 1);
}

#[test]
fn time_going_back_is_too_early() {
    let mut l = VestingRecord::init(owner());
    assert_eq!(l.lock_tokens(&owner(), b"ECITY".to_vec(), amount(1000), 100_000_000), Ok(()));
    assert_eq!(l.unlock_tokens(&owner(), 5).unwrap_err(), VestingError::TooEarly);
}

#[test]
fn failing_calls_change_nothing() {
    let mut l = VestingRecord::init(owner());
    assert_eq!(l.lock_tokens(&owner(), b"ECITY".to_vec(), amount(1000), 100), Ok(()));
    let before = snapshot(&l);
    for t in [100u64, 1000, 31536100] {
        assert_eq!(l.unlock_tokens(&owner(), t).unwrap_err(), VestingError::TooEarly);
        assert_eq!(snapshot(&l), before);
    }
    assert_eq!(
        l.lock_tokens(&owner(), b"OTHER".to_vec(), amount(5), 200).unwrap_err(),
        VestingError::AlreadyLocked
    );
    assert_eq!(snapshot(&l), before);
}

#[test]
fn only_owner_may_call() {
    let mut l = VestingRecord::init(owner());
    let fresh = snapshot(&l);
    let err = l.lock_tokens(&stranger(), b"ECITY".to_vec(), amount(0), 100).unwrap_err();
    assert_eq!(err, VestingError::Unauthorized);
    assert_eq!(err.message(), "Endpoint can only be called by owner");
    assert_eq!(l.unlock_tokens(&stranger(), 100).unwrap_err(), VestingError::Unauthorized);
    assert_eq!(snapshot(&l), fresh);

    assert_eq!(l.lock_tokens(&owner(), b"ECITY".to_vec(), amount(1000), 100), Ok(()));
    assert_eq!(
        l.lock_tokens(&stranger(), b"ECITY".to_vec(), amount(1000), 100).unwrap_err(),
        VestingError::Unauthorized
    );
    assert_eq!(
        l.unlock_tokens(&stranger(), 100 + 31536001).unwrap_err(),
        VestingError::Unauthorized
    );
    assert_eq!(l.times_unlocked(), 0);
}

#[test]
fn remainder_stays_locked() {
    let mut l = VestingRecord::init(owner());
    assert_eq!(l.lock_tokens(&owner(), b"ECITY".to_vec(), amount(1004), 1), Ok(()));
    let mut t: u64 = 1;
    let mut total: u128 = 0;
    for _ in 0..5 {
        t += 31536001;
        total += release_value(l.unlock_tokens(&owner(), t));
    }
    assert_eq!(total, 1000);
    assert!(total <= value(l.lock_amount()));
    assert_eq!(value(l.lock_amount()), 1004);
}

#[test]
fn lock_records_token_amount_and_time() {
    let mut l = VestingRecord::init(owner());
    assert_eq!(l.lock_tokens(&owner(), b"ECITY".to_vec(), amount(7), 42), Ok(()));
    assert_eq!(l.token(), &Some(b"ECITY".to_vec()));
    assert_eq!(value(l.lock_amount()), 7);
    assert_eq!(l.last_unlock(), 42);
    assert_eq!(l.times_unlocked(), 0);
    assert_eq!(release_value(l.unlock_tokens(&owner(), 42 + 31536001)), 1);
}

#[test]
fn amounts_beyond_machine_words() {
    // 2^128 * 5 + 3, released as 2^128 per tranche.
    let mut bytes = vec![5u8];
    bytes.extend_from_slice(&[0u8; 15]);
    bytes.push(3);
    let big = Amount::from_be_bytes(bytes);
    assert!(!big.is_zero());
    let tranche = big.div_small(5);
    let mut expected = vec![1u8];
    expected.extend_from_slice(&[0u8; 16]);
    assert_eq!(tranche.to_be_bytes(), expected);

    let mut l = VestingRecord::init(owner());
    assert_eq!(l.lock_tokens(&owner(), b"BIG".to_vec(), Amount::from_be_bytes(big.to_be_bytes()), 10), Ok(()));
    let release = l.unlock_tokens(&owner(), 10 + 31536001).unwrap();
    assert_eq!(release.amount.to_be_bytes(), expected);
}

#[test]
fn amount_arithmetic() {
    assert!(Amount::from_be_bytes(vec![]).is_zero());
    assert!(Amount::from_be_bytes(vec![0, 0, 0]).is_zero());
    assert!(!Amount::from_be_bytes(vec![0, 0, 1]).is_zero());
    assert_eq!(value(&amount(1000).div_small(5)), 200);
    assert_eq!(value(&amount(1004).div_small(5)), 200);
    assert_eq!(value(&amount(4).div_small(5)), 0);
    assert_eq!(value(&amount(255).div_small(1)), 255);
    assert_eq!(value(&amount(65535).div_small(255)), 257);
    assert_eq!(value(&amount(u128::MAX).div_small(3)), u128::MAX / 3);
    assert_eq!(Amount::from_be_bytes(vec![3, 232]).to_be_bytes(), vec![3, 232]);
}

#[test]
fn restore_checks_the_record() {
    assert!(VestingRecord::restore(owner(), None, amount(0), 0, 0).is_some());
    assert!(VestingRecord::restore(owner(), Some(b"ECITY".to_vec()), amount(1000), 5, 9).is_some());
    assert!(VestingRecord::restore(owner(), Some(b"ECITY".to_vec()), amount(1000), 6, 9).is_none());
    assert!(VestingRecord::restore(owner(), None, amount(0), 1, 0).is_none());
    assert!(VestingRecord::restore(owner(), None, amount(1000), 0, 9).is_none());

    let mut l = VestingRecord::restore(owner(), Some(b"ECITY".to_vec()), amount(1000), 4, 9).unwrap();
    assert_eq!(release_value(l.unlock_tokens(&owner(), 9 + 31536001)), 200);
    assert_eq!(
        l.unlock_tokens(&owner(), 9 + 2 * 31536001).unwrap_err(),
        VestingError::ScheduleExhausted
    );
}
