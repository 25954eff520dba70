use counter_client::{
    submit_batch, decode_private_key, estimate_max_fee, remove_0x_prefix, AbiError, Address, BatchSubmitter,
    CounterCall, CounterReturn, FeeError, IncCall, Lock, LockCalls, OwnerCall, OwnerReturn,
    SubmissionOutcome, SubmitAction, UnlockTimeCall, U256, UnlockTimeReturn, WithdrawCall,
    WithdrawalFilter,
};

fn contract() -> Lock {
    Lock::new(Address { bytes: [0x11; 20] })
}

fn hash(b: u8) -> [u8; 32] {
    [b; 32]
}

/// Drives a batch, handing it the given send results in turn.
fn run_batch(count: u32, results: Vec<Result<[u8; 32], String>>) -> (Vec<u32>, BatchSubmitter) {
    let lock = contract();
    let mut batch = BatchSubmitter::new(count, lock.inc(), 200, 3_000_000);
    let mut attempts = Vec::new();
    let mut results = results.into_iter();
    loop {
        match batch.next_action() {
            SubmitAction::Send { index, call } => {
                assert_eq!(call.to, lock.address);
                assert_eq!(call.data, vec![0x37, 0x13, 0x03, 0xc0]);
                assert_eq!(call.gas, Some(3_000_000));
                assert_eq!(call.gas_price, Some(200));
                attempts.push(index);
                batch.record(results.next().expect("a result for every attempt"));
            }
            SubmitAction::Finished => break,
        }
    }
    assert!(batch.is_finished());
    (attempts, batch)
}

#[test]
fn prefix_lower_case_removed() {
    assert_eq!(remove_0x_prefix("0xdeadbeef"), "deadbeef");
}

#[test]
fn prefix_upper_case_removed() {
    assert_eq!(remove_0x_prefix("0XDEADBEEF"), "DEADBEEF");
}

#[test]
fn prefix_absent_kept() {
    assert_eq!(remove_0x_prefix("deadbeef"), "deadbeef");
    assert_eq!(remove_0x_prefix("0"), "0");
    assert_eq!(remove_0x_prefix(""), "");
    assert_eq!(remove_0x_prefix("x0ab"), "x0ab");
}

#[test]
fn prefix_alone_leaves_empty() {
    assert_eq!(remove_0x_prefix("0x"), "");
}

#[test]
fn private_key_decoded_with_prefix() {
    assert_eq!(decode_private_key("0x0a1B"), Some(vec![0x0a, 0x1b]));
}

#[test]
fn private_key_decoded_without_prefix() {
    assert_eq!(decode_private_key("ff00"), Some(vec![0xff, 0x00]));
    assert_eq!(decode_private_key("0x"), Some(vec![]));
}

#[test]
fn private_key_odd_length_refused() {
    assert_eq!(decode_private_key("0xabc"), None);
}

#[test]
fn private_key_bad_digit_refused() {
    assert_eq!(decode_private_key("0xzz"), None);
    assert_eq!(decode_private_key("0x0x12"), None);
}

#[test]
fn fee_zero_base_refused() {
    assert_eq!(estimate_max_fee(0, 2), Err(FeeError::InvalidInput));
    assert_eq!(estimate_max_fee(0, 0), Err(FeeError::InvalidInput));
    assert_eq!(estimate_max_fee(0, u32::MAX), Err(FeeError::InvalidInput));
}

#[test]
fn fee_is_product() {
    assert_eq!(estimate_max_fee(7, 2), Ok(14));
    assert_eq!(estimate_max_fee(1_000_000_007, 3), Ok(3_000_000_021));
    assert_eq!(estimate_max_fee(5, 0), Ok(0));
}

#[test]
fn fee_overflow_refused() {
    assert_eq!(estimate_max_fee(u128::MAX, 2), Err(FeeError::Overflow));
    assert_eq!(estimate_max_fee(u128::MAX, 1), Ok(u128::MAX));
}

#[test]
fn call_selectors() {
    assert_eq!(LockCalls::Counter(CounterCall).encode(), vec![0x61, 0xbc, 0x22, 0x1a]);
    assert_eq!(LockCalls::Inc(IncCall).encode(), vec![0x37, 0x13, 0x03, 0xc0]);
    assert_eq!(LockCalls::Owner(OwnerCall).encode(), vec![0x8d, 0xa5, 0xcb, 0x5b]);
    assert_eq!(LockCalls::UnlockTime(UnlockTimeCall).encode(), vec![0x25, 0x1c, 0x1a, 0xa3]);
    assert_eq!(LockCalls::Withdraw(WithdrawCall).encode(), vec![0x3c, 0xcf, 0xd6, 0x0b]);
}

#[test]
fn selectors_match_signature_hashes() {
    for (call, sig) in [
        (LockCalls::Counter(CounterCall), "counter()"),
        (LockCalls::Inc(IncCall), "inc()"),
        (LockCalls::Owner(OwnerCall), "owner()"),
        (LockCalls::UnlockTime(UnlockTimeCall), "unlockTime()"),
        (LockCalls::Withdraw(WithdrawCall), "withdraw()"),
    ] {
        assert_eq!(call.selector(), ethers::utils::keccak256(sig.as_bytes())[..4].to_vec());
    }
}

#[test]
fn calls_decode_after_encode() {
    for call in [
        LockCalls::Counter(CounterCall),
        LockCalls::Inc(IncCall),
        LockCalls::Owner(OwnerCall),
        LockCalls::UnlockTime(UnlockTimeCall),
        LockCalls::Withdraw(WithdrawCall),
    ] {
        assert_eq!(LockCalls::decode(&call.encode()), Ok(call));
    }
}

#[test]
fn call_decode_ignores_trailing_bytes() {
    assert_eq!(LockCalls::decode(&[0x37, 0x13, 0x03, 0xc0, 1, 2]), Ok(LockCalls::Inc(IncCall)));
}

#[test]
fn call_decode_refuses_unknown_or_short() {
    assert_eq!(LockCalls::decode(&[0x37, 0x13, 0x03]), Err(AbiError::InvalidData));
    assert_eq!(LockCalls::decode(&[]), Err(AbiError::InvalidData));
    assert_eq!(LockCalls::decode(&[0, 0, 0, 0]), Err(AbiError::InvalidData));
}

#[test]
fn lock_builds_calls() {
    let lock = contract();
    let cases = [
        (lock.counter(), LockCalls::Counter(CounterCall)),
        (lock.inc(), LockCalls::Inc(IncCall)),
        (lock.owner(), LockCalls::Owner(OwnerCall)),
        (lock.unlock_time(), LockCalls::UnlockTime(UnlockTimeCall)),
        (lock.withdraw(), LockCalls::Withdraw(WithdrawCall)),
    ];
    for (call, which) in cases {
        assert_eq!(call.to, lock.address);
        assert_eq!(call.data, which.encode());
        assert_eq!(call.gas, None);
        assert_eq!(call.gas_price, None);
    }
}

#[test]
fn call_gas_and_price_attached() {
    let call = contract().inc().gas(3_000_000).gas_price(42);
    assert_eq!(call.gas, Some(3_000_000));
    assert_eq!(call.gas_price, Some(42));
    assert_eq!(call.data, vec![0x37, 0x13, 0x03, 0xc0]);
}

#[test]
fn counter_return_decoded() {
    let mut data = [0u8; 32];
    data[31] = 7;
    data[0] = 1;
    let r = CounterReturn::decode(&data).unwrap();
    assert_eq!(r.0.bytes, data);
    assert_eq!(UnlockTimeReturn::decode(&data).unwrap().0.bytes, data);
}

#[test]
fn return_too_short_refused() {
    assert_eq!(CounterReturn::decode(&[0u8; 31]), Err(AbiError::InvalidData));
    assert_eq!(UnlockTimeReturn::decode(&[]), Err(AbiError::InvalidData));
    assert_eq!(OwnerReturn::decode(&[0u8; 20]), Err(AbiError::InvalidData));
    assert_eq!(WithdrawalFilter::decode(&[0u8; 63]), Err(AbiError::InvalidData));
}

#[test]
fn owner_return_takes_last_twenty_bytes() {
    let mut data = [0u8; 32];
    for (i, b) in data.iter_mut().enumerate() {
        *b = i as u8;
    }
    let r = OwnerReturn::decode(&data).unwrap();
    let expected: Vec<u8> = (12u8..32).collect();
    assert_eq!(r.0.bytes.to_vec(), expected);
}

#[test]
fn withdrawal_log_decoded() {
    let mut data = [0u8; 64];
    data[31] = 5;
    data[63] = 9;
    let w = WithdrawalFilter::decode(&data).unwrap();
    assert_eq!(w.amount.bytes[31], 5);
    assert_eq!(w.when.bytes[31], 9);
    assert_eq!(w.amount.bytes[..31], [0u8; 31]);
}

#[test]
fn withdrawal_filter_topic() {
    let f = contract().withdrawal_filter();
    assert_eq!(f.address, None);
    let expected = ethers::utils::keccak256("Withdrawal(uint256,uint256)".as_bytes());
    assert_eq!(f.topic0, Some(expected));
    assert_ne!(f.topic0, Some([0u8; 32]));
}

#[test]
fn events_filter_by_address() {
    let lock = contract();
    let f = lock.events();
    assert_eq!(f.address, Some(lock.address));
    assert_eq!(f.topic0, None);
}

#[test]
fn batch_of_zero_is_finished() {
    let (attempts, batch) = run_batch(0, vec![]);
    assert!(attempts.is_empty());
    assert!(batch.outcomes().is_empty());
    assert_eq!(batch.successes(), 0);
}

#[test]
fn batch_returns_count_outcomes_in_order() {
    let results: Vec<Result<[u8; 32], String>> = (0..10u8).map(|i| Ok(hash(i))).collect();
    let (attempts, batch) = run_batch(10, results);
    assert_eq!(attempts, (0..10).collect::<Vec<u32>>());
    assert_eq!(batch.outcomes().len(), 10);
    for (i, o) in batch.outcomes().iter().enumerate() {
        assert_eq!(*o, SubmissionOutcome::Success { tx_hash: hash(i as u8) });
    }
}

#[test]
fn batch_all_success_counts_every_send() {
    let results: Vec<Result<[u8; 32], String>> = (0..4u8).map(|i| Ok(hash(i))).collect();
    let (_, batch) = run_batch(4, results);
    assert_eq!(batch.successes(), 4);
}

#[test]
fn batch_failure_does_not_stop_later_attempts() {
    let results = vec![
        Err("insufficient funds".to_string()),
        Ok(hash(1)),
        Err("rejected".to_string()),
        Ok(hash(3)),
    ];
    let (attempts, batch) = run_batch(4, results);
    assert_eq!(attempts, vec![0, 1, 2, 3]);
    assert_eq!(batch.outcomes()[0], SubmissionOutcome::Failure { reason: "insufficient funds".to_string() });
    assert_eq!(batch.outcomes()[2], SubmissionOutcome::Failure { reason: "rejected".to_string() });
    assert_eq!(batch.successes(), 2);
}

#[test]
fn batch_success_failure_success() {
    let results = vec![Ok(hash(0)), Err("nonce too low".to_string()), Ok(hash(2))];
    let (_, batch) = run_batch(3, results);
    assert_eq!(
        *batch.outcomes(),
        vec![
            SubmissionOutcome::Success { tx_hash: hash(0) },
            SubmissionOutcome::Failure { reason: "nonce too low".to_string() },
            SubmissionOutcome::Success { tx_hash: hash(2) },
        ]
    );
    assert_eq!(batch.successes(), 2);
}

fn word(low: &[u8]) -> U256 {
    let mut bytes = [0u8; 32];
    bytes[32 - low.len()..].copy_from_slice(low);
    U256 { bytes }
}

#[test]
fn counter_delta_with_borrow() {
    let after = word(&[0x01, 0x00]);
    let before = word(&[0x01]);
    assert_eq!(after.checked_sub(&before), Some(word(&[0xff])));
}

#[test]
fn counter_delta_of_equal_values_is_zero() {
    let v = word(&[0x12, 0x34, 0x56]);
    assert_eq!(v.checked_sub(&v), Some(word(&[])));
}

#[test]
fn counter_delta_refused_when_smaller() {
    assert_eq!(word(&[2]).checked_sub(&word(&[3])), None);
    assert_eq!(word(&[]).checked_sub(&U256 { bytes: [0xff; 32] }), None);
}

#[test]
fn counter_delta_across_high_bytes() {
    let mut high = [0u8; 32];
    high[0] = 1;
    let r = U256 { bytes: high }.checked_sub(&word(&[1])).unwrap();
    let mut expected = [0xffu8; 32];
    expected[0] = 0;
    assert_eq!(r.bytes, expected);
    assert_eq!(U256 { bytes: [0xff; 32] }.checked_sub(&word(&[])), Some(U256 { bytes: [0xff; 32] }));
}

#[test]
fn submit_batch_keeps_each_outcome_in_place() {
    let results = vec![Ok(hash(0)), Err("nonce too low".to_string()), Ok(hash(2))];
    let outcomes = submit_batch(3, contract().inc(), 200, 3_000_000, results);
    assert_eq!(
        outcomes,
        vec![
            SubmissionOutcome::Success { tx_hash: hash(0) },
            SubmissionOutcome::Failure { reason: "nonce too low".to_string() },
            SubmissionOutcome::Success { tx_hash: hash(2) },
        ]
    );
}

#[test]
fn submit_batch_of_zero_is_empty() {
    assert!(submit_batch(0, contract().inc(), 200, 3_000_000, vec![]).is_empty());
}

#[test]
fn calls_convert_into_lock_calls() {
    assert_eq!(LockCalls::from(CounterCall), LockCalls::Counter(CounterCall));
    assert_eq!(LockCalls::from(IncCall), LockCalls::Inc(IncCall));
    assert_eq!(LockCalls::from(OwnerCall), LockCalls::Owner(OwnerCall));
    assert_eq!(LockCalls::from(UnlockTimeCall), LockCalls::UnlockTime(UnlockTimeCall));
    let w: LockCalls = WithdrawCall.into();
    assert_eq!(w, LockCalls::Withdraw(WithdrawCall));
}
