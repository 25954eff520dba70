//! Client-side logic for driving a counter contract on an Ethereum-compatible
//! chain: key and address text handling, fee ceilings, call encoding for the
//! `Lock` contract, and the decisions of a sequential transaction batch.
pub mod fee;
pub mod hexkey;
pub mod lock;
pub mod submit;

pub use fee::{estimate_max_fee, FeeError};
pub use hexkey::{decode_private_key, remove_0x_prefix};
pub use lock::{
    AbiError, Address, ContractCall, CounterCall, EventFilter, CounterReturn, IncCall, Lock, LockCalls,
    OwnerCall, OwnerReturn, UnlockTimeCall, UnlockTimeReturn, WithdrawCall, WithdrawalFilter, U256,
};
pub use submit::{submit_batch, BatchSubmitter, SubmissionOutcome, SubmitAction};
