//! Typed calls of the `Lock` contract: which functions it has, the four-byte
//! selector that picks each one, and the ABI words that its getters return.
use vstd::prelude::*;
use vstd::string::*;

verus! {

/// A 20-byte account or contract address.
#[derive(Debug, Clone, Copy, PartialEq, Eq)]
pub struct Address {
    pub bytes: [u8; 20],
}

/// A 256-bit unsigned integer as its 32 big-endian bytes, the layout of an ABI word.
#[derive(Debug, Clone, Copy, PartialEq, Eq)]
pub struct U256 {
    pub bytes: [u8; 32],
}

/// `256` to the power `n`.
pub open spec fn pow256(n: nat) -> nat
    decreases n,
{
    if n == 0 {
        1
    } else {
        256 * pow256((n - 1) as nat)
    }
}

/// The number that the big-endian bytes `s` stand for.
pub open spec fn be_value(s: Seq<u8>) -> nat
    decreases s.len(),
{
    if s.len() == 0 {
        0
    } else {
        s[0] as nat * pow256((s.len() - 1) as nat) + be_value(s.drop_first())
    }
}

proof fn lemma_be_value_bound(s: Seq<u8>)
    ensures
        be_value(s) < pow256(s.len()),
    decreases s.len(),
{
    if s.len() > 0 {
        let p = pow256((s.len() - 1) as nat);
        lemma_be_value_bound(s.drop_first());
        assert(s.drop_first().len() == s.len() - 1);
        assert(s[0] as nat * p <= 255 * p) by (nonlinear_arith)
            requires
                s[0] as nat <= 255,
        ;
    }
}

impl U256 {
    /// The number these bytes stand for.
    pub open spec fn value(&self) -> nat {
        be_value(self.bytes@)
    }

    /// `self - other`, or `None` where `other` is the larger.
    pub fn checked_sub(&self, other: &U256) -> (r: Option<U256>)
        ensures
            r is Some <==> self.value() >= other.value(),
            r matches Some(d) ==> d.value() == self.value() - other.value(),
    {
        let ghost a = self.bytes@;
        let ghost b = other.bytes@;
        let mut out = [0u8; 32];
        let mut borrow: u8 = 0;
        let mut i: usize = 32;
        proof {
            assert(a.subrange(32, 32).len() == 0);
            assert(b.subrange(32, 32).len() == 0);
            assert(out@.subrange(32, 32).len() == 0);
        }
        while i > 0
            invariant
                i <= 32,
                a == self.bytes@,
                b == other.bytes@,
                borrow <= 1,
                be_value(a.subrange(i as int, 32)) + borrow * pow256((32 - i) as nat) == be_value(
                    b.subrange(i as int, 32),
                ) + be_value(out@.subrange(i as int, 32)),
            decreases i,
        {
            let j = i - 1;
            let x = self.bytes[j];
            let y = other.bytes[j];
            let need: u16 = y as u16 + borrow as u16;
            let (d, nb): (u8, u8) = if x as u16 >= need {
                ((x as u16 - need) as u8, 0)
            } else {
                ((x as u16 + 256 - need) as u8, 1)
            };
            let ghost old_out = out@;
            out[j] = d;
            proof {
                let p = pow256((32 - i) as nat);
                assert(pow256((32 - j) as nat) == 256 * p);
                assert(out@.subrange(i as int, 32) =~= old_out.subrange(i as int, 32));
                assert(a.subrange(j as int, 32).drop_first() =~= a.subrange(i as int, 32));
                assert(b.subrange(j as int, 32).drop_first() =~= b.subrange(i as int, 32));
                assert(out@.subrange(j as int, 32).drop_first() =~= out@.subrange(i as int, 32));
                assert(out@.subrange(j as int, 32)[0] == d);
                let av = be_value(a.subrange(i as int, 32));
                let bv = be_value(b.subrange(i as int, 32));
                let ov = be_value(out@.subrange(i as int, 32));
                assert(x as int + 256 * nb as int == y as int + borrow as int + d as int);
                assert(x as nat * p + av + nb as nat * (256 * p) == y as nat * p + bv + d as nat
                    * p + ov) by (nonlinear_arith)
                    requires
                        av + borrow as nat * p == bv + ov,
                        x as int + 256 * nb as int == y as int + borrow as int + d as int,
                ;
            }
            borrow = nb;
            i = j;
        }
        proof {
            assert(a.subrange(0, 32) =~= a);
            assert(b.subrange(0, 32) =~= b);
            assert(out@.subrange(0, 32) =~= out@);
            lemma_be_value_bound(out@);
            lemma_be_value_bound(b);
        }
        if borrow == 0 {
            Some(U256 { bytes: out })
        } else {
            None
        }
    }
}

/// Why bytes could not be read as a call, a return value or an event of the contract.
#[derive(Debug, Clone, Copy, PartialEq, Eq, Structural)]
pub enum AbiError {
    /// The data is not a call of any of the contract's functions, or is
    /// shorter than the ABI words it should hold.
    InvalidData,
}

/// A call to a contract, ready to be signed and sent or evaluated read-only.
#[derive(Debug, Clone)]
pub struct ContractCall {
    /// The contract called.
    pub to: Address,
    /// The calldata: selector, then encoded arguments.
    pub data: Vec<u8>,
    /// The gas limit, where one was set.
    pub gas: Option<u64>,
    /// The price per unit of gas, where one was set.
    pub gas_price: Option<u128>,
}

impl ContractCall {
    /// The same call with its gas limit set to `gas`.
    pub fn gas(self, gas: u64) -> (r: ContractCall)
        ensures
            r.to == self.to,
            r.data@ == self.data@,
            r.gas == Some(gas),
            r.gas_price == self.gas_price,
    {
        ContractCall { gas: Some(gas), ..self }
    }

    /// The same call with its price per unit of gas set to `price`.
    pub fn gas_price(self, price: u128) -> (r: ContractCall)
        ensures
            r.to == self.to,
            r.data@ == self.data@,
            r.gas == self.gas,
            r.gas_price == Some(price),
    {
        ContractCall { gas_price: Some(price), ..self }
    }
}

/// Parameters of `counter()`, which takes none.
#[derive(Debug, Clone, Copy, PartialEq, Eq, Structural, Default)]
pub struct CounterCall;

/// Parameters of `inc()`, which takes none.
#[derive(Debug, Clone, Copy, PartialEq, Eq, Structural, Default)]
pub struct IncCall;

/// Parameters of `owner()`, which takes none.
#[derive(Debug, Clone, Copy, PartialEq, Eq, Structural, Default)]
pub struct OwnerCall;

/// Parameters of `unlockTime()`, which takes none.
#[derive(Debug, Clone, Copy, PartialEq, Eq, Structural, Default)]
pub struct UnlockTimeCall;

/// Parameters of `withdraw()`, which takes none.
#[derive(Debug, Clone, Copy, PartialEq, Eq, Structural, Default)]
pub struct WithdrawCall;

/// Any call of the contract.
#[derive(Debug, Clone, Copy, PartialEq, Eq, Structural)]
pub enum LockCalls {
    Counter(CounterCall),
    Inc(IncCall),
    Owner(OwnerCall),
    UnlockTime(UnlockTimeCall),
    Withdraw(WithdrawCall),
}

impl From<CounterCall> for LockCalls {
    fn from(value: CounterCall) -> (r: LockCalls)
        ensures
            r == LockCalls::Counter(value),
    {
        LockCalls::Counter(value)
    }
}

impl vstd::std_specs::convert::FromSpecImpl<CounterCall> for LockCalls {
    open spec fn obeys_from_spec() -> bool {
        true
    }

    open spec fn from_spec(v: CounterCall) -> LockCalls {
        LockCalls::Counter(v)
    }
}

impl From<IncCall> for LockCalls {
    fn from(value: IncCall) -> (r: LockCalls)
        ensures
            r == LockCalls::Inc(value),
    {
        LockCalls::Inc(value)
    }
}

impl vstd::std_specs::convert::FromSpecImpl<IncCall> for LockCalls {
    open spec fn obeys_from_spec() -> bool {
        true
    }

    open spec fn from_spec(v: IncCall) -> LockCalls {
        LockCalls::Inc(v)
    }
}

impl From<OwnerCall> for LockCalls {
    fn from(value: OwnerCall) -> (r: LockCalls)
        ensures
            r == LockCalls::Owner(value),
    {
        LockCalls::Owner(value)
    }
}

impl vstd::std_specs::convert::FromSpecImpl<OwnerCall> for LockCalls {
    open spec fn obeys_from_spec() -> bool {
        true
    }

    open spec fn from_spec(v: OwnerCall) -> LockCalls {
        LockCalls::Owner(v)
    }
}

impl From<UnlockTimeCall> for LockCalls {
    fn from(value: UnlockTimeCall) -> (r: LockCalls)
        ensures
            r == LockCalls::UnlockTime(value),
    {
        LockCalls::UnlockTime(value)
    }
}

impl vstd::std_specs::convert::FromSpecImpl<UnlockTimeCall> for LockCalls {
    open spec fn obeys_from_spec() -> bool {
        true
    }

    open spec fn from_spec(v: UnlockTimeCall) -> LockCalls {
        LockCalls::UnlockTime(v)
    }
}

impl From<WithdrawCall> for LockCalls {
    fn from(value: WithdrawCall) -> (r: LockCalls)
        ensures
            r == LockCalls::Withdraw(value),
    {
        LockCalls::Withdraw(value)
    }
}

impl vstd::std_specs::convert::FromSpecImpl<WithdrawCall> for LockCalls {
    open spec fn obeys_from_spec() -> bool {
        true
    }

    open spec fn from_spec(v: WithdrawCall) -> LockCalls {
        LockCalls::Withdraw(v)
    }
}

/// The selector of each function: the first four bytes of the Keccak-256 hash
/// of its signature (`counter()` gives `0x61bc221a`).
pub open spec fn selector_of(call: LockCalls) -> Seq<u8> {
    match call {
        LockCalls::Counter(_) => seq![0x61u8, 0xbc, 0x22, 0x1a],
        LockCalls::Inc(_) => seq![0x37u8, 0x13, 0x03, 0xc0],
        LockCalls::Owner(_) => seq![0x8du8, 0xa5, 0xcb, 0x5b],
        LockCalls::UnlockTime(_) => seq![0x25u8, 0x1c, 0x1a, 0xa3],
        LockCalls::Withdraw(_) => seq![0x3cu8, 0xcf, 0xd6, 0x0b],
    }
}

/// Whether `data` is a call of `call`: its selector, then anything (none of
/// the functions has parameters, so the rest is never read).
pub open spec fn is_call_of(data: Seq<u8>, call: LockCalls) -> bool {
    data.len() >= 4 && data.subrange(0, 4) == selector_of(call)
}

/// Calldata reads back as the call that wrote it: no two functions share a
/// selector, so the selector of `written` is a call of `read` only where they agree.
pub proof fn lemma_decode_after_encode(written: LockCalls, read: LockCalls)
    requires
        is_call_of(selector_of(written), read),
    ensures
        read == written,
{
    let s = selector_of(written);
    assert(s.subrange(0, 4) =~= s);
    let t = selector_of(read);
    assert(s[0] == t[0] && s[3] == t[3]);
}

impl LockCalls {
    /// The four-byte selector of this call.
    pub fn selector(&self) -> (r: Vec<u8>)
        ensures
            r@ == selector_of(*self),
    {
        let r = match self {
            LockCalls::Counter(_) => vec![0x61u8, 0xbc, 0x22, 0x1a],
            LockCalls::Inc(_) => vec![0x37u8, 0x13, 0x03, 0xc0],
            LockCalls::Owner(_) => vec![0x8du8, 0xa5, 0xcb, 0x5b],
            LockCalls::UnlockTime(_) => vec![0x25u8, 0x1c, 0x1a, 0xa3],
            LockCalls::Withdraw(_) => vec![0x3cu8, 0xcf, 0xd6, 0x0b],
        };
        assert(r@ =~= selector_of(*self));
        r
    }

    /// The calldata of this call: its selector alone, as no function takes arguments.
    pub fn encode(&self) -> (r: Vec<u8>)
        ensures
            r@ == selector_of(*self),
    {
        self.selector()
    }

    /// Reads calldata as a call of the contract.
    pub fn decode(data: &[u8]) -> (r: Result<LockCalls, AbiError>)
        ensures
            r matches Ok(c) ==> is_call_of(data@, c),
            r is Err <==> forall|c: LockCalls| !is_call_of(data@, c),
            r is Err ==> r == Err::<LockCalls, AbiError>(AbiError::InvalidData),
    {
        if data.len() < 4 {
            return Err(AbiError::InvalidData);
        }
        let candidates = [
            LockCalls::Counter(CounterCall),
            LockCalls::Inc(IncCall),
            LockCalls::Owner(OwnerCall),
            LockCalls::UnlockTime(UnlockTimeCall),
            LockCalls::Withdraw(WithdrawCall),
        ];
        let mut k: usize = 0;
        while k < 5
            invariant
                0 <= k <= 5,
                data@.len() >= 4,
                candidates@ == seq![
                    LockCalls::Counter(CounterCall),
                    LockCalls::Inc(IncCall),
                    LockCalls::Owner(OwnerCall),
                    LockCalls::UnlockTime(UnlockTimeCall),
                    LockCalls::Withdraw(WithdrawCall),
                ],
                forall|j: int| 0 <= j < k ==> !is_call_of(data@, #[trigger] candidates@[j]),
            decreases 5 - k,
        {
            let c = candidates[k];
            let sel = c.selector();
            if data[0] == sel[0] && data[1] == sel[1] && data[2] == sel[2] && data[3] == sel[3] {
                assert(data@.subrange(0, 4) =~= sel@);
                return Ok(c);
            }
            assert(data@.subrange(0, 4)[0] == data@[0]);
            k = k + 1;
        }
        assert forall|c: LockCalls| !is_call_of(data@, c) by {
            let i: int = match c {
                LockCalls::Counter(_) => 0,
                LockCalls::Inc(_) => 1,
                LockCalls::Owner(_) => 2,
                LockCalls::UnlockTime(_) => 3,
                LockCalls::Withdraw(_) => 4,
            };
            assert(candidates@[i] == c);
        }
        Err(AbiError::InvalidData)
    }
}

/// The Keccak-256 hash of `data`.
pub uninterp spec fn keccak256_of(data: Seq<u8>) -> Seq<u8>;

/// Relies on ethers::utils::keccak256: the 32-byte Keccak-256 hash of the bytes given.
#[verifier::external_body]
fn keccak256(data: &[u8]) -> (r: [u8; 32])
    ensures
        r@ == keccak256_of(data@),
{
    ethers::utils::keccak256(data)
}

/// The canonical signature of the contract's one event.
pub open spec fn withdrawal_signature() -> Seq<u8> {
    "Withdrawal(uint256,uint256)".spec_bytes()
}

/// Which logs to watch: those emitted at `address`, where set, whose first
/// topic (the event's signature hash) is `topic0`, where set.
#[derive(Debug, Clone, Copy, PartialEq, Eq)]
pub struct EventFilter {
    pub address: Option<Address>,
    pub topic0: Option<[u8; 32]>,
}

/// A handle on a deployed `Lock` contract, which builds its calls.
#[derive(Debug, Clone, Copy)]
pub struct Lock {
    pub address: Address,
}

/// Whether `call` is the plain call of `which` at `to`: the selector as
/// calldata, with no gas limit or price set yet.
pub open spec fn is_plain_call(call: ContractCall, to: Address, which: LockCalls) -> bool {
    call.to == to && call.data@ == selector_of(which) && call.gas is None && call.gas_price is None
}

impl Lock {
    /// A handle on the contract deployed at `address`.
    pub fn new(address: Address) -> (r: Lock)
        ensures
            r.address == address,
    {
        Lock { address }
    }

    fn call(&self, which: LockCalls) -> (r: ContractCall)
        ensures
            is_plain_call(r, self.address, which),
    {
        ContractCall { to: self.address, data: which.encode(), gas: None, gas_price: None }
    }

    /// A call of `counter()`, which returns the counter's value.
    pub fn counter(&self) -> (r: ContractCall)
        ensures
            is_plain_call(r, self.address, LockCalls::Counter(CounterCall)),
    {
        self.call(LockCalls::Counter(CounterCall))
    }

    /// A call of `inc()`, which adds one to the counter.
    pub fn inc(&self) -> (r: ContractCall)
        ensures
            is_plain_call(r, self.address, LockCalls::Inc(IncCall)),
    {
        self.call(LockCalls::Inc(IncCall))
    }

    /// A call of `owner()`, which returns the owner's address.
    pub fn owner(&self) -> (r: ContractCall)
        ensures
            is_plain_call(r, self.address, LockCalls::Owner(OwnerCall)),
    {
        self.call(LockCalls::Owner(OwnerCall))
    }

    /// A call of `unlockTime()`, which returns the time from which funds may be withdrawn.
    pub fn unlock_time(&self) -> (r: ContractCall)
        ensures
            is_plain_call(r, self.address, LockCalls::UnlockTime(UnlockTimeCall)),
    {
        self.call(LockCalls::UnlockTime(UnlockTimeCall))
    }

    /// A call of `withdraw()`, which pays the locked funds out to the owner.
    pub fn withdraw(&self) -> (r: ContractCall)
        ensures
            is_plain_call(r, self.address, LockCalls::Withdraw(WithdrawCall)),
    {
        self.call(LockCalls::Withdraw(WithdrawCall))
    }

    /// A filter for `Withdrawal` events: their signature hash as first topic,
    /// from any address.
    pub fn withdrawal_filter(&self) -> (r: EventFilter)
        ensures
            r.address is None,
            r.topic0 matches Some(t) && t@ == keccak256_of(withdrawal_signature()),
    {
        let topic = keccak256("Withdrawal(uint256,uint256)".as_bytes());
        EventFilter { address: None, topic0: Some(topic) }
    }

    /// A filter for every event of this contract: all logs at its address.
    pub fn events(&self) -> (r: EventFilter)
        ensures
            r.address == Some(self.address),
            r.topic0 is None,
    {
        EventFilter { address: Some(self.address), topic0: None }
    }
}

/// Reads the 32-byte ABI word of `data` that starts at `offset`.
fn read_word(data: &[u8], offset: usize) -> (r: U256)
    requires
        offset + 32 <= data@.len(),
    ensures
        r.bytes@ == data@.subrange(offset as int, offset + 32),
{
    let mut out = [0u8; 32];
    let mut i: usize = 0;
    while i < 32
        invariant
            i <= 32,
            offset + 32 <= data.len(),
            forall|j: int| 0 <= j < i ==> out@[j] == data@[offset + j],
        decreases 32 - i,
    {
        out[i] = data[offset + i];
        i = i + 1;
    }
    let r = U256 { bytes: out };
    assert(r.bytes@ =~= data@.subrange(offset as int, offset + 32));
    r
}

/// The value returned by `counter()`.
#[derive(Debug, Clone, Copy, PartialEq, Eq)]
pub struct CounterReturn(pub U256);

/// The value returned by `owner()`.
#[derive(Debug, Clone, Copy, PartialEq, Eq)]
pub struct OwnerReturn(pub Address);

/// The value returned by `unlockTime()`.
#[derive(Debug, Clone, Copy, PartialEq, Eq)]
pub struct UnlockTimeReturn(pub U256);

/// The fields of a `Withdrawal` event: the amount paid out and when.
#[derive(Debug, Clone, Copy, PartialEq, Eq)]
pub struct WithdrawalFilter {
    pub amount: U256,
    pub when: U256,
}

impl CounterReturn {
    /// Reads the return data of `counter()`: one word, the value.
    pub fn decode(data: &[u8]) -> (r: Result<CounterReturn, AbiError>)
        ensures
            data@.len() < 32 ==> r == Err::<CounterReturn, AbiError>(AbiError::InvalidData),
            data@.len() >= 32 ==> (r matches Ok(v) && v.0.bytes@ == data@.subrange(0, 32)),
    {
        if data.len() < 32 {
            return Err(AbiError::InvalidData);
        }
        Ok(CounterReturn(read_word(data, 0)))
    }
}

impl UnlockTimeReturn {
    /// Reads the return data of `unlockTime()`: one word, the time.
    pub fn decode(data: &[u8]) -> (r: Result<UnlockTimeReturn, AbiError>)
        ensures
            data@.len() < 32 ==> r == Err::<UnlockTimeReturn, AbiError>(AbiError::InvalidData),
            data@.len() >= 32 ==> (r matches Ok(v) && v.0.bytes@ == data@.subrange(0, 32)),
    {
        if data.len() < 32 {
            return Err(AbiError::InvalidData);
        }
        Ok(UnlockTimeReturn(read_word(data, 0)))
    }
}

impl OwnerReturn {
    /// Reads the return data of `owner()`: one word whose last 20 bytes are the address.
    pub fn decode(data: &[u8]) -> (r: Result<OwnerReturn, AbiError>)
        ensures
            data@.len() < 32 ==> r == Err::<OwnerReturn, AbiError>(AbiError::InvalidData),
            data@.len() >= 32 ==> (r matches Ok(v) && v.0.bytes@ == data@.subrange(12, 32)),
    {
        if data.len() < 32 {
            return Err(AbiError::InvalidData);
        }
        let mut out = [0u8; 20];
        let mut i: usize = 0;
        while i < 20
            invariant
                i <= 20,
                data@.len() >= 32,
                forall|j: int| 0 <= j < i ==> out@[j] == data@[12 + j],
            decreases 20 - i,
        {
            out[i] = data[12 + i];
            i = i + 1;
        }
        let a = Address { bytes: out };
        assert(a.bytes@ =~= data@.subrange(12, 32));
        Ok(OwnerReturn(a))
    }
}

impl WithdrawalFilter {
    /// Reads the data of a `Withdrawal` log: two words, the amount then the time.
    pub fn decode(data: &[u8]) -> (r: Result<WithdrawalFilter, AbiError>)
        ensures
            data@.len() < 64 ==> r == Err::<WithdrawalFilter, AbiError>(AbiError::InvalidData),
            data@.len() >= 64 ==> (r matches Ok(v) && v.amount.bytes@ == data@.subrange(0, 32)
                && v.when.bytes@ == data@.subrange(32, 64)),
    {
        if data.len() < 64 {
            return Err(AbiError::InvalidData);
        }
        Ok(WithdrawalFilter { amount: read_word(data, 0), when: read_word(data, 32) })
    }
}

} // verus!
