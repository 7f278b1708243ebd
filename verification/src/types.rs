use vstd::prelude::*;

verus! {

/// Scale of a fixed-point fee rate: a `Rate` with `atomics == RATE_SCALE`
/// is the fraction 1.0.
pub const RATE_SCALE: u128 = 1_000_000_000_000_000_000;

/// A fee rate as a fixed-point fraction `atomics / RATE_SCALE`.
#[derive(Clone, Copy, PartialEq, Eq, Structural, Debug)]
pub struct Rate {
    pub atomics: u128,
}

impl Rate {
    /// A rate is a fraction in [0, 1] exactly when it does not exceed the scale.
    pub open spec fn is_fraction(&self) -> bool {
        self.atomics <= RATE_SCALE
    }
}

/// A point in time, in nanoseconds. Ordering decisions in the engine are
/// made at whole-second granularity.
#[derive(Clone, Copy, PartialEq, Eq, Structural, Debug)]
pub struct Timestamp {
    pub nanos: u64,
}

impl Timestamp {
    pub open spec fn spec_seconds(&self) -> u64 {
        self.nanos / 1_000_000_000
    }

    /// The whole seconds of this instant.
    #[verifier::when_used_as_spec(spec_seconds)]
    pub fn seconds(&self) -> (s: u64)
        ensures
            s == self.spec_seconds(),
    {
        self.nanos / 1_000_000_000
    }
}

/// A fund unit: a denomination paired with an amount.
#[derive(Debug)]
pub struct Coin {
    pub denom: String,
    pub amount: u128,
}

/// Mathematical image of a `Coin`.
#[verifier::ext_equal]
pub ghost struct CoinView {
    pub denom: Seq<char>,
    pub amount: u128,
}

impl View for Coin {
    type V = CoinView;

    open spec fn view(&self) -> CoinView {
        CoinView { denom: self.denom@, amount: self.amount }
    }
}

impl Clone for Coin {
    fn clone(&self) -> (res: Self)
        ensures
            res@ == self@,
    {
        Coin { denom: self.denom.clone(), amount: self.amount }
    }
}

impl PartialEq for Coin {
    fn eq(&self, other: &Self) -> bool {
        self.denom == other.denom && self.amount == other.amount
    }
}

impl vstd::std_specs::cmp::PartialEqSpecImpl for Coin {
    open spec fn obeys_eq_spec() -> bool {
        true
    }

    open spec fn eq_spec(&self, other: &Self) -> bool {
        self@ == other@
    }
}

/// The host-supplied context of a call: the current block time.
#[derive(Clone, Copy, PartialEq, Eq, Structural, Debug)]
pub struct Env {
    pub time: Timestamp,
}

/// The sender of a call together with the coins attached to it.
pub struct MessageInfo {
    pub sender: String,
    pub funds: Vec<Coin>,
}

/// Mathematical image of a `MessageInfo`.
#[verifier::ext_equal]
pub ghost struct MessageInfoView {
    pub sender: Seq<char>,
    pub funds: Seq<CoinView>,
}

impl View for MessageInfo {
    type V = MessageInfoView;

    open spec fn view(&self) -> MessageInfoView {
        MessageInfoView {
            sender: self.sender@,
            funds: self.funds@.map_values(|c: Coin| c@),
        }
    }
}

/// An outbound fund-transfer instruction for the host ledger to execute.
#[derive(Debug)]
pub struct BankSend {
    pub to_address: String,
    pub amount: Coin,
}

/// Mathematical image of a `BankSend`.
#[verifier::ext_equal]
pub ghost struct BankSendView {
    pub to_address: Seq<char>,
    pub amount: CoinView,
}

impl View for BankSend {
    type V = BankSendView;

    open spec fn view(&self) -> BankSendView {
        BankSendView { to_address: self.to_address@, amount: self.amount@ }
    }
}

/// What a state-changing call hands back to the host: the outbound
/// transfer instructions it wants executed.
#[derive(Debug)]
pub struct Response {
    pub messages: Vec<BankSend>,
}

impl View for Response {
    type V = Seq<BankSendView>;

    open spec fn view(&self) -> Seq<BankSendView> {
        self.messages@.map_values(|m: BankSend| m@)
    }
}

impl Response {
    /// A response that carries no transfer instructions.
    pub fn empty() -> (r: Response)
        ensures
            r@ == Seq::<BankSendView>::empty(),
    {
        let r = Response { messages: Vec::new() };
        proof {
            assert(r@ =~= Seq::<BankSendView>::empty());
        }
        r
    }
}

} // verus!
