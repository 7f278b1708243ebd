use vstd::prelude::*;

use crate::error::ContractError;
use crate::msg::InstantiateMsg;
use crate::types::{Coin, CoinView, Rate, RATE_SCALE};

verus! {

/// The singleton configuration: the authority, the accepted entry-fee
/// floors, the fee rate, the fee recipient and the per-session player cap.
pub struct Config {
    pub admin: String,
    pub min_entry_fee: Vec<Coin>,
    pub fee_amount: Rate,
    pub fee_address: String,
    pub max_players: u8,
}

/// Mathematical image of a `Config`.
#[verifier::ext_equal]
pub ghost struct ConfigView {
    pub admin: Seq<char>,
    pub min_entry_fee: Seq<CoinView>,
    pub fee_amount: Rate,
    pub fee_address: Seq<char>,
    pub max_players: u8,
}

impl View for Config {
    type V = ConfigView;

    open spec fn view(&self) -> ConfigView {
        ConfigView {
            admin: self.admin@,
            min_entry_fee: self.min_entry_fee@.map_values(|c: Coin| c@),
            fee_amount: self.fee_amount,
            fee_address: self.fee_address@,
            max_players: self.max_players,
        }
    }
}

impl ConfigView {
    /// A configuration is valid when its fee rate is a fraction in [0, 1].
    pub open spec fn is_valid(&self) -> bool {
        self.fee_amount.is_fraction()
    }

    /// A paid coin is acceptable as an entry fee when some floor entry has
    /// its denomination and the paid amount meets or exceeds the floor.
    pub open spec fn fee_acceptable(&self, paid: CoinView) -> bool {
        exists|i: int|
            0 <= i < self.min_entry_fee.len() && (#[trigger] self.min_entry_fee[i]).denom
                == paid.denom && paid.amount >= self.min_entry_fee[i].amount
    }
}

/// The null-coalescing merge behind a partial configuration update: each
/// absent field keeps its prior value, each present field replaces it.
/// The floors are not updatable.
pub open spec fn merge_view(
    c: ConfigView,
    admin: Option<Seq<char>>,
    fee_amount: Option<Rate>,
    fee_address: Option<Seq<char>>,
    max_players: Option<u8>,
) -> ConfigView {
    ConfigView {
        admin: match admin {
            Some(a) => a,
            None => c.admin,
        },
        min_entry_fee: c.min_entry_fee,
        fee_amount: match fee_amount {
            Some(r) => r,
            None => c.fee_amount,
        },
        fee_address: match fee_address {
            Some(a) => a,
            None => c.fee_address,
        },
        max_players: match max_players {
            Some(m) => m,
            None => c.max_players,
        },
    }
}

impl Config {
    /// Succeeds exactly when the fee rate does not exceed 1.
    pub fn validate(&self) -> (r: Result<(), ContractError>)
        ensures
            self@.is_valid() ==> r is Ok,
            !self@.is_valid() ==> r == Result::<(), ContractError>::Err(
                ContractError::InvalidConfig,
            ),
    {
        if self.fee_amount.atomics > RATE_SCALE {
            return Err(ContractError::InvalidConfig);
        }
        Ok(())
    }

    /// Succeeds exactly when the paid coin meets some configured floor.
    pub fn assert_entry_fee(&self, fee: &Coin) -> (r: Result<(), ContractError>)
        ensures
            self@.fee_acceptable(fee@) ==> r is Ok,
            !self@.fee_acceptable(fee@) ==> r == Result::<(), ContractError>::Err(
                ContractError::InvalidEntryFee,
            ),
    {
        let mut i: usize = 0;
        while i < self.min_entry_fee.len()
            invariant
                i <= self.min_entry_fee.len(),
                forall|j: int|
                    0 <= j < i ==> !((#[trigger] self@.min_entry_fee[j]).denom == fee@.denom
                        && fee@.amount >= self@.min_entry_fee[j].amount),
            decreases self.min_entry_fee.len() - i,
        {
            let floor = &self.min_entry_fee[i];
            if floor.denom == fee.denom && fee.amount >= floor.amount {
                proof {
                    let k: int = i as int;
                    assert(self@.min_entry_fee[k] == self.min_entry_fee@[k]@);
                    assert(self@.min_entry_fee[k].denom == fee@.denom && fee@.amount
                        >= self@.min_entry_fee[k].amount);
                    assert(self@.fee_acceptable(fee@));
                }
                return Ok(());
            }
            i = i + 1;
        }
        Err(ContractError::InvalidEntryFee)
    }

    /// Replaces exactly the fields that are present; absent fields keep
    /// their prior values.
    pub fn update(
        &mut self,
        admin: Option<String>,
        fee_amount: Option<Rate>,
        fee_address: Option<String>,
        max_players: Option<u8>,
    )
        ensures
            final(self)@ == merge_view(
                old(self)@,
                match admin {
                    Some(a) => Some(a@),
                    None => None,
                },
                fee_amount,
                match fee_address {
                    Some(a) => Some(a@),
                    None => None,
                },
                max_players,
            ),
    {
        if let Some(admin) = admin {
            self.admin = admin;
        }
        if let Some(fee_amount) = fee_amount {
            self.fee_amount = fee_amount;
        }
        if let Some(fee_address) = fee_address {
            self.fee_address = fee_address;
        }
        if let Some(max_players) = max_players {
            self.max_players = max_players;
        }
        proof {
            assert(self@ =~= merge_view(
                old(self)@,
                match admin {
                    Some(a) => Some(a@),
                    None => None,
                },
                fee_amount,
                match fee_address {
                    Some(a) => Some(a@),
                    None => None,
                },
                max_players,
            ));
        }
    }
}

impl Clone for Config {
    fn clone(&self) -> (res: Self)
        ensures
            res@ == self@,
    {
        let mut fees: Vec<Coin> = Vec::new();
        let mut i: usize = 0;
        while i < self.min_entry_fee.len()
            invariant
                i <= self.min_entry_fee.len(),
                fees@.len() == i,
                forall|j: int| 0 <= j < i ==> (#[trigger] fees@[j])@ == self.min_entry_fee@[j]@,
            decreases self.min_entry_fee.len() - i,
        {
            fees.push(self.min_entry_fee[i].clone());
            i = i + 1;
        }
        let res = Config {
            admin: self.admin.clone(),
            min_entry_fee: fees,
            fee_amount: self.fee_amount,
            fee_address: self.fee_address.clone(),
            max_players: self.max_players,
        };
        proof {
            assert forall|j: int| 0 <= j < self.min_entry_fee@.len() implies res@.min_entry_fee[j]
                == self@.min_entry_fee[j] by {
                assert(res@.min_entry_fee[j] == fees@[j]@);
                assert(self@.min_entry_fee[j] == self.min_entry_fee@[j]@);
            }
            assert(res@.min_entry_fee =~= self@.min_entry_fee);
            assert(res@ =~= self@);
        }
        res
    }
}

impl From<InstantiateMsg> for Config {
    fn from(msg: InstantiateMsg) -> (res: Self) {
        Config {
            admin: msg.admin,
            min_entry_fee: msg.min_entry_fee,
            fee_address: msg.fee_address,
            fee_amount: msg.fee_amount,
            max_players: msg.max_players,
        }
    }
}

impl vstd::std_specs::convert::FromSpecImpl<InstantiateMsg> for Config {
    open spec fn obeys_from_spec() -> bool {
        true
    }

    open spec fn from_spec(msg: InstantiateMsg) -> Config {
        Config {
            admin: msg.admin,
            min_entry_fee: msg.min_entry_fee,
            fee_address: msg.fee_address,
            fee_amount: msg.fee_amount,
            max_players: msg.max_players,
        }
    }
}

} // verus!
