//! A builder for the initial state of an instance: its configuration and the
//! funds that accounts hold when it starts.

use crate::config::ConfigSpec;
use crate::error::DistributorError;
use crate::fraction::PERCENT;
use crate::store::{validation_error, ConfigStore};
use crate::weights::{weights_view, WeightEntry, WeightSpec};
use crate::whitelist::{routes_view, RouteSpec, WhitelistEntry};
use vstd::prelude::*;

verus! {

/// An amount of one denomination.
#[derive(Debug, PartialEq, Eq)]
pub struct Coin {
    pub denom: String,
    pub amount: u128,
}

/// The mathematical content of a [`Coin`].
pub struct CoinSpec {
    pub denom: Seq<char>,
    pub amount: nat,
}

impl View for Coin {
    type V = CoinSpec;

    open spec fn view(&self) -> CoinSpec {
        CoinSpec { denom: self.denom@, amount: self.amount as nat }
    }
}

impl Clone for Coin {
    fn clone(&self) -> (copy: Coin)
        ensures
            copy@ == self@,
    {
        Coin { denom: self.denom.clone(), amount: self.amount }
    }
}

impl Coin {
    /// `amount` units of `denom`.
    pub fn new(amount: u128, denom: &str) -> (coin: Coin)
        ensures
            coin@ == (CoinSpec { denom: denom@, amount: amount as nat }),
    {
        Coin { denom: denom.to_owned(), amount }
    }
}

/// The views of a sequence of coins, in the same order.
pub open spec fn coins_view(coins: Seq<Coin>) -> Seq<CoinSpec> {
    coins.map_values(|c: Coin| c@)
}

/// The funds of the accounts: each address with the coins it holds.
pub open spec fn funds_view(funds: Seq<(String, Vec<Coin>)>) -> Seq<(Seq<char>, Seq<CoinSpec>)> {
    funds.map_values(|f: (String, Vec<Coin>)| (f.0@, coins_view(f.1@)))
}

/// Collects what an instance starts with.
#[derive(Debug, PartialEq, Eq)]
pub struct SuiteBuilder {
    pub admin: String,
    pub burn_address: String,
    pub developer_address: String,
    pub whitelist: Vec<WhitelistEntry>,
    pub weight_per_protocol: Vec<WeightEntry>,
    pub funds: Vec<(String, Vec<Coin>)>,
}

/// The mathematical content of a [`SuiteBuilder`].
pub struct BuilderSpec {
    pub admin: Seq<char>,
    pub burn_address: Seq<char>,
    pub developer_address: Seq<char>,
    pub whitelist: Seq<RouteSpec>,
    pub weight_per_protocol: Seq<WeightSpec>,
    pub funds: Seq<(Seq<char>, Seq<CoinSpec>)>,
}

impl View for SuiteBuilder {
    type V = BuilderSpec;

    open spec fn view(&self) -> BuilderSpec {
        BuilderSpec {
            admin: self.admin@,
            burn_address: self.burn_address@,
            developer_address: self.developer_address@,
            whitelist: routes_view(self.whitelist@),
            weight_per_protocol: weights_view(self.weight_per_protocol@),
            funds: funds_view(self.funds@),
        }
    }
}

impl SuiteBuilder {
    /// A builder with the default administrator, burn address and developer
    /// address, an empty whitelist, no weights and no funds.
    pub fn new() -> (builder: SuiteBuilder)
        ensures
            builder@ == (BuilderSpec {
                admin: "owner"@,
                burn_address: "burnaddress"@,
                developer_address: "devaddress"@,
                whitelist: Seq::empty(),
                weight_per_protocol: Seq::empty(),
                funds: Seq::empty(),
            }),
    {
        let builder = SuiteBuilder {
            admin: "owner".to_owned(),
            burn_address: "burnaddress".to_owned(),
            developer_address: "devaddress".to_owned(),
            whitelist: Vec::new(),
            weight_per_protocol: Vec::new(),
            funds: Vec::new(),
        };
        assert(builder@.whitelist =~= Seq::empty());
        assert(builder@.weight_per_protocol =~= Seq::empty());
        assert(builder@.funds =~= Seq::empty());
        builder
    }

    /// Names the administrator.
    pub fn with_admin(self, admin: String) -> (builder: SuiteBuilder)
        ensures
            builder@ == (BuilderSpec { admin: admin@, ..self@ }),
    {
        let mut builder = self;
        builder.admin = admin;
        builder
    }

    /// Replaces the whitelist by the pairs of address and protocol given.
    pub fn with_whitelist(self, whitelist: &[(&str, &str)]) -> (builder: SuiteBuilder)
        ensures
            builder@ == (BuilderSpec {
                whitelist: Seq::new(
                    whitelist@.len(),
                    |i: int| RouteSpec { address: whitelist@[i].0@, protocol: whitelist@[i].1@ },
                ),
                ..self@
            }),
    {
        let mut list: Vec<WhitelistEntry> = Vec::new();
        let mut i: usize = 0;
        while i < whitelist.len()
            invariant
                0 <= i <= whitelist@.len(),
                list@.len() == i,
                forall|j: int|
                    0 <= j < i ==> (#[trigger] list@[j])@ == (RouteSpec {
                        address: whitelist@[j].0@,
                        protocol: whitelist@[j].1@,
                    }),
            decreases whitelist@.len() - i,
        {
            let (address, protocol) = whitelist[i];
            list.push(WhitelistEntry::new(address, protocol));
            i = i + 1;
        }
        let mut builder = self;
        builder.whitelist = list;
        assert(builder@.whitelist =~= Seq::new(
            whitelist@.len(),
            |i: int| RouteSpec { address: whitelist@[i].0@, protocol: whitelist@[i].1@ },
        ));
        builder
    }

    /// Replaces the weights by the pairs of protocol and whole percent given.
    pub fn with_weights_per_protocol(self, list: &[(&str, u64)]) -> (builder: SuiteBuilder)
        ensures
            builder@ == (BuilderSpec {
                weight_per_protocol: Seq::new(
                    list@.len(),
                    |i: int|
                        WeightSpec { protocol: list@[i].0@, weight: (list@[i].1 * PERCENT) as nat },
                ),
                ..self@
            }),
    {
        let mut weights: Vec<WeightEntry> = Vec::new();
        let mut i: usize = 0;
        while i < list.len()
            invariant
                0 <= i <= list@.len(),
                weights@.len() == i,
                forall|j: int|
                    0 <= j < i ==> (#[trigger] weights@[j])@ == (WeightSpec {
                        protocol: list@[j].0@,
                        weight: (list@[j].1 * PERCENT) as nat,
                    }),
            decreases list@.len() - i,
        {
            let (protocol, percent) = list[i];
            weights.push(WeightEntry::percent(protocol, percent));
            i = i + 1;
        }
        let mut builder = self;
        builder.weight_per_protocol = weights;
        assert(builder@.weight_per_protocol =~= Seq::new(
            list@.len(),
            |i: int| WeightSpec { protocol: list@[i].0@, weight: (list@[i].1 * PERCENT) as nat },
        ));
        builder
    }

    /// Gives the account at `addr` the coins of `funds` to start with, after
    /// whatever was given before.
    pub fn with_funds(self, addr: &str, funds: &[Coin]) -> (builder: SuiteBuilder)
        ensures
            builder@ == (BuilderSpec {
                funds: self@.funds.push((addr@, coins_view(funds@))),
                ..self@
            }),
    {
        let mut coins: Vec<Coin> = Vec::new();
        let mut i: usize = 0;
        while i < funds.len()
            invariant
                0 <= i <= funds@.len(),
                coins@.len() == i,
                forall|j: int| 0 <= j < i ==> (#[trigger] coins@[j])@ == funds@[j]@,
            decreases funds@.len() - i,
        {
            coins.push(funds[i].clone());
            i = i + 1;
        }
        assert(coins_view(coins@) =~= coins_view(funds@));
        let mut builder = self;
        let ghost before = builder.funds@;
        builder.funds.push((addr.to_owned(), coins));
        assert(funds_view(builder.funds@) =~= funds_view(before).push((addr@, coins_view(funds@))));
        builder
    }

    /// Creates the configuration store that the instance starts with. It
    /// exists exactly when the whitelist and the weights collected make a
    /// valid configuration.
    pub fn instantiate(self) -> (result: Result<ConfigStore, DistributorError>)
        ensures
            match validation_error(self@.whitelist, self@.weight_per_protocol) {
                Some(error) => result == Err::<ConfigStore, DistributorError>(error),
                None => result is Ok && result->Ok_0.wf() && result->Ok_0@ == (ConfigSpec {
                    admin: self@.admin,
                    burn_address: self@.burn_address,
                    developer_address: self@.developer_address,
                    whitelist: self@.whitelist,
                    weights: self@.weight_per_protocol,
                }),
            },
    {
        let SuiteBuilder {
            admin,
            burn_address,
            developer_address,
            whitelist,
            weight_per_protocol,
            funds: _,
        } = self;
        ConfigStore::instantiate(
            admin.as_str(),
            burn_address.as_str(),
            developer_address.as_str(),
            whitelist,
            weight_per_protocol,
        )
    }
}

} // verus!
