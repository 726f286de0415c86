//! The configuration store and the authorization guard.
//!
//! The store owns the one configuration of an instance. It is created from
//! a validated configuration and changes only through `update`, which the
//! administrator alone may call and which replaces the configuration as a
//! whole or not at all.

use crate::config::{resolved, Config, ConfigSpec};
use crate::distribution::{plan_distribution, plan_of, PayoutPlan};
use crate::error::DistributorError;
use crate::fraction::SCALE;
use crate::weights::{total_weight, weights_view, WeightEntry, WeightSpec, WeightTable};
use crate::whitelist::{
    distinct_protocols, is_routed, routes_view, Route, RouteSpec, Whitelist, WhitelistEntry,
};
use vstd::prelude::*;

verus! {

/// The fields of a partial update. A field that is `None` keeps its value.
#[derive(Debug, PartialEq, Eq)]
pub struct ConfigUpdate {
    pub admin: Option<String>,
    pub burn_address: Option<String>,
    pub developer_address: Option<String>,
    pub whitelist: Option<Vec<WhitelistEntry>>,
    pub weights: Option<Vec<WeightEntry>>,
}

/// The mathematical content of a [`ConfigUpdate`].
pub struct UpdateSpec {
    pub admin: Option<Seq<char>>,
    pub burn_address: Option<Seq<char>>,
    pub developer_address: Option<Seq<char>>,
    pub whitelist: Option<Seq<RouteSpec>>,
    pub weights: Option<Seq<WeightSpec>>,
}

impl View for ConfigUpdate {
    type V = UpdateSpec;

    open spec fn view(&self) -> UpdateSpec {
        UpdateSpec {
            admin: match self.admin {
                Some(admin) => Some(admin@),
                None => None,
            },
            burn_address: match self.burn_address {
                Some(address) => Some(address@),
                None => None,
            },
            developer_address: match self.developer_address {
                Some(address) => Some(address@),
                None => None,
            },
            whitelist: match self.whitelist {
                Some(entries) => Some(routes_view(entries@)),
                None => None,
            },
            weights: match self.weights {
                Some(entries) => Some(weights_view(entries@)),
                None => None,
            },
        }
    }
}

impl ConfigUpdate {
    /// The update that changes nothing.
    pub fn none() -> (update: ConfigUpdate)
        ensures
            update@ == (UpdateSpec {
                admin: None,
                burn_address: None,
                developer_address: None,
                whitelist: None,
                weights: None,
            }),
    {
        ConfigUpdate {
            admin: None,
            burn_address: None,
            developer_address: None,
            whitelist: None,
            weights: None,
        }
    }
}

/// Why a whitelist and a weight table do not make a valid configuration, if
/// they do not. The weights are judged first, then the whitelist, then
/// whether each weighted protocol has an address.
pub open spec fn validation_error(
    whitelist: Seq<RouteSpec>,
    weights: Seq<WeightSpec>,
) -> Option<DistributorError> {
    if total_weight(weights) > SCALE {
        Some(DistributorError::InvalidWeight)
    } else if !distinct_protocols(whitelist) {
        Some(DistributorError::DuplicateProtocol)
    } else if !resolved(whitelist, weights) {
        Some(DistributorError::UnresolvedProtocol)
    } else {
        None
    }
}

/// The configuration that results when the supplied fields of `update`
/// replace those of `config`.
pub open spec fn merged(config: ConfigSpec, update: UpdateSpec) -> ConfigSpec {
    ConfigSpec {
        admin: match update.admin {
            Some(admin) => admin,
            None => config.admin,
        },
        burn_address: match update.burn_address {
            Some(address) => address,
            None => config.burn_address,
        },
        developer_address: match update.developer_address {
            Some(address) => address,
            None => config.developer_address,
        },
        whitelist: match update.whitelist {
            Some(entries) => entries,
            None => config.whitelist,
        },
        weights: match update.weights {
            Some(entries) => entries,
            None => config.weights,
        },
    }
}

/// What an update requested by `caller` leads to: the new configuration, or
/// the reason for which the old one stays.
pub open spec fn update_outcome(
    config: ConfigSpec,
    caller: Seq<char>,
    update: UpdateSpec,
) -> Result<ConfigSpec, DistributorError> {
    let next = merged(config, update);
    if caller != config.admin {
        Err(DistributorError::Unauthorized)
    } else {
        match validation_error(next.whitelist, next.weights) {
            Some(error) => Err(error),
            None => Ok(next),
        }
    }
}

/// The authorization guard: passes the administrator of `config` and nobody
/// else.
pub fn require_admin(caller: &str, config: &Config) -> (result: Result<(), DistributorError>)
    ensures
        caller@ == config@.admin ==> result is Ok,
        caller@ != config@.admin ==> result == Err::<(), DistributorError>(
            DistributorError::Unauthorized,
        ),
{
    let caller: String = caller.to_owned();
    if caller == config.admin {
        Ok(())
    } else {
        Err(DistributorError::Unauthorized)
    }
}

/// Tells whether the whitelist routes every protocol of the weight table.
pub fn is_resolved(whitelist: &Whitelist, weights: &WeightTable) -> (all: bool)
    ensures
        all == resolved(whitelist@, weights@),
{
    let count: usize = weights.len();
    let mut i: usize = 0;
    while i < count
        invariant
            0 <= i <= count == weights@.len(),
            forall|j: int| 0 <= j < i ==> is_routed(whitelist@, (#[trigger] weights@[j]).protocol),
        decreases count - i,
    {
        match whitelist.address_for(weights.entry(i).protocol.as_str()) {
            Route::Unrouted => {
                assert(!is_routed(whitelist@, weights@[i as int].protocol));
                return false;
            },
            Route::Address(_) => {},
        }
        i = i + 1;
    }
    true
}

/// Validates a whitelist and a weight table, each by itself and the two
/// together.
fn validated(whitelist: Vec<WhitelistEntry>, weights: Vec<WeightEntry>) -> (result: Result<
    (Whitelist, WeightTable),
    DistributorError,
>)
    ensures
        match validation_error(routes_view(whitelist@), weights_view(weights@)) {
            Some(error) => result == Err::<(Whitelist, WeightTable), DistributorError>(error),
            None => result is Ok && result->Ok_0.0@ == routes_view(whitelist@) && result->Ok_0.1@
                == weights_view(weights@) && result->Ok_0.0.wf() && result->Ok_0.1.wf(),
        },
{
    let table = match WeightTable::from_entries(weights) {
        Ok(table) => table,
        Err(error) => {
            return Err(error);
        },
    };
    let list = match Whitelist::from_entries(whitelist) {
        Ok(list) => list,
        Err(error) => {
            return Err(error);
        },
    };
    if is_resolved(&list, &table) {
        Ok((list, table))
    } else {
        Err(DistributorError::UnresolvedProtocol)
    }
}

/// The configuration store of one instance. The configuration it holds is
/// valid at all times: in particular every weighted protocol has an address.
#[derive(Debug, PartialEq, Eq)]
pub struct ConfigStore {
    config: Config,
}

impl View for ConfigStore {
    type V = ConfigSpec;

    closed spec fn view(&self) -> ConfigSpec {
        self.config@
    }
}

impl ConfigStore {
    /// The invariant of every store: its configuration is valid.
    #[verifier::type_invariant]
    pub open spec fn wf(&self) -> bool {
        validation_error(self@.whitelist, self@.weights) is None
    }

    /// Creates the store of a new instance. The configuration is accepted
    /// exactly when `validation_error` finds no fault with it, and the
    /// fault it finds is the error returned.
    pub fn instantiate(
        admin: &str,
        burn_address: &str,
        developer_address: &str,
        whitelist: Vec<WhitelistEntry>,
        weights: Vec<WeightEntry>,
    ) -> (result: Result<ConfigStore, DistributorError>)
        ensures
            match validation_error(routes_view(whitelist@), weights_view(weights@)) {
                Some(error) => result == Err::<ConfigStore, DistributorError>(error),
                None => result is Ok && result->Ok_0.wf() && result->Ok_0@ == (ConfigSpec {
                    admin: admin@,
                    burn_address: burn_address@,
                    developer_address: developer_address@,
                    whitelist: routes_view(whitelist@),
                    weights: weights_view(weights@),
                }),
            },
    {
        match validated(whitelist, weights) {
            Err(error) => Err(error),
            Ok((list, table)) => Ok(
                ConfigStore {
                    config: Config {
                        admin: admin.to_owned(),
                        burn_address: burn_address.to_owned(),
                        developer_address: developer_address.to_owned(),
                        whitelist: list,
                        weights: table,
                    },
                },
            ),
        }
    }

    /// The current configuration. Reading it changes nothing, so that two
    /// reads with no update between them show the same.
    pub fn get(&self) -> (config: &Config)
        ensures
            config@ == self@,
            validation_error(config@.whitelist, config@.weights) is None,
    {
        proof {
            use_type_invariant(self);
        }
        &self.config
    }

    /// Applies a partial update on behalf of `caller`.
    ///
    /// Only the administrator may update. The supplied fields replace the
    /// stored ones, the others stay, and the result is validated as a
    /// whole: the store takes it over if it is valid and stays as it was
    /// if not.
    pub fn update(&mut self, caller: &str, update: ConfigUpdate) -> (result: Result<
        (),
        DistributorError,
    >)
        ensures
            final(self).wf(),
            match update_outcome(old(self)@, caller@, update@) {
                Ok(next) => result is Ok && final(self)@ == next,
                Err(error) => result == Err::<(), DistributorError>(error) && final(self)@ == old(
                    self,
                )@,
            },
    {
        proof {
            use_type_invariant(&*self);
            use_type_invariant(&self.config.weights);
            use_type_invariant(&self.config.whitelist);
        }
        match require_admin(caller, &self.config) {
            Err(error) => {
                return Err(error);
            },
            Ok(_) => {},
        }
        let ConfigUpdate { admin, burn_address, developer_address, whitelist, weights } = update;
        let table = match weights {
            None => self.config.weights.clone(),
            Some(entries) => match WeightTable::from_entries(entries) {
                Ok(table) => table,
                Err(error) => {
                    return Err(error);
                },
            },
        };
        let list = match whitelist {
            None => self.config.whitelist.clone(),
            Some(entries) => match Whitelist::from_entries(entries) {
                Ok(list) => list,
                Err(error) => {
                    return Err(error);
                },
            },
        };
        if !is_resolved(&list, &table) {
            return Err(DistributorError::UnresolvedProtocol);
        }
        let admin = match admin {
            Some(admin) => admin,
            None => self.config.admin.clone(),
        };
        let burn_address = match burn_address {
            Some(address) => address,
            None => self.config.burn_address.clone(),
        };
        let developer_address = match developer_address {
            Some(address) => address,
            None => self.config.developer_address.clone(),
        };
        self.config = Config { admin, burn_address, developer_address, whitelist: list, weights: table };
        Ok(())
    }

    /// Plans the distribution of the whole `balance` of `denom` that the
    /// instance holds. Any caller may ask for it. The configuration of a
    /// store is valid, so that planning never fails.
    pub fn distribute(&self, caller: &str, denom: &str, balance: u128) -> (result: Result<
        PayoutPlan,
        DistributorError,
    >)
        ensures
            result is Ok,
            result->Ok_0@ == plan_of(balance as nat, self@, denom@),
            result->Ok_0.distributed() == balance,
            result->Ok_0.wf(),
    {
        proof {
            use_type_invariant(self);
        }
        plan_distribution(balance, &self.config, denom)
    }
}

/// Authorization: an update that anyone but the administrator requests is
/// refused as `Unauthorized`, whatever it holds, and so leaves the stored
/// configuration as it was.
pub proof fn lemma_update_needs_admin(config: ConfigSpec, caller: Seq<char>, update: UpdateSpec)
    requires
        caller != config.admin,
    ensures
        update_outcome(config, caller, update) == Err::<ConfigSpec, DistributorError>(
            DistributorError::Unauthorized,
        ),
{
}

/// A partial update preserves the fields it does not supply: where an update
/// goes through, each field of the new configuration is the supplied one,
/// and the old one where none was supplied.
pub proof fn lemma_update_keeps_other_fields(
    config: ConfigSpec,
    caller: Seq<char>,
    update: UpdateSpec,
)
    requires
        update_outcome(config, caller, update) is Ok,
    ensures
        ({
            let next = update_outcome(config, caller, update)->Ok_0;
            &&& next.admin == if update.admin is Some { update.admin->0 } else { config.admin }
            &&& next.burn_address == if update.burn_address is Some {
                update.burn_address->0
            } else {
                config.burn_address
            }
            &&& next.developer_address == if update.developer_address is Some {
                update.developer_address->0
            } else {
                config.developer_address
            }
            &&& next.whitelist == if update.whitelist is Some {
                update.whitelist->0
            } else {
                config.whitelist
            }
            &&& next.weights == if update.weights is Some { update.weights->0 } else { config.weights }
        }),
{
}

/// An update that supplies nothing and comes from the administrator of a
/// valid configuration goes through and changes nothing.
pub proof fn lemma_empty_update_is_identity(config: ConfigSpec)
    requires
        validation_error(config.whitelist, config.weights) is None,
    ensures
        update_outcome(
            config,
            config.admin,
            UpdateSpec {
                admin: None,
                burn_address: None,
                developer_address: None,
                whitelist: None,
                weights: None,
            },
        ) == Ok::<ConfigSpec, DistributorError>(config),
{
}

/// An update is judged as a whole: it goes through exactly when the caller
/// is the administrator and the merged configuration is valid, and the
/// configuration it leads to is valid again.
pub proof fn lemma_update_outcome_is_valid(config: ConfigSpec, caller: Seq<char>, update: UpdateSpec)
    ensures
        update_outcome(config, caller, update) is Ok <==> caller == config.admin && validation_error(
            merged(config, update).whitelist,
            merged(config, update).weights,
        ) is None,
        update_outcome(config, caller, update) matches Ok(next) ==> validation_error(
            next.whitelist,
            next.weights,
        ) is None,
{
}

/// Reading is idempotent: whatever two reads of one store return, they show
/// the same configuration, that of the store.
pub proof fn lemma_reads_agree(store: &ConfigStore, first: &Config, second: &Config)
    requires
        call_ensures(ConfigStore::get, (store,), first),
        call_ensures(ConfigStore::get, (store,), second),
    ensures
        first@ == second@,
        first@ == store@,
{
}


} // verus!
