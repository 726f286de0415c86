//! The configuration record of the engine.

use crate::weights::{WeightSpec, WeightTable};
use crate::whitelist::{is_routed, RouteSpec, Whitelist};
use vstd::prelude::*;

verus! {

/// The configuration: who administers the engine, where the remainder of a
/// distribution goes, and how protocols are routed and weighted.
///
/// The whitelist and the weight table are each valid by construction. That
/// every weighted protocol has an address is a property of the two together,
/// see [`resolved`].
#[derive(Debug, PartialEq, Eq)]
pub struct Config {
    pub admin: String,
    pub burn_address: String,
    pub developer_address: String,
    pub whitelist: Whitelist,
    pub weights: WeightTable,
}

/// The mathematical content of a [`Config`].
pub struct ConfigSpec {
    pub admin: Seq<char>,
    pub burn_address: Seq<char>,
    pub developer_address: Seq<char>,
    pub whitelist: Seq<RouteSpec>,
    pub weights: Seq<WeightSpec>,
}

impl View for Config {
    type V = ConfigSpec;

    open spec fn view(&self) -> ConfigSpec {
        ConfigSpec {
            admin: self.admin@,
            burn_address: self.burn_address@,
            developer_address: self.developer_address@,
            whitelist: self.whitelist@,
            weights: self.weights@,
        }
    }
}

/// Every protocol that the weight table names has an address in the
/// whitelist.
pub open spec fn resolved(whitelist: Seq<RouteSpec>, weights: Seq<WeightSpec>) -> bool {
    forall|i: int| 0 <= i < weights.len() ==> is_routed(whitelist, (#[trigger] weights[i]).protocol)
}

impl Clone for Config {
    fn clone(&self) -> (copy: Config)
        ensures
            copy@ == self@,
    {
        Config {
            admin: self.admin.clone(),
            burn_address: self.burn_address.clone(),
            developer_address: self.developer_address.clone(),
            whitelist: self.whitelist.clone(),
            weights: self.weights.clone(),
        }
    }
}

} // verus!
