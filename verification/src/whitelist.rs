//! The whitelist: which address is paid on behalf of each protocol.

use crate::error::DistributorError;
use vstd::prelude::*;

verus! {

/// One line of the whitelist: `address` is the payout address of `protocol`.
#[derive(Debug, PartialEq, Eq)]
pub struct WhitelistEntry {
    pub address: String,
    pub protocol: String,
}

/// The mathematical content of a [`WhitelistEntry`].
pub struct RouteSpec {
    pub address: Seq<char>,
    pub protocol: Seq<char>,
}

impl View for WhitelistEntry {
    type V = RouteSpec;

    open spec fn view(&self) -> RouteSpec {
        RouteSpec { address: self.address@, protocol: self.protocol@ }
    }
}

impl Clone for WhitelistEntry {
    fn clone(&self) -> (copy: WhitelistEntry)
        ensures
            copy@ == self@,
    {
        WhitelistEntry { address: self.address.clone(), protocol: self.protocol.clone() }
    }
}

impl WhitelistEntry {
    /// An entry that routes the payouts of `protocol` to `address`.
    pub fn new(address: &str, protocol: &str) -> (entry: WhitelistEntry)
        ensures
            entry@ == (RouteSpec { address: address@, protocol: protocol@ }),
    {
        WhitelistEntry { address: address.to_owned(), protocol: protocol.to_owned() }
    }
}

/// What the whitelist answers when asked for the address of a protocol.
#[derive(Debug, PartialEq, Eq)]
pub enum Route {
    /// The protocol is paid at this address.
    Address(String),
    /// The whitelist has no entry for the protocol.
    Unrouted,
}

impl View for Route {
    type V = Option<Seq<char>>;

    open spec fn view(&self) -> Option<Seq<char>> {
        match self {
            Route::Address(address) => Some(address@),
            Route::Unrouted => None,
        }
    }
}

/// The views of a sequence of entries, in the same order.
pub open spec fn routes_view(entries: Seq<WhitelistEntry>) -> Seq<RouteSpec> {
    entries.map_values(|e: WhitelistEntry| e@)
}

/// No two entries name the same protocol.
pub open spec fn distinct_protocols(entries: Seq<RouteSpec>) -> bool {
    forall|i: int, j: int|
        0 <= i < j < entries.len() ==> (#[trigger] entries[i]).protocol != (
        #[trigger] entries[j]).protocol
}

/// Whether some entry names `protocol`.
pub open spec fn is_routed(entries: Seq<RouteSpec>, protocol: Seq<char>) -> bool {
    exists|i: int| 0 <= i < entries.len() && (#[trigger] entries[i]).protocol == protocol
}

/// The address that the entries give to `protocol`, if any names it. Among
/// entries with distinct protocols at most one does.
pub open spec fn resolve(entries: Seq<RouteSpec>, protocol: Seq<char>) -> Option<Seq<char>> {
    if is_routed(entries, protocol) {
        let i = choose|i: int| 0 <= i < entries.len() && (#[trigger] entries[i]).protocol == protocol;
        Some(entries[i].address)
    } else {
        None
    }
}

/// Among entries with distinct protocols, the entry that names a protocol
/// decides its address.
pub proof fn lemma_resolve_at(entries: Seq<RouteSpec>, i: int)
    requires
        distinct_protocols(entries),
        0 <= i < entries.len(),
    ensures
        resolve(entries, entries[i].protocol) == Some(entries[i].address),
{
    let protocol = entries[i].protocol;
    assert(is_routed(entries, protocol));
    let k = choose|k: int| 0 <= k < entries.len() && (#[trigger] entries[k]).protocol == protocol;
    if k < i {
        assert(entries[k].protocol != entries[i].protocol);
    } else if i < k {
        assert(entries[i].protocol != entries[k].protocol);
    }
}

/// A validated whitelist: no two of its entries name the same protocol.
#[derive(Debug, PartialEq, Eq)]
pub struct Whitelist {
    entries: Vec<WhitelistEntry>,
}

impl View for Whitelist {
    type V = Seq<RouteSpec>;

    closed spec fn view(&self) -> Seq<RouteSpec> {
        routes_view(self.entries@)
    }
}

impl Whitelist {
    /// The invariant of every whitelist: each protocol has one address at most.
    #[verifier::type_invariant]
    pub open spec fn wf(&self) -> bool {
        distinct_protocols(self@)
    }

    /// The empty whitelist, which routes no protocol.
    pub fn new() -> (list: Whitelist)
        ensures
            list@ == Seq::<RouteSpec>::empty(),
            list.wf(),
    {
        let list = Whitelist { entries: Vec::new() };
        assert(list@ =~= Seq::<RouteSpec>::empty());
        list
    }

    /// Tells whether no protocol occurs twice in `entries`.
    fn all_distinct(entries: &Vec<WhitelistEntry>) -> (distinct: bool)
        ensures
            distinct == distinct_protocols(routes_view(entries@)),
    {
        let ghost all = routes_view(entries@);
        let mut j: usize = 0;
        while j < entries.len()
            invariant
                0 <= j <= entries.len(),
                all == routes_view(entries@),
                forall|a: int, b: int|
                    0 <= a < b < j ==> (#[trigger] all[a]).protocol != (#[trigger] all[b]).protocol,
            decreases entries.len() - j,
        {
            let mut i: usize = 0;
            while i < j
                invariant
                    0 <= i <= j < entries.len(),
                    all == routes_view(entries@),
                    forall|a: int| 0 <= a < i ==> (#[trigger] all[a]).protocol != all[j as int].protocol,
                decreases j - i,
            {
                if entries[i].protocol == entries[j].protocol {
                    assert(all[i as int].protocol == all[j as int].protocol);
                    return false;
                }
                i = i + 1;
            }
            j = j + 1;
        }
        true
    }

    /// Builds a whitelist from `entries`. They are accepted exactly when no
    /// two of them name the same protocol.
    pub fn from_entries(entries: Vec<WhitelistEntry>) -> (result: Result<
        Whitelist,
        DistributorError,
    >)
        ensures
            distinct_protocols(routes_view(entries@)) ==> result is Ok && result->Ok_0@
                == routes_view(entries@) && result->Ok_0.wf(),
            !distinct_protocols(routes_view(entries@)) ==> result == Err::<
                Whitelist,
                DistributorError,
            >(DistributorError::DuplicateProtocol),
    {
        if Self::all_distinct(&entries) {
            Ok(Whitelist { entries })
        } else {
            Err(DistributorError::DuplicateProtocol)
        }
    }

    /// Replaces the whitelist by `entries` if no two of them name the same
    /// protocol, and otherwise fails with `DuplicateProtocol` and keeps the
    /// whitelist as it was.
    pub fn set_entries(&mut self, entries: Vec<WhitelistEntry>) -> (result: Result<
        (),
        DistributorError,
    >)
        ensures
            final(self).wf(),
            distinct_protocols(routes_view(entries@)) ==> result is Ok && final(self)@
                == routes_view(entries@),
            !distinct_protocols(routes_view(entries@)) ==> result == Err::<(), DistributorError>(
                DistributorError::DuplicateProtocol,
            ) && final(self)@ == old(self)@,
    {
        proof {
            use_type_invariant(&*self);
        }
        if Self::all_distinct(&entries) {
            self.entries = entries;
            Ok(())
        } else {
            Err(DistributorError::DuplicateProtocol)
        }
    }

    /// The payout address of `protocol`, or `Unrouted` if the whitelist has
    /// no entry for it.
    pub fn address_for(&self, protocol: &str) -> (route: Route)
        ensures
            route@ == resolve(self@, protocol@),
    {
        proof {
            use_type_invariant(self);
        }
        let ghost all = self@;
        let wanted: String = protocol.to_owned();
        let mut i: usize = 0;
        while i < self.entries.len()
            invariant
                0 <= i <= self.entries.len(),
                all == routes_view(self.entries@),
                distinct_protocols(all),
                wanted@ == protocol@,
                forall|a: int| 0 <= a < i ==> (#[trigger] all[a]).protocol != protocol@,
            decreases self.entries.len() - i,
        {
            if self.entries[i].protocol == wanted {
                proof {
                    assert(all[i as int].protocol == protocol@);
                    lemma_resolve_at(all, i as int);
                }
                return Route::Address(self.entries[i].address.clone());
            }
            i = i + 1;
        }
        Route::Unrouted
    }

    /// The number of entries of the whitelist.
    pub fn len(&self) -> (n: usize)
        ensures
            n == self@.len(),
    {
        self.entries.len()
    }

    /// The entry at position `index`.
    pub fn entry(&self, index: usize) -> (entry: &WhitelistEntry)
        requires
            index < self@.len(),
        ensures
            entry@ == self@[index as int],
    {
        &self.entries[index]
    }

    /// A copy of the entries, in the order of the whitelist.
    pub fn entries(&self) -> (copy: Vec<WhitelistEntry>)
        ensures
            routes_view(copy@) == self@,
    {
        let mut copy: Vec<WhitelistEntry> = Vec::new();
        let mut i: usize = 0;
        while i < self.entries.len()
            invariant
                0 <= i <= self.entries.len(),
                copy@.len() == i,
                forall|j: int| 0 <= j < i ==> (#[trigger] copy@[j])@ == self.entries@[j]@,
            decreases self.entries.len() - i,
        {
            copy.push(self.entries[i].clone());
            i = i + 1;
        }
        assert(routes_view(copy@) =~= self@);
        copy
    }
}

impl Clone for Whitelist {
    fn clone(&self) -> (copy: Whitelist)
        ensures
            copy@ == self@,
            copy.wf(),
    {
        proof {
            use_type_invariant(self);
        }
        Whitelist { entries: self.entries() }
    }
}

} // verus!
