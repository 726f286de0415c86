//! The weight table: which part of a balance each protocol is entitled to.

use crate::error::DistributorError;
use crate::fraction::{from_percent, PERCENT, SCALE};
use vstd::prelude::*;

verus! {

/// One line of the weight table: a protocol and its weight in atomic units
/// of 10^-18, so that `SCALE` stands for 100%.
#[derive(Debug, PartialEq, Eq)]
pub struct WeightEntry {
    pub protocol: String,
    pub weight: u128,
}

/// The mathematical content of a [`WeightEntry`].
pub struct WeightSpec {
    pub protocol: Seq<char>,
    pub weight: nat,
}

impl View for WeightEntry {
    type V = WeightSpec;

    open spec fn view(&self) -> WeightSpec {
        WeightSpec { protocol: self.protocol@, weight: self.weight as nat }
    }
}

impl Clone for WeightEntry {
    fn clone(&self) -> (copy: WeightEntry)
        ensures
            copy@ == self@,
    {
        WeightEntry { protocol: self.protocol.clone(), weight: self.weight }
    }
}

impl WeightEntry {
    /// An entry that gives `protocol` a weight of `weight` atomic units.
    pub fn new(protocol: &str, weight: u128) -> (entry: WeightEntry)
        ensures
            entry@ == (WeightSpec { protocol: protocol@, weight: weight as nat }),
    {
        WeightEntry { protocol: protocol.to_owned(), weight }
    }

    /// An entry that gives `protocol` a weight of `percent` percent.
    pub fn percent(protocol: &str, percent: u64) -> (entry: WeightEntry)
        ensures
            entry@ == (WeightSpec { protocol: protocol@, weight: (percent * PERCENT) as nat }),
    {
        WeightEntry { protocol: protocol.to_owned(), weight: from_percent(percent) }
    }
}

/// The views of a sequence of entries, in the same order.
pub open spec fn weights_view(entries: Seq<WeightEntry>) -> Seq<WeightSpec> {
    entries.map_values(|e: WeightEntry| e@)
}

/// The sum of all weights of a table.
pub open spec fn total_weight(entries: Seq<WeightSpec>) -> nat
    decreases entries.len(),
{
    if entries.len() == 0 {
        0
    } else {
        total_weight(entries.drop_last()) + entries.last().weight
    }
}

/// The weight that a table gives to `protocol`: the sum of the entries that
/// name it, zero where none does.
pub open spec fn weight_of(entries: Seq<WeightSpec>, protocol: Seq<char>) -> nat
    decreases entries.len(),
{
    if entries.len() == 0 {
        0
    } else {
        weight_of(entries.drop_last(), protocol) + if entries.last().protocol == protocol {
            entries.last().weight
        } else {
            0
        }
    }
}

/// Whether a table names `protocol`, with whatever weight.
pub open spec fn is_weighted(entries: Seq<WeightSpec>, protocol: Seq<char>) -> bool {
    exists|i: int| 0 <= i < entries.len() && #[trigger] entries[i].protocol == protocol
}

/// The total of a table grows with every entry that is appended.
pub proof fn lemma_total_weight_monotonic(entries: Seq<WeightSpec>, n: int)
    requires
        0 <= n <= entries.len(),
    ensures
        total_weight(entries.take(n)) <= total_weight(entries),
    decreases entries.len() - n,
{
    if n == entries.len() {
        assert(entries.take(n) =~= entries);
    } else {
        lemma_total_weight_monotonic(entries, n + 1);
        assert(entries.take(n + 1).drop_last() =~= entries.take(n));
    }
}

/// No single entry weighs more than the whole table.
pub proof fn lemma_weight_within_total(entries: Seq<WeightSpec>, i: int)
    requires
        0 <= i < entries.len(),
    ensures
        entries[i].weight <= total_weight(entries),
{
    lemma_total_weight_monotonic(entries, i + 1);
    assert(entries.take(i + 1).drop_last() =~= entries.take(i));
    assert(entries.take(i + 1).last() == entries[i]);
}

/// The weight of one protocol is part of the total.
pub proof fn lemma_weight_of_within_total(entries: Seq<WeightSpec>, protocol: Seq<char>)
    ensures
        weight_of(entries, protocol) <= total_weight(entries),
        !is_weighted(entries, protocol) ==> weight_of(entries, protocol) == 0,
    decreases entries.len(),
{
    if entries.len() > 0 {
        let front = entries.drop_last();
        lemma_weight_of_within_total(front, protocol);
        if !is_weighted(entries, protocol) {
            assert(entries[entries.len() - 1].protocol != protocol);
            assert forall|i: int| 0 <= i < front.len() implies #[trigger] front[i].protocol
                != protocol by {
                assert(entries[i].protocol != protocol);
            }
        }
    }
}

/// A validated table of weights. The weights of a table never add up to more
/// than 100%; a protocol may be listed more than once, and then weighs the
/// sum of its entries.
#[derive(Debug, PartialEq, Eq)]
pub struct WeightTable {
    entries: Vec<WeightEntry>,
}

impl View for WeightTable {
    type V = Seq<WeightSpec>;

    closed spec fn view(&self) -> Seq<WeightSpec> {
        weights_view(self.entries@)
    }
}

impl WeightTable {
    /// The invariant of every table: its weights fit into 100%.
    #[verifier::type_invariant]
    pub open spec fn wf(&self) -> bool {
        total_weight(self@) <= SCALE
    }

    /// The empty table, which gives no protocol any weight.
    pub fn new() -> (table: WeightTable)
        ensures
            table@ == Seq::<WeightSpec>::empty(),
            table.wf(),
    {
        let table = WeightTable { entries: Vec::new() };
        assert(table@ =~= Seq::<WeightSpec>::empty());
        table
    }

    /// Adds up the weights of `entries`, giving up as soon as the sum has
    /// left 100% behind.
    fn checked_total(entries: &Vec<WeightEntry>) -> (total: Option<u128>)
        ensures
            total matches Some(t) ==> t == total_weight(weights_view(entries@)) && t <= SCALE,
            total is None ==> total_weight(weights_view(entries@)) > SCALE,
    {
        let ghost all = weights_view(entries@);
        let mut sum: u128 = 0;
        let mut i: usize = 0;
        while i < entries.len()
            invariant
                0 <= i <= entries.len(),
                all == weights_view(entries@),
                sum == total_weight(all.take(i as int)),
                sum <= SCALE,
            decreases entries.len() - i,
        {
            let weight: u128 = entries[i].weight;
            proof {
                assert(all.take(i + 1).drop_last() =~= all.take(i as int));
                assert(all.take(i + 1).last().weight == weight);
                lemma_total_weight_monotonic(all, i + 1);
            }
            if weight > SCALE || sum + weight > SCALE {
                return None;
            }
            sum = sum + weight;
            i = i + 1;
        }
        assert(all.take(i as int) =~= all);
        Some(sum)
    }

    /// Builds a table from `entries`. They are accepted exactly when their
    /// weights add up to at most 100%.
    pub fn from_entries(entries: Vec<WeightEntry>) -> (result: Result<WeightTable, DistributorError>)
        ensures
            total_weight(weights_view(entries@)) <= SCALE ==> result is Ok && result->Ok_0@
                == weights_view(entries@) && result->Ok_0.wf(),
            total_weight(weights_view(entries@)) > SCALE ==> result == Err::<
                WeightTable,
                DistributorError,
            >(DistributorError::InvalidWeight),
    {
        match Self::checked_total(&entries) {
            Some(_) => Ok(WeightTable { entries }),
            None => Err(DistributorError::InvalidWeight),
        }
    }

    /// Replaces the table by `entries` if their weights add up to at most
    /// 100%, and otherwise fails with `InvalidWeight` and keeps the table
    /// as it was.
    pub fn set_weights(&mut self, entries: Vec<WeightEntry>) -> (result: Result<
        (),
        DistributorError,
    >)
        ensures
            final(self).wf(),
            total_weight(weights_view(entries@)) <= SCALE ==> result is Ok && final(self)@
                == weights_view(entries@),
            total_weight(weights_view(entries@)) > SCALE ==> result == Err::<(), DistributorError>(
                DistributorError::InvalidWeight,
            ) && final(self)@ == old(self)@,
    {
        proof {
            use_type_invariant(&*self);
        }
        match Self::checked_total(&entries) {
            Some(_) => {
                self.entries = entries;
                Ok(())
            },
            None => Err(DistributorError::InvalidWeight),
        }
    }

    /// The sum of all weights of the table, in atomic units.
    pub fn total_weight(&self) -> (total: u128)
        ensures
            total == total_weight(self@),
            total <= SCALE,
    {
        proof {
            use_type_invariant(self);
        }
        match Self::checked_total(&self.entries) {
            Some(total) => total,
            None => 0,
        }
    }

    /// The weight of `protocol` in atomic units: zero if the table does not
    /// name it.
    pub fn weight_of(&self, protocol: &str) -> (weight: u128)
        ensures
            weight == weight_of(self@, protocol@),
            weight <= SCALE,
    {
        proof {
            use_type_invariant(self);
        }
        let ghost all = self@;
        let wanted: String = protocol.to_owned();
        let mut sum: u128 = 0;
        let mut i: usize = 0;
        while i < self.entries.len()
            invariant
                0 <= i <= self.entries.len(),
                all == weights_view(self.entries@),
                wanted@ == protocol@,
                total_weight(all) <= SCALE,
                sum == weight_of(all.take(i as int), protocol@),
            decreases self.entries.len() - i,
        {
            proof {
                assert(all.take(i + 1).drop_last() =~= all.take(i as int));
                assert(all.take(i + 1).last() == self.entries@[i as int]@);
                lemma_weight_of_within_total(all.take(i + 1), protocol@);
                lemma_total_weight_monotonic(all, i + 1);
            }
            if self.entries[i].protocol == wanted {
                sum = sum + self.entries[i].weight;
            }
            i = i + 1;
        }
        proof {
            assert(all.take(i as int) =~= all);
            lemma_weight_of_within_total(all, protocol@);
        }
        sum
    }

    /// The number of entries of the table.
    pub fn len(&self) -> (n: usize)
        ensures
            n == self@.len(),
    {
        self.entries.len()
    }

    /// The entry at position `index`.
    pub fn entry(&self, index: usize) -> (entry: &WeightEntry)
        requires
            index < self@.len(),
        ensures
            entry@ == self@[index as int],
    {
        &self.entries[index]
    }

    /// A copy of the entries, in the order of the table.
    pub fn entries(&self) -> (copy: Vec<WeightEntry>)
        ensures
            weights_view(copy@) == self@,
    {
        let mut copy: Vec<WeightEntry> = Vec::new();
        let mut i: usize = 0;
        while i < self.entries.len()
            invariant
                0 <= i <= self.entries.len(),
                copy@.len() == i,
                forall|j: int| 0 <= j < i ==> (#[trigger] copy@[j])@ == self.entries@[j]@,
            decreases self.entries.len() - i,
        {
            copy.push(self.entries[i].clone());
            i = i + 1;
        }
        assert(weights_view(copy@) =~= self@);
        copy
    }
}

impl Clone for WeightTable {
    fn clone(&self) -> (copy: WeightTable)
        ensures
            copy@ == self@,
            copy.wf(),
    {
        proof {
            use_type_invariant(self);
        }
        WeightTable { entries: self.entries() }
    }
}

} // verus!
