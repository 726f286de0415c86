//! The distribution engine: from a balance and a configuration to a payout
//! plan.
//!
//! Each entry of the weight table earns its protocol's address the share
//! `floor(balance * weight)`. What the shares leave over, be it unweighted
//! balance or rounding, is the remainder: its lower half goes to the
//! developer address and the rest, with the odd unit, to the burn address.
//! An address that is owed several amounts appears once, with their sum.
//! Recipients stand in the order in which they are first owed something:
//! the weight table from top to bottom, then burn, then developer.

use crate::config::{resolved, Config, ConfigSpec};
use crate::error::DistributorError;
use crate::fraction::{lemma_share_bounded, share, share_of, SCALE};
use crate::weights::{
    lemma_total_weight_monotonic, lemma_weight_within_total, total_weight, WeightSpec,
};
use crate::whitelist::{is_routed, resolve, Route, RouteSpec};
use vstd::prelude::*;

verus! {

/// One line of a payout plan: `recipient` is to receive `amount` units of
/// `denom`.
#[derive(Debug, PartialEq, Eq)]
pub struct Payout {
    pub recipient: String,
    pub amount: u128,
    pub denom: String,
}

/// The mathematical content of a [`Payout`].
pub struct PayoutSpec {
    pub recipient: Seq<char>,
    pub amount: nat,
    pub denom: Seq<char>,
}

impl View for Payout {
    type V = PayoutSpec;

    open spec fn view(&self) -> PayoutSpec {
        PayoutSpec { recipient: self.recipient@, amount: self.amount as nat, denom: self.denom@ }
    }
}

impl Clone for Payout {
    fn clone(&self) -> (copy: Payout)
        ensures
            copy@ == self@,
    {
        Payout {
            recipient: self.recipient.clone(),
            amount: self.amount,
            denom: self.denom.clone(),
        }
    }
}

/// The views of a sequence of payouts, in the same order.
pub open spec fn payouts_view(entries: Seq<Payout>) -> Seq<PayoutSpec> {
    entries.map_values(|p: Payout| p@)
}

/// The sum of the amounts of a plan.
pub open spec fn total_amount(plan: Seq<PayoutSpec>) -> nat
    decreases plan.len(),
{
    if plan.len() == 0 {
        0
    } else {
        total_amount(plan.drop_last()) + plan.last().amount
    }
}

/// No recipient occurs twice in the plan.
pub open spec fn distinct_recipients(plan: Seq<PayoutSpec>) -> bool {
    forall|i: int, j: int|
        0 <= i < j < plan.len() ==> (#[trigger] plan[i]).recipient != (#[trigger] plan[j]).recipient
}

/// Whether the plan has a line for `recipient`.
pub open spec fn pays(plan: Seq<PayoutSpec>, recipient: Seq<char>) -> bool {
    exists|i: int| 0 <= i < plan.len() && (#[trigger] plan[i]).recipient == recipient
}

/// What the plan owes `recipient`: the amounts of its lines for that
/// address, zero where there is none.
pub open spec fn amount_for(plan: Seq<PayoutSpec>, recipient: Seq<char>) -> nat
    decreases plan.len(),
{
    if plan.len() == 0 {
        0
    } else {
        amount_for(plan.drop_last(), recipient) + if plan.last().recipient == recipient {
            plan.last().amount
        } else {
            0
        }
    }
}

/// The plan after `recipient` has been credited with `amount`: the amount is
/// added to the recipient's line if there is one, and a new line is appended
/// if not.
pub open spec fn credit(
    plan: Seq<PayoutSpec>,
    recipient: Seq<char>,
    amount: nat,
    denom: Seq<char>,
) -> Seq<PayoutSpec> {
    if pays(plan, recipient) {
        let i = choose|i: int| 0 <= i < plan.len() && (#[trigger] plan[i]).recipient == recipient;
        plan.update(
            i,
            PayoutSpec { recipient: recipient, amount: plan[i].amount + amount, denom: plan[i].denom },
        )
    } else {
        plan.push(PayoutSpec { recipient: recipient, amount: amount, denom: denom })
    }
}

/// The lines that the weight table earns the protocols' addresses.
pub open spec fn protocol_payouts(
    weights: Seq<WeightSpec>,
    whitelist: Seq<RouteSpec>,
    balance: nat,
    denom: Seq<char>,
) -> Seq<PayoutSpec>
    decreases weights.len(),
{
    if weights.len() == 0 {
        Seq::empty()
    } else {
        let entry = weights.last();
        credit(
            protocol_payouts(weights.drop_last(), whitelist, balance, denom),
            resolve(whitelist, entry.protocol)->0,
            share_of(balance, entry.weight),
            denom,
        )
    }
}

/// The sum of the shares that the weight table hands out.
pub open spec fn allocated(weights: Seq<WeightSpec>, balance: nat) -> nat
    decreases weights.len(),
{
    if weights.len() == 0 {
        0
    } else {
        allocated(weights.drop_last(), balance) + share_of(balance, weights.last().weight)
    }
}

/// The part of a remainder that goes to the developer address.
pub open spec fn developer_share(remainder: nat) -> nat {
    remainder / 2
}

/// The part of a remainder that goes to the burn address.
pub open spec fn burn_share(remainder: nat) -> nat {
    (remainder - remainder / 2) as nat
}

/// The payout plan that a configuration prescribes for a balance.
pub open spec fn plan_of(balance: nat, config: ConfigSpec, denom: Seq<char>) -> Seq<PayoutSpec> {
    let remainder = (balance - allocated(config.weights, balance)) as nat;
    credit(
        credit(
            protocol_payouts(config.weights, config.whitelist, balance, denom),
            config.burn_address,
            burn_share(remainder),
            denom,
        ),
        config.developer_address,
        developer_share(remainder),
        denom,
    )
}

/// The lines of a plan that move money: those with an amount above zero, in
/// the order of the plan.
pub open spec fn transfers_of(plan: Seq<PayoutSpec>) -> Seq<PayoutSpec> {
    plan.filter(|p: PayoutSpec| p.amount > 0)
}

/// What the weight table earns `recipient`: the shares of the entries whose
/// protocol is routed to that address.
pub open spec fn earned(
    weights: Seq<WeightSpec>,
    whitelist: Seq<RouteSpec>,
    balance: nat,
    recipient: Seq<char>,
) -> nat
    decreases weights.len(),
{
    if weights.len() == 0 {
        0
    } else {
        earned(weights.drop_last(), whitelist, balance, recipient) + if resolve(
            whitelist,
            weights.last().protocol,
        ) == Some(recipient) {
            share_of(balance, weights.last().weight)
        } else {
            0
        }
    }
}

/// What a distribution of `balance` owes `recipient` in all: what the weight
/// table earns the address, the burn share if it is the burn address, and
/// the developer share if it is the developer address.
pub open spec fn owed(balance: nat, config: ConfigSpec, recipient: Seq<char>) -> nat {
    let remainder = (balance - allocated(config.weights, balance)) as nat;
    earned(config.weights, config.whitelist, balance, recipient) + if recipient
        == config.burn_address {
        burn_share(remainder)
    } else {
        0
    } + if recipient == config.developer_address {
        developer_share(remainder)
    } else {
        0
    }
}

/// Every line of the plan is in `denom`.
pub open spec fn single_denom(plan: Seq<PayoutSpec>, denom: Seq<char>) -> bool {
    forall|i: int| 0 <= i < plan.len() ==> (#[trigger] plan[i]).denom == denom
}

/// Replacing one line changes the total by the difference of the amounts.
pub proof fn lemma_total_after_update(plan: Seq<PayoutSpec>, i: int, line: PayoutSpec)
    requires
        0 <= i < plan.len(),
    ensures
        total_amount(plan.update(i, line)) + plan[i].amount == total_amount(plan) + line.amount,
        plan[i].amount <= total_amount(plan),
    decreases plan.len(),
{
    let changed = plan.update(i, line);
    if i == plan.len() - 1 {
        assert(changed.drop_last() =~= plan.drop_last());
    } else {
        lemma_total_after_update(plan.drop_last(), i, line);
        assert(changed.drop_last() =~= plan.drop_last().update(i, line));
    }
}

/// Crediting an amount raises the total of a plan by that amount, keeps its
/// recipients distinct, and leaves it paying whom it paid before, and the
/// one credited.
pub proof fn lemma_credit(plan: Seq<PayoutSpec>, recipient: Seq<char>, amount: nat, denom: Seq<char>)
    requires
        distinct_recipients(plan),
    ensures
        total_amount(credit(plan, recipient, amount, denom)) == total_amount(plan) + amount,
        distinct_recipients(credit(plan, recipient, amount, denom)),
        pays(credit(plan, recipient, amount, denom), recipient),
        credit(plan, recipient, amount, denom).len() >= plan.len(),
        forall|i: int|
            0 <= i < plan.len() ==> (#[trigger] credit(plan, recipient, amount, denom)[i]).recipient
                == plan[i].recipient,
{
    let after = credit(plan, recipient, amount, denom);
    if pays(plan, recipient) {
        let i = choose|i: int| 0 <= i < plan.len() && (#[trigger] plan[i]).recipient == recipient;
        lemma_total_after_update(plan, i, after[i]);
        assert forall|a: int, b: int| 0 <= a < b < after.len() implies (#[trigger] after[a]).recipient
            != (#[trigger] after[b]).recipient by {
            assert(after[a].recipient == plan[a].recipient);
            assert(after[b].recipient == plan[b].recipient);
        }
        assert(after[i].recipient == recipient);
    } else {
        assert(after.drop_last() =~= plan);
        assert forall|a: int, b: int| 0 <= a < b < after.len() implies (#[trigger] after[a]).recipient
            != (#[trigger] after[b]).recipient by {
            if b < plan.len() {
                assert(after[a] == plan[a] && after[b] == plan[b]);
            } else {
                assert(after[a] == plan[a]);
                assert(plan[a].recipient != recipient);
            }
        }
        assert(after[plan.len() as int].recipient == recipient);
    }
}

/// Replacing a line by one for the same recipient changes what that
/// recipient is owed by the difference of the amounts, and nothing else.
pub proof fn lemma_amount_for_after_update(
    plan: Seq<PayoutSpec>,
    i: int,
    line: PayoutSpec,
    who: Seq<char>,
)
    requires
        0 <= i < plan.len(),
        line.recipient == plan[i].recipient,
    ensures
        amount_for(plan.update(i, line), who) + (if who == line.recipient {
            plan[i].amount
        } else {
            0
        }) == amount_for(plan, who) + (if who == line.recipient {
            line.amount
        } else {
            0
        }),
    decreases plan.len(),
{
    let changed = plan.update(i, line);
    if i == plan.len() - 1 {
        assert(changed.drop_last() =~= plan.drop_last());
    } else {
        lemma_amount_for_after_update(plan.drop_last(), i, line, who);
        assert(changed.drop_last() =~= plan.drop_last().update(i, line));
    }
}

/// Amounts are additive: crediting a recipient raises what the plan owes
/// that recipient by the amount, and leaves what it owes anyone else.
pub proof fn lemma_credit_is_additive(
    plan: Seq<PayoutSpec>,
    recipient: Seq<char>,
    amount: nat,
    denom: Seq<char>,
    who: Seq<char>,
)
    ensures
        amount_for(credit(plan, recipient, amount, denom), who) == amount_for(plan, who) + if who
            == recipient {
            amount
        } else {
            0
        },
{
    let after = credit(plan, recipient, amount, denom);
    if pays(plan, recipient) {
        let i = choose|i: int| 0 <= i < plan.len() && (#[trigger] plan[i]).recipient == recipient;
        lemma_amount_for_after_update(plan, i, after[i], who);
    } else {
        assert(after.drop_last() =~= plan);
    }
}

/// Crediting in `denom` keeps a plan in that one denomination.
pub proof fn lemma_credit_keeps_denom(
    plan: Seq<PayoutSpec>,
    recipient: Seq<char>,
    amount: nat,
    denom: Seq<char>,
)
    requires
        single_denom(plan, denom),
    ensures
        single_denom(credit(plan, recipient, amount, denom), denom),
{
    let after = credit(plan, recipient, amount, denom);
    if pays(plan, recipient) {
        let i = choose|i: int| 0 <= i < plan.len() && (#[trigger] plan[i]).recipient == recipient;
        assert forall|k: int| 0 <= k < after.len() implies (#[trigger] after[k]).denom == denom by {
            assert(plan[k].denom == denom);
        }
    } else {
        assert forall|k: int| 0 <= k < after.len() implies (#[trigger] after[k]).denom == denom by {
            if k < plan.len() {
                assert(after[k] == plan[k]);
            }
        }
    }
}

/// Two shares together are no more than the share of the two weights
/// together.
pub proof fn lemma_share_superadditive(balance: nat, a: nat, b: nat)
    ensures
        share_of(balance, a) + share_of(balance, b) <= share_of(balance, a + b),
{
    let s = SCALE as int;
    let x = (balance * a) as int;
    let y = (balance * b) as int;
    assert(balance * (a + b) == x + y) by (nonlinear_arith)
        requires
            x == balance * a,
            y == balance * b,
    ;
    vstd::arithmetic::div_mod::lemma_fundamental_div_mod(x, s);
    vstd::arithmetic::div_mod::lemma_fundamental_div_mod(y, s);
    let rest = x % s + y % s;
    vstd::arithmetic::div_mod::lemma_hoist_over_denominator(rest, x / s + y / s, s as nat);
    assert(rest + (x / s + y / s) * s == x + y) by (nonlinear_arith)
        requires
            x == s * (x / s) + x % s,
            y == s * (y / s) + y % s,
            rest == x % s + y % s,
    ;
    assert(0 <= rest / s) by {
        vstd::arithmetic::div_mod::lemma_div_pos_is_pos(rest, s);
    }
}

/// The shares of a weight table add up to no more than the share of its
/// total weight, and so to no more than the balance while the table is
/// valid.
pub proof fn lemma_allocated_bounded(weights: Seq<WeightSpec>, balance: nat)
    ensures
        allocated(weights, balance) <= share_of(balance, total_weight(weights)),
        total_weight(weights) <= SCALE ==> allocated(weights, balance) <= balance,
    decreases weights.len(),
{
    if weights.len() == 0 {
        assert(share_of(balance, 0) == 0) by {
            assert(balance * 0 == 0) by (nonlinear_arith);
        }
    } else {
        let front = weights.drop_last();
        lemma_allocated_bounded(front, balance);
        lemma_share_superadditive(balance, total_weight(front), weights.last().weight);
    }
    if total_weight(weights) <= SCALE {
        lemma_share_bounded(balance, total_weight(weights));
    }
}

/// The lines earned by a resolved weight table have distinct recipients and
/// add up to what the table allocates.
pub proof fn lemma_protocol_payouts(
    weights: Seq<WeightSpec>,
    whitelist: Seq<RouteSpec>,
    balance: nat,
    denom: Seq<char>,
)
    ensures
        distinct_recipients(protocol_payouts(weights, whitelist, balance, denom)),
        total_amount(protocol_payouts(weights, whitelist, balance, denom)) == allocated(
            weights,
            balance,
        ),
    decreases weights.len(),
{
    if weights.len() > 0 {
        let entry = weights.last();
        lemma_protocol_payouts(weights.drop_last(), whitelist, balance, denom);
        lemma_credit(
            protocol_payouts(weights.drop_last(), whitelist, balance, denom),
            resolve(whitelist, entry.protocol)->0,
            share_of(balance, entry.weight),
            denom,
        );
    }
}

/// The lines earned by the weight table owe each address what the table
/// earns it, all in the one denomination.
pub proof fn lemma_protocol_payouts_owe_what_is_earned(
    weights: Seq<WeightSpec>,
    whitelist: Seq<RouteSpec>,
    balance: nat,
    denom: Seq<char>,
    who: Seq<char>,
)
    requires
        resolved(whitelist, weights),
    ensures
        amount_for(protocol_payouts(weights, whitelist, balance, denom), who) == earned(
            weights,
            whitelist,
            balance,
            who,
        ),
        single_denom(protocol_payouts(weights, whitelist, balance, denom), denom),
    decreases weights.len(),
{
    if weights.len() > 0 {
        let entry = weights.last();
        let front = weights.drop_last();
        assert forall|i: int| 0 <= i < front.len() implies is_routed(
            whitelist,
            (#[trigger] front[i]).protocol,
        ) by {
            assert(front[i] == weights[i]);
        }
        assert(is_routed(whitelist, weights[weights.len() - 1].protocol));
        lemma_protocol_payouts_owe_what_is_earned(front, whitelist, balance, denom, who);
        let before = protocol_payouts(front, whitelist, balance, denom);
        let address = resolve(whitelist, entry.protocol)->0;
        lemma_credit_is_additive(before, address, share_of(balance, entry.weight), denom, who);
        lemma_credit_keeps_denom(before, address, share_of(balance, entry.weight), denom);
    }
}

/// Amounts owed to one address are paid together: in the plan of a valid
/// configuration the line of every address holds all that the distribution
/// owes it, whether as a protocol's address, as the burn address or as the
/// developer address, and every line is in the denomination asked for.
pub proof fn lemma_plan_pays_what_is_owed(
    balance: nat,
    config: ConfigSpec,
    denom: Seq<char>,
    who: Seq<char>,
)
    requires
        resolved(config.whitelist, config.weights),
    ensures
        amount_for(plan_of(balance, config, denom), who) == owed(balance, config, who),
        single_denom(plan_of(balance, config, denom), denom),
{
    lemma_protocol_payouts_owe_what_is_earned(
        config.weights,
        config.whitelist,
        balance,
        denom,
        who,
    );
    let remainder = (balance - allocated(config.weights, balance)) as nat;
    let earned_lines = protocol_payouts(config.weights, config.whitelist, balance, denom);
    lemma_credit_is_additive(earned_lines, config.burn_address, burn_share(remainder), denom, who);
    lemma_credit_keeps_denom(earned_lines, config.burn_address, burn_share(remainder), denom);
    let burnt = credit(earned_lines, config.burn_address, burn_share(remainder), denom);
    lemma_credit_is_additive(
        burnt,
        config.developer_address,
        developer_share(remainder),
        denom,
        who,
    );
    lemma_credit_keeps_denom(burnt, config.developer_address, developer_share(remainder), denom);
}

/// The transfers of a plan move its whole total: leaving out the lines of
/// zero loses nothing.
pub proof fn lemma_transfers_move_the_total(plan: Seq<PayoutSpec>)
    ensures
        total_amount(transfers_of(plan)) == total_amount(plan),
        transfers_of(plan).len() <= plan.len(),
        forall|i: int| 0 <= i < transfers_of(plan).len() ==> (#[trigger] transfers_of(plan)[i]).amount > 0,
    decreases plan.len(),
{
    reveal(Seq::filter);
    if plan.len() > 0 {
        let front = plan.drop_last();
        lemma_transfers_move_the_total(front);
        if plan.last().amount > 0 {
            assert(transfers_of(plan) == transfers_of(front).push(plan.last()));
            assert(transfers_of(plan).drop_last() =~= transfers_of(front));
        } else {
            assert(transfers_of(plan) == transfers_of(front));
        }
    }
}

/// A weight table earns nothing for an address to which none of its
/// protocols is routed.
pub proof fn lemma_nothing_earned_without_weight(
    weights: Seq<WeightSpec>,
    whitelist: Seq<RouteSpec>,
    balance: nat,
    who: Seq<char>,
)
    requires
        forall|i: int|
            0 <= i < weights.len() ==> resolve(whitelist, (#[trigger] weights[i]).protocol) != Some(
                who,
            ),
    ensures
        earned(weights, whitelist, balance, who) == 0,
    decreases weights.len(),
{
    if weights.len() > 0 {
        let front = weights.drop_last();
        assert forall|i: int| 0 <= i < front.len() implies resolve(
            whitelist,
            (#[trigger] front[i]).protocol,
        ) != Some(who) by {
            assert(front[i] == weights[i]);
        }
        lemma_nothing_earned_without_weight(front, whitelist, balance, who);
        assert(resolve(whitelist, weights[weights.len() - 1].protocol) != Some(who));
    }
}

/// An address is inert unless something points at it: if it is neither the
/// burn nor the developer address and no weighted protocol is routed to it,
/// the plan owes it nothing, whether the whitelist names it or not.
pub proof fn lemma_unweighted_address_is_inert(
    balance: nat,
    config: ConfigSpec,
    denom: Seq<char>,
    who: Seq<char>,
)
    requires
        resolved(config.whitelist, config.weights),
        who != config.burn_address,
        who != config.developer_address,
        forall|i: int|
            0 <= i < config.weights.len() ==> resolve(
                config.whitelist,
                (#[trigger] config.weights[i]).protocol,
            ) != Some(who),
    ensures
        amount_for(plan_of(balance, config, denom), who) == 0,
{
    lemma_plan_pays_what_is_owed(balance, config, denom, who);
    lemma_nothing_earned_without_weight(config.weights, config.whitelist, balance, who);
}

/// Conservation: the plan that a valid configuration prescribes for a
/// balance pays out exactly that balance, each recipient once.
pub proof fn lemma_plan_conserves_balance(balance: nat, config: ConfigSpec, denom: Seq<char>)
    requires
        total_weight(config.weights) <= SCALE,
    ensures
        total_amount(plan_of(balance, config, denom)) == balance,
        distinct_recipients(plan_of(balance, config, denom)),
        pays(plan_of(balance, config, denom), config.developer_address),
        pays(plan_of(balance, config, denom), config.burn_address),
{
    lemma_allocated_bounded(config.weights, balance);
    lemma_protocol_payouts(config.weights, config.whitelist, balance, denom);
    let remainder = (balance - allocated(config.weights, balance)) as nat;
    let earned = protocol_payouts(config.weights, config.whitelist, balance, denom);
    lemma_credit(earned, config.burn_address, burn_share(remainder), denom);
    let burnt = credit(earned, config.burn_address, burn_share(remainder), denom);
    lemma_credit(burnt, config.developer_address, developer_share(remainder), denom);
    let plan = credit(burnt, config.developer_address, developer_share(remainder), denom);
    let k = choose|k: int| 0 <= k < burnt.len() && (#[trigger] burnt[k]).recipient == config.burn_address;
    assert(plan[k].recipient == config.burn_address);
}

/// A line of a plan owes no more than the whole plan, and a recipient that
/// the plan does not pay is owed nothing.
pub proof fn lemma_amount_for_within_total(plan: Seq<PayoutSpec>, recipient: Seq<char>)
    ensures
        amount_for(plan, recipient) <= total_amount(plan),
        !pays(plan, recipient) ==> amount_for(plan, recipient) == 0,
    decreases plan.len(),
{
    if plan.len() > 0 {
        let front = plan.drop_last();
        lemma_amount_for_within_total(front, recipient);
        if !pays(plan, recipient) {
            assert(plan[plan.len() - 1].recipient != recipient);
            assert forall|i: int| 0 <= i < front.len() implies (#[trigger] front[i]).recipient
                != recipient by {
                assert(plan[i].recipient != recipient);
            }
        }
    }
}

/// Credits `recipient` with `amount` in a list of payouts.
fn credit_line(entries: &mut Vec<Payout>, recipient: &String, amount: u128, denom: &String)
    requires
        distinct_recipients(payouts_view(old(entries)@)),
        total_amount(payouts_view(old(entries)@)) + amount <= u128::MAX,
    ensures
        payouts_view(final(entries)@) == credit(
            payouts_view(old(entries)@),
            recipient@,
            amount as nat,
            denom@,
        ),
{
    let ghost before = payouts_view(entries@);
    let mut i: usize = 0;
    while i < entries.len()
        invariant
            0 <= i <= entries.len(),
            before == payouts_view(entries@),
            before == payouts_view(old(entries)@),
            distinct_recipients(before),
            total_amount(before) + amount <= u128::MAX,
            forall|a: int| 0 <= a < i ==> (#[trigger] before[a]).recipient != recipient@,
        decreases entries.len() - i,
    {
        if entries[i].recipient == *recipient {
            proof {
                lemma_total_after_update(before, i as int, before[i as int]);
            }
            let line = Payout {
                recipient: recipient.clone(),
                amount: entries[i].amount + amount,
                denom: entries[i].denom.clone(),
            };
            let ghost line_spec = line@;
            entries.set(i, line);
            proof {
                assert(before[i as int].recipient == recipient@);
                let k = choose|k: int|
                    0 <= k < before.len() && (#[trigger] before[k]).recipient == recipient@;
                if k < i {
                    assert(before[k].recipient != before[i as int].recipient);
                } else if i < k {
                    assert(before[i as int].recipient != before[k].recipient);
                }
                assert(payouts_view(entries@) =~= before.update(i as int, line_spec));
            }
            return ;
        }
        i = i + 1;
    }
    let line = Payout { recipient: recipient.clone(), amount: amount, denom: denom.clone() };
    let ghost line_spec = line@;
    entries.push(line);
    proof {
        assert(!pays(before, recipient@));
        assert(payouts_view(entries@) =~= before.push(line_spec));
    }
}

/// A payout plan: who receives how much of one distributed balance. Each
/// recipient has one line, and the lines add up to the balance.
#[derive(Debug, PartialEq, Eq)]
pub struct PayoutPlan {
    balance: u128,
    entries: Vec<Payout>,
}

impl View for PayoutPlan {
    type V = Seq<PayoutSpec>;

    closed spec fn view(&self) -> Seq<PayoutSpec> {
        payouts_view(self.entries@)
    }
}

impl PayoutPlan {
    /// The balance that the plan distributes.
    pub closed spec fn distributed(&self) -> nat {
        self.balance as nat
    }

    /// The invariant of every plan: no recipient has two lines, and the
    /// amounts add up to the distributed balance.
    #[verifier::type_invariant]
    pub open spec fn wf(&self) -> bool {
        &&& distinct_recipients(self@)
        &&& total_amount(self@) == self.distributed()
    }

    /// The balance that the plan distributes, which is the sum of its
    /// amounts.
    pub fn balance(&self) -> (balance: u128)
        ensures
            balance == self.distributed(),
            balance == total_amount(self@),
    {
        proof {
            use_type_invariant(self);
        }
        self.balance
    }

    /// The number of lines of the plan.
    pub fn len(&self) -> (n: usize)
        ensures
            n == self@.len(),
    {
        self.entries.len()
    }

    /// The line at position `index`.
    pub fn entry(&self, index: usize) -> (entry: &Payout)
        requires
            index < self@.len(),
        ensures
            entry@ == self@[index as int],
    {
        &self.entries[index]
    }

    /// A copy of the lines, in the order of the plan.
    pub fn entries(&self) -> (copy: Vec<Payout>)
        ensures
            payouts_view(copy@) == self@,
    {
        let mut copy: Vec<Payout> = Vec::new();
        let mut i: usize = 0;
        while i < self.entries.len()
            invariant
                0 <= i <= self.entries.len(),
                copy@.len() == i,
                forall|j: int| 0 <= j < i ==> (#[trigger] copy@[j])@ == self.entries@[j]@,
            decreases self.entries.len() - i,
        {
            copy.push(self.entries[i].clone());
            i = i + 1;
        }
        assert(payouts_view(copy@) =~= self@);
        copy
    }

    /// What the plan owes `recipient`: zero if it has no line for that
    /// address.
    pub fn amount_for(&self, recipient: &str) -> (amount: u128)
        ensures
            amount == amount_for(self@, recipient@),
    {
        proof {
            use_type_invariant(self);
        }
        let ghost all = self@;
        let wanted: String = recipient.to_owned();
        let mut sum: u128 = 0;
        let mut i: usize = 0;
        while i < self.entries.len()
            invariant
                0 <= i <= self.entries.len(),
                all == payouts_view(self.entries@),
                wanted@ == recipient@,
                total_amount(all) <= u128::MAX,
                sum == amount_for(all.take(i as int), recipient@),
            decreases self.entries.len() - i,
        {
            proof {
                assert(all.take(i + 1).drop_last() =~= all.take(i as int));
                assert(all.take(i + 1).last() == self.entries@[i as int]@);
                lemma_amount_for_within_total(all.take(i + 1), recipient@);
                lemma_total_amount_monotonic(all, i + 1);
            }
            if self.entries[i].recipient == wanted {
                sum = sum + self.entries[i].amount;
            }
            i = i + 1;
        }
        assert(all.take(i as int) =~= all);
        sum
    }

    /// The transfers that carry out the plan: its lines with an amount
    /// above zero, in the order of the plan.
    pub fn transfers(&self) -> (transfers: Vec<Payout>)
        ensures
            payouts_view(transfers@) == transfers_of(self@),
    {
        let ghost all = self@;
        let ghost moves = |p: PayoutSpec| p.amount > 0;
        let mut transfers: Vec<Payout> = Vec::new();
        let mut i: usize = 0;
        proof {
            reveal(Seq::filter);
            assert(all.take(0) =~= Seq::<PayoutSpec>::empty());
            assert(payouts_view(transfers@) =~= all.take(0).filter(moves));
        }
        while i < self.entries.len()
            invariant
                0 <= i <= self.entries.len(),
                all == payouts_view(self.entries@),
                moves == |p: PayoutSpec| p.amount > 0,
                payouts_view(transfers@) == all.take(i as int).filter(moves),
            decreases self.entries.len() - i,
        {
            let ghost sent = payouts_view(transfers@);
            proof {
                reveal(Seq::filter);
                assert(all.take(i + 1).drop_last() =~= all.take(i as int));
                assert(all.take(i + 1).last() == self.entries@[i as int]@);
            }
            if self.entries[i].amount > 0 {
                transfers.push(self.entries[i].clone());
                assert(payouts_view(transfers@) =~= sent.push(all[i as int]));
            }
            i = i + 1;
        }
        assert(all.take(i as int) =~= all);
        transfers
    }
}

/// The total of a plan grows with every line that is appended.
pub proof fn lemma_total_amount_monotonic(plan: Seq<PayoutSpec>, n: int)
    requires
        0 <= n <= plan.len(),
    ensures
        total_amount(plan.take(n)) <= total_amount(plan),
    decreases plan.len() - n,
{
    if n == plan.len() {
        assert(plan.take(n) =~= plan);
    } else {
        lemma_total_amount_monotonic(plan, n + 1);
        assert(plan.take(n + 1).drop_last() =~= plan.take(n));
    }
}

/// Plans the distribution of `balance` units of `denom` under `config`.
///
/// The operation fails with `UnresolvedProtocol`, and plans nothing, if the
/// weight table names a protocol that the whitelist does not route. In every
/// other case it returns the plan that `plan_of` prescribes, which pays out
/// `balance` exactly and names each recipient once.
pub fn plan_distribution(balance: u128, config: &Config, denom: &str) -> (result: Result<
    PayoutPlan,
    DistributorError,
>)
    ensures
        !resolved(config@.whitelist, config@.weights) ==> result == Err::<
            PayoutPlan,
            DistributorError,
        >(DistributorError::UnresolvedProtocol),
        resolved(config@.whitelist, config@.weights) ==> {
            &&& result is Ok
            &&& result->Ok_0@ == plan_of(balance as nat, config@, denom@)
            &&& result->Ok_0.distributed() == balance
            &&& total_amount(result->Ok_0@) == balance
            &&& distinct_recipients(result->Ok_0@)
        },
{
    proof {
        use_type_invariant(&config.weights);
    }
    let ghost weights = config@.weights;
    let ghost whitelist = config@.whitelist;
    let unit: String = denom.to_owned();
    let count: usize = config.weights.len();
    let mut entries: Vec<Payout> = Vec::new();
    let mut sum: u128 = 0;
    let mut i: usize = 0;
    assert(payouts_view(entries@) =~= protocol_payouts(
        weights.take(0),
        whitelist,
        balance as nat,
        denom@,
    ));
    while i < count
        invariant
            0 <= i <= count == weights.len(),
            weights == config@.weights,
            whitelist == config@.whitelist,
            unit@ == denom@,
            total_weight(weights) <= SCALE,
            payouts_view(entries@) == protocol_payouts(
                weights.take(i as int),
                whitelist,
                balance as nat,
                denom@,
            ),
            sum == allocated(weights.take(i as int), balance as nat),
            forall|j: int| 0 <= j < i ==> is_routed(whitelist, (#[trigger] weights[j]).protocol),
        decreases count - i,
    {
        let entry = config.weights.entry(i);
        proof {
            let upto = weights.take(i + 1);
            assert(upto.drop_last() =~= weights.take(i as int));
            assert(upto.last() == weights[i as int]);
            lemma_weight_within_total(weights, i as int);
            lemma_total_weight_monotonic(weights, i + 1);
            lemma_allocated_bounded(upto, balance as nat);
            lemma_protocol_payouts(weights.take(i as int), whitelist, balance as nat, denom@);
        }
        match config.whitelist.address_for(entry.protocol.as_str()) {
            Route::Unrouted => {
                assert(!is_routed(whitelist, weights[i as int].protocol));
                return Err(DistributorError::UnresolvedProtocol);
            },
            Route::Address(address) => {
                let amount: u128 = share(balance, entry.weight);
                credit_line(&mut entries, &address, amount, &unit);
                sum = sum + amount;
            },
        }
        i = i + 1;
    }
    proof {
        assert(weights.take(i as int) =~= weights);
        lemma_protocol_payouts(weights, whitelist, balance as nat, denom@);
        lemma_allocated_bounded(weights, balance as nat);
    }
    let remainder: u128 = balance - sum;
    let to_developer: u128 = remainder / 2;
    let to_burn: u128 = remainder - to_developer;
    proof {
        lemma_credit(payouts_view(entries@), config@.burn_address, to_burn as nat, denom@);
    }
    credit_line(&mut entries, &config.burn_address, to_burn, &unit);
    credit_line(&mut entries, &config.developer_address, to_developer, &unit);
    proof {
        lemma_plan_conserves_balance(balance as nat, config@, denom@);
    }
    Ok(PayoutPlan { balance, entries })
}


} // verus!
