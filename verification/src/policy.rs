//! Storage dispatch policy: the rule-based policy's contract and the
//! order in which stores are consulted.
//!
//! Stores charge and discharge in ascending `dispatch_order` (the same
//! order for both directions, one knob). The policy does not trust the
//! order it is handed: it re-derives the consultation sequence from the
//! stores' `dispatch_order` values ([`dispatch_sequence`]).
use vstd::prelude::*;

use vstd::string::StringExecFns;

use crate::ranking::{is_stable_ranking, lemma_ranking_visits_every_position, ranked_before, stable_ranking};
use crate::text::{append_decimal, decimal, text_equal, texts};

verus! {

/// A policy's dispatch contract: which rule-based policy-tier
/// conventions the engine enforces for it. The physical-invariant tier
/// (ratings, SoC bounds, conservation) binds every policy regardless.
#[derive(Debug, Clone, Copy, PartialEq, Eq)]
pub struct PolicyContract {
    /// Stores charge only from a surplus (`total_charge ≤ surplus`),
    /// never from the thermal stack.
    pub charge_from_surplus_only: bool,
    /// Stores discharge only to serve the deficit left after the full
    /// stack has run (no discharge in a surplus period).
    pub discharge_after_stack_only: bool,
}

impl PolicyContract {
    /// The rule-based contract: every policy-tier obligation guaranteed.
    /// It is also the conservative default for a policy that declares
    /// nothing.
    pub fn rule_based() -> (contract: Self)
        ensures
            contract.charge_from_surplus_only,
            contract.discharge_after_stack_only,
    {
        PolicyContract { charge_from_surplus_only: true, discharge_after_stack_only: true }
    }
}

/// The greedy, chronological, zero-foresight rule-based storage policy.
#[derive(Debug, Clone, Copy, Default)]
pub struct RuleBased;

impl RuleBased {
    /// The rule-based policy holds itself to the full rule-based
    /// contract (surplus-only charging, discharge after the stack).
    pub fn contract(&self) -> (contract: PolicyContract)
        ensures
            contract.charge_from_surplus_only,
            contract.discharge_after_stack_only,
    {
        PolicyContract::rule_based()
    }
}

/// The `dispatch_order` values of stores, widened to ranking keys.
pub open spec fn order_keys(dispatch_orders: Seq<u8>) -> Seq<usize> {
    dispatch_orders.map_values(|order: u8| order as usize)
}

/// The order in which stores are consulted: every store position
/// exactly once, ascending `dispatch_order`, ties in position order (a
/// stable sort of the positions by `dispatch_order`).
pub fn dispatch_sequence(dispatch_orders: &Vec<u8>) -> (sequence: Vec<usize>)
    ensures
        is_stable_ranking(order_keys(dispatch_orders@), sequence@),
{
    let mut keys: Vec<usize> = Vec::new();
    let mut i: usize = 0;
    while i < dispatch_orders.len()
        invariant
            i <= dispatch_orders.len(),
            keys@ =~= order_keys(dispatch_orders@).take(i as int),
        decreases dispatch_orders.len() - i,
    {
        keys.push(dispatch_orders[i] as usize);
        i += 1;
    }
    assert(keys@ =~= order_keys(dispatch_orders@));
    stable_ranking(&keys, 256)
}

/// The zone's storage portfolio holds more than one store of `kind`.
pub open spec fn kind_repeated(kinds: Seq<Seq<char>>, kind: Seq<char>) -> bool {
    exists|i: int, j: int| 0 <= i < j < kinds.len() && #[trigger] kinds[i] == kind && #[trigger] kinds[j] == kind
}

/// The output label of one store: its kind, disambiguated with its
/// dispatch order (`<kind>_<order>`) when the zone holds more than one
/// store of that kind.
pub open spec fn store_label_text(kinds: Seq<Seq<char>>, kind: Seq<char>, dispatch_order: u8) -> Seq<char> {
    if kind_repeated(kinds, kind) {
        kind + "_"@ + decimal(dispatch_order as nat)
    } else {
        kind
    }
}

/// The output label of a store of `kind` with `dispatch_order`, in a
/// zone whose stores have the kinds `zone_kinds`.
pub fn store_label(zone_kinds: &Vec<String>, kind: &str, dispatch_order: u8) -> (label: String)
    ensures
        label@ == store_label_text(texts(zone_kinds@), kind@, dispatch_order),
{
    let ghost t = texts(zone_kinds@);
    let mut first: Option<usize> = None;
    let mut repeated = false;
    let mut i: usize = 0;
    while i < zone_kinds.len() && !repeated
        invariant
            i <= zone_kinds.len(),
            t == texts(zone_kinds@),
            repeated ==> kind_repeated(t, kind@),
            !repeated ==> match first {
                Some(f) => f < i && t[f as int] == kind@ && forall|k: int| 0 <= k < i && k != f ==> t[k] != kind@,
                None => forall|k: int| 0 <= k < i ==> t[k] != kind@,
            },
        decreases zone_kinds.len() - i,
    {
        if text_equal(zone_kinds[i].as_str(), kind) {
            match first {
                Some(f) => {
                    assert(t[f as int] == kind@ && t[i as int] == kind@);
                    repeated = true;
                },
                None => {
                    first = Some(i);
                },
            }
        }
        i += 1;
    }
    proof {
        if !repeated {
            assert(!kind_repeated(t, kind@)) by {
                if kind_repeated(t, kind@) {
                    let (a, b) = choose|a: int, b: int| 0 <= a < b < t.len() && #[trigger] t[a] == kind@ && #[trigger] t[b] == kind@;
                    assert(t[a] == kind@ && t[b] == kind@);
                }
            }
        }
    }
    let mut label = String::from_str(kind);
    if repeated {
        label.append("_");
        append_decimal(&mut label, dispatch_order as u64);
    }
    label
}

/// Stores are consulted by their raw `dispatch_order`: in a
/// consultation sequence, a store with a lower `dispatch_order` comes
/// before one with a higher, stores with equal orders in position
/// order, and every store is consulted exactly once.
pub proof fn lemma_consultation_follows_dispatch_order(dispatch_orders: Seq<u8>, sequence: Seq<usize>)
    requires
        is_stable_ranking(order_keys(dispatch_orders), sequence),
    ensures
        sequence.len() == dispatch_orders.len(),
        forall|a: int, b: int|
            0 <= a < b < sequence.len() ==> dispatch_orders[#[trigger] sequence[a] as int]
                < dispatch_orders[#[trigger] sequence[b] as int] || (dispatch_orders[sequence[a] as int]
                == dispatch_orders[sequence[b] as int] && sequence[a] < sequence[b]),
        forall|i: usize, j: usize|
            i < dispatch_orders.len() && j < dispatch_orders.len() && dispatch_orders[i as int]
                < dispatch_orders[j as int] ==> exists|a: int, b: int|
                0 <= a < b < sequence.len() && #[trigger] sequence[a] == i && #[trigger] sequence[b] == j,
        forall|i: usize| i < dispatch_orders.len() ==> #[trigger] sequence.contains(i),
{
    let keys = order_keys(dispatch_orders);
    assert forall|a: int, b: int| 0 <= a < b < sequence.len() implies dispatch_orders[#[trigger] sequence[a] as int]
        < dispatch_orders[#[trigger] sequence[b] as int] || (dispatch_orders[sequence[a] as int]
        == dispatch_orders[sequence[b] as int] && sequence[a] < sequence[b]) by {
        assert(ranked_before(keys, sequence[a], sequence[b]));
        assert(keys[sequence[a] as int] == dispatch_orders[sequence[a] as int] as usize);
        assert(keys[sequence[b] as int] == dispatch_orders[sequence[b] as int] as usize);
    }
    assert forall|i: usize| i < dispatch_orders.len() implies #[trigger] sequence.contains(i) by {
        lemma_ranking_visits_every_position(keys, sequence, i);
    }
    assert forall|i: usize, j: usize|
        i < dispatch_orders.len() && j < dispatch_orders.len() && dispatch_orders[i as int]
            < dispatch_orders[j as int] implies exists|a: int, b: int|
        0 <= a < b < sequence.len() && #[trigger] sequence[a] == i && #[trigger] sequence[b] == j by {
        lemma_ranking_visits_every_position(keys, sequence, i);
        lemma_ranking_visits_every_position(keys, sequence, j);
        let a = choose|a: int| 0 <= a < sequence.len() && sequence[a] == i;
        let b = choose|b: int| 0 <= b < sequence.len() && sequence[b] == j;
        assert(i != j);
        assert(a != b);
        assert(keys[j as int] == dispatch_orders[j as int] as usize);
        assert(keys[i as int] == dispatch_orders[i as int] as usize);
        if b < a {
            assert(ranked_before(keys, sequence[b], sequence[a]));
        }
        assert(0 <= a < b < sequence.len() && sequence[a] == i && sequence[b] == j);
    }
}

} // verus!
