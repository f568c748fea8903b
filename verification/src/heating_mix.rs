//! The ASHP/GSHP/district heating-mix simplex: share points held as
//! integer numerators over a common denominator, so the simplex
//! constraint `ashp + gshp + district = 1` holds by construction, and
//! the full lattice of such points at a given step.
use vstd::prelude::*;

use vstd::string::StringExecFns;

use crate::error::{GridError, scenario_refusal};
use crate::text::{append_decimal, decimal};

verus! {

/// Largest legal simplex denominator (a 0.001 share step, 501,501
/// lattice points). Beyond it a lattice request is refused: every point
/// costs a full multi-year bisection solve.
pub const MAX_SIMPLEX_DENOMINATOR: u32 = 1000;

/// Whether three numerators form a share point over `denominator`: the
/// denominator is nonzero and the numerators sum to it exactly (in
/// unbounded arithmetic, so no wrapped sum can pass).
pub open spec fn shares_valid(ashp: u32, gshp: u32, district: u32, denominator: u32) -> bool {
    &&& denominator != 0
    &&& ashp as int + gshp as int + district as int == denominator as int
}

/// Why [`MixShares::new`] refuses numerators that do not form a share
/// point.
pub open spec fn shares_reason(ashp: u32, gshp: u32, district: u32, denominator: u32) -> Seq<char> {
    if denominator == 0 {
        "heating-mix shares need a nonzero denominator"@
    } else {
        "heating-mix shares "@ + decimal(ashp as nat) + "/"@ + decimal(gshp as nat) + "/"@ + decimal(
            district as nat,
        ) + " over "@ + decimal(denominator as nat)
            + " do not sum to the denominator — the simplex constraint is exact by construction"@
    }
}

/// The refusal text for numerators that do not sum to a nonzero
/// denominator.
fn sum_mismatch_text(ashp: u32, gshp: u32, district: u32, denominator: u32) -> (text: String)
    requires
        denominator != 0,
    ensures
        text@ == shares_reason(ashp, gshp, district, denominator),
{
    let mut text = String::from_str("heating-mix shares ");
    append_decimal(&mut text, ashp as u64);
    text.append("/");
    append_decimal(&mut text, gshp as u64);
    text.append("/");
    append_decimal(&mut text, district as u64);
    text.append(" over ");
    append_decimal(&mut text, denominator as u64);
    text.append(" do not sum to the denominator — the simplex constraint is exact by construction");
    text
}

/// One point of the ASHP/GSHP/district simplex, as integer numerators
/// over a common denominator.
#[derive(Debug, Clone, Copy, PartialEq, Eq)]
pub struct MixShares {
    ashp: u32,
    gshp: u32,
    district: u32,
    denominator: u32,
}

impl View for MixShares {
    /// `(ashp, gshp, district, denominator)`.
    type V = (u32, u32, u32, u32);

    closed spec fn view(&self) -> (u32, u32, u32, u32) {
        (self.ashp, self.gshp, self.district, self.denominator)
    }
}

impl MixShares {
    #[verifier::type_invariant]
    spec fn is_share_point(self) -> bool {
        shares_valid(self.ashp, self.gshp, self.district, self.denominator)
    }

    /// Build a mix from numerators; they must sum to the (nonzero)
    /// denominator.
    pub fn new(ashp: u32, gshp: u32, district: u32, denominator: u32) -> (r: Result<Self, GridError>)
        ensures
            r is Ok <==> shares_valid(ashp, gshp, district, denominator),
            r matches Ok(mix) ==> mix@ == (ashp, gshp, district, denominator),
            r matches Err(e) ==> scenario_refusal(e, shares_reason(ashp, gshp, district, denominator)),
    {
        if denominator == 0 {
            return Err(
                GridError::InvalidScenario {
                    reason: String::from_str("heating-mix shares need a nonzero denominator"),
                },
            );
        }
        let sum = match ashp.checked_add(gshp) {
            Some(partial) => partial.checked_add(district),
            None => None,
        };
        match sum {
            Some(total) if total == denominator => Ok(MixShares { ashp, gshp, district, denominator }),
            _ => Err(
                GridError::InvalidScenario { reason: sum_mismatch_text(ashp, gshp, district, denominator) },
            ),
        }
    }

    /// ASHP numerator.
    pub fn ashp(&self) -> (r: u32)
        ensures
            r == self@.0,
            shares_valid(self@.0, self@.1, self@.2, self@.3),
    {
        proof {
            use_type_invariant(self);
        }
        self.ashp
    }

    /// GSHP numerator.
    pub fn gshp(&self) -> (r: u32)
        ensures
            r == self@.1,
            shares_valid(self@.0, self@.1, self@.2, self@.3),
    {
        proof {
            use_type_invariant(self);
        }
        self.gshp
    }

    /// District-geothermal numerator.
    pub fn district(&self) -> (r: u32)
        ensures
            r == self@.2,
            shares_valid(self@.0, self@.1, self@.2, self@.3),
    {
        proof {
            use_type_invariant(self);
        }
        self.district
    }

    /// The common denominator (never zero).
    pub fn denominator(&self) -> (r: u32)
        ensures
            r == self@.3,
            r != 0,
            shares_valid(self@.0, self@.1, self@.2, self@.3),
    {
        proof {
            use_type_invariant(self);
        }
        self.denominator
    }
}

/// `k`-th triangular number `0 + 1 + … + k`: the number of lattice
/// points whose ASHP numerator exceeds `n − k`.
pub open spec fn tri(k: nat) -> nat
    decreases k,
{
    if k == 0 {
        0
    } else {
        k + tri((k - 1) as nat)
    }
}

/// Position in the lattice of the point `k` steps down in ASHP
/// (`ashp = n − step`) with district numerator `district`.
pub open spec fn lattice_slot(step: nat, district: nat) -> int {
    (tri(step) + district) as int
}

/// `a` precedes `b` in lattice order: ASHP-descending, then
/// GSHP-descending.
pub open spec fn lattice_precedes(a: (u32, u32, u32, u32), b: (u32, u32, u32, u32)) -> bool {
    a.0 > b.0 || (a.0 == b.0 && a.1 > b.1)
}

/// The lattice size a refused denominator would give, `(n + 1)(n + 2) / 2`,
/// with the product saturating at `u64::MAX`.
pub open spec fn refused_lattice_size(denominator: u32) -> nat {
    let product = (denominator + 1) * (denominator + 2);
    let saturated = if product > u64::MAX {
        u64::MAX as int
    } else {
        product
    };
    (saturated / 2) as nat
}

/// Why [`simplex_mixes`] refuses a denominator.
pub open spec fn simplex_reason(denominator: u32) -> Seq<char> {
    if denominator == 0 {
        "heating-mix simplex needs a nonzero step denominator"@
    } else {
        "heating-mix simplex denominator "@ + decimal(denominator as nat) + " exceeds the cap of "@ + decimal(
            MAX_SIMPLEX_DENOMINATOR as nat,
        ) + " (share step 1/"@ + decimal(MAX_SIMPLEX_DENOMINATOR as nat) + "): the lattice would hold "@
            + decimal(refused_lattice_size(denominator))
            + "+ points, each costing a full multi-year bisection solve — use a coarser --step"@
    }
}

/// The refusal text for a denominator above the cap.
fn above_cap_text(denominator: u32) -> (text: String)
    requires
        denominator != 0,
    ensures
        text@ == simplex_reason(denominator),
{
    let wide = denominator as u64;
    let size = match (wide + 1).checked_mul(wide + 2) {
        Some(product) => product / 2,
        None => u64::MAX / 2,
    };
    let mut text = String::from_str("heating-mix simplex denominator ");
    append_decimal(&mut text, wide);
    text.append(" exceeds the cap of ");
    append_decimal(&mut text, MAX_SIMPLEX_DENOMINATOR as u64);
    text.append(" (share step 1/");
    append_decimal(&mut text, MAX_SIMPLEX_DENOMINATOR as u64);
    text.append("): the lattice would hold ");
    append_decimal(&mut text, size);
    text.append("+ points, each costing a full multi-year bisection solve — use a coarser --step");
    text
}

/// Triangular numbers in closed form: `2·tri(k) = k·(k + 1)`.
pub proof fn lemma_tri_closed_form(k: nat)
    ensures
        2 * tri(k) == k * (k + 1),
    decreases k,
{
    if k > 0 {
        let j = (k - 1) as nat;
        lemma_tri_closed_form(j);
        assert(tri(k) == k + tri(j));
        assert(k * (k + 1) == j * (j + 1) + 2 * k) by (nonlinear_arith)
            requires
                j + 1 == k,
        ;
    } else {
        assert(k * (k + 1) == 0) by (nonlinear_arith)
            requires
                k == 0,
        ;
    }
}

/// Triangular numbers grow: `a ≤ b ⇒ tri(a) + a ≤ tri(b) + b`, and
/// `a < b ⇒ tri(a) + a < tri(b)`.
pub proof fn lemma_tri_monotone(a: nat, b: nat)
    requires
        a <= b,
    ensures
        tri(a) <= tri(b),
        a < b ==> tri(a) + a < tri(b),
    decreases b,
{
    if a < b {
        lemma_tri_monotone(a, (b - 1) as nat);
    }
}

/// The full simplex lattice at step `1/denominator`: every
/// `(ashp, gshp, district)` with numerators summing to `denominator`,
/// ordered ASHP-descending then GSHP-descending (the first point is
/// all-ASHP, the last all-district). A zero denominator, or one above
/// [`MAX_SIMPLEX_DENOMINATOR`], is refused.
pub fn simplex_mixes(denominator: u32) -> (r: Result<Vec<MixShares>, GridError>)
    ensures
        r is Ok <==> 0 < denominator <= MAX_SIMPLEX_DENOMINATOR,
        r matches Err(e) ==> scenario_refusal(e, simplex_reason(denominator)),
        r matches Ok(mixes) ==> {
            &&& mixes.len() == tri(denominator as nat + 1)
            &&& 2 * mixes.len() == (denominator + 1) * (denominator + 2)
            &&& mixes@[0]@ == (denominator, 0u32, 0u32, denominator)
            &&& mixes@[mixes.len() - 1]@ == (0u32, 0u32, denominator, denominator)
            &&& forall|i: int|
                0 <= i < mixes.len() ==> #[trigger] mixes@[i]@.3 == denominator && shares_valid(
                    mixes@[i]@.0,
                    mixes@[i]@.1,
                    mixes@[i]@.2,
                    mixes@[i]@.3,
                )
            &&& forall|step: nat, district: nat|
                district <= step <= denominator ==> #[trigger] mixes@[lattice_slot(step, district)]@ == (
                    (denominator - step) as u32,
                    (step - district) as u32,
                    district as u32,
                    denominator,
                )
            &&& forall|i: int, j: int|
                0 <= i < j < mixes.len() ==> lattice_precedes(#[trigger] mixes@[i]@, #[trigger] mixes@[j]@)
        },
{
    if denominator == 0 {
        return Err(
            GridError::InvalidScenario {
                reason: String::from_str("heating-mix simplex needs a nonzero step denominator"),
            },
        );
    }
    if denominator > MAX_SIMPLEX_DENOMINATOR {
        return Err(GridError::InvalidScenario { reason: above_cap_text(denominator) });
    }
    let n = denominator;
    let mut mixes: Vec<MixShares> = Vec::new();
    let mut step: u32 = 0;
    while step <= n
        invariant
            0 < n <= MAX_SIMPLEX_DENOMINATOR,
            step <= n + 1,
            mixes.len() == tri(step as nat),
            forall|i: int|
                0 <= i < mixes.len() ==> #[trigger] mixes@[i]@.3 == n && shares_valid(
                    mixes@[i]@.0,
                    mixes@[i]@.1,
                    mixes@[i]@.2,
                    mixes@[i]@.3,
                ),
            forall|i: int| 0 <= i < mixes.len() ==> #[trigger] mixes@[i]@.0 > n - step,
            forall|i: int, j: int|
                0 <= i < j < mixes.len() ==> lattice_precedes(#[trigger] mixes@[i]@, #[trigger] mixes@[j]@),
            forall|s: nat, k: nat|
                s < step && k <= s ==> #[trigger] mixes@[lattice_slot(s, k)]@ == ((n - s) as u32, (s - k) as u32, k as u32, n),
        decreases n + 1 - step,
    {
        let ashp = n - step;
        let mut k: u32 = 0;
        while k <= step
            invariant
                0 < n <= MAX_SIMPLEX_DENOMINATOR,
                step <= n,
                ashp == n - step,
                k <= step + 1,
                mixes.len() == tri(step as nat) + k,
                forall|i: int|
                    0 <= i < mixes.len() ==> #[trigger] mixes@[i]@.3 == n && shares_valid(
                        mixes@[i]@.0,
                        mixes@[i]@.1,
                        mixes@[i]@.2,
                        mixes@[i]@.3,
                    ),
                forall|i: int|
                    0 <= i < mixes.len() ==> #[trigger] mixes@[i]@.0 > ashp || (mixes@[i]@.0 == ashp
                        && mixes@[i]@.1 + k > step),
                forall|i: int, j: int|
                    0 <= i < j < mixes.len() ==> lattice_precedes(#[trigger] mixes@[i]@, #[trigger] mixes@[j]@),
                forall|s: nat, kk: nat|
                    s < step && kk <= s ==> #[trigger] mixes@[lattice_slot(s, kk)]@ == ((n - s) as u32, (s - kk) as u32, kk as u32, n),
                forall|kk: nat|
                    kk < k ==> #[trigger] mixes@[lattice_slot(step as nat, kk)]@ == (ashp, (step - kk) as u32, kk as u32, n),
            decreases step + 1 - k,
        {
            let gshp = step - k;
            let ghost before = mixes@;
            let mix = match MixShares::new(ashp, gshp, k, n) {
                Ok(mix) => mix,
                Err(e) => {
                    return Err(e);
                },
            };
            mixes.push(mix);
            proof {
                assert forall|s: nat, kk: nat| s < step && kk <= s implies #[trigger] mixes@[lattice_slot(
                    s,
                    kk,
                )]@ == ((n - s) as u32, (s - kk) as u32, kk as u32, n) by {
                    lemma_tri_monotone(s, step as nat);
                    assert(mixes@[lattice_slot(s, kk)] == before[lattice_slot(s, kk)]);
                }
                assert forall|kk: nat| kk < k + 1 implies #[trigger] mixes@[lattice_slot(
                    step as nat,
                    kk,
                )]@ == (ashp, (step - kk) as u32, kk as u32, n) by {
                    if kk < k {
                        assert(mixes@[lattice_slot(step as nat, kk)] == before[lattice_slot(
                            step as nat,
                            kk,
                        )]);
                    }
                }
            }
            k += 1;
        }
        proof {
            assert forall|s: nat, kk: nat| s < step + 1 && kk <= s implies #[trigger] mixes@[lattice_slot(
                s,
                kk,
            )]@ == ((n - s) as u32, (s - kk) as u32, kk as u32, n) by {
                if s == step {
                    assert(mixes@[lattice_slot(step as nat, kk)]@ == (ashp, (step - kk) as u32, kk as u32, n));
                }
            }
        }
        step += 1;
    }
    proof {
        lemma_tri_closed_form(n as nat + 1);
        assert(mixes@[lattice_slot(0, 0)]@ == (n, 0u32, 0u32, n));
        assert(mixes@[lattice_slot(n as nat, n as nat)]@ == (0u32, 0u32, n, n));
    }
    Ok(mixes)
}

/// Share points are exact: for a given denominator and ASHP and GSHP
/// numerators there is exactly one district numerator completing a share
/// point (the one that makes the three sum to the denominator), none
/// when ASHP and GSHP already exceed it, and a zero denominator admits
/// no share point at all.
pub proof fn lemma_share_points_are_exact(ashp: u32, gshp: u32, district: u32, other: u32, denominator: u32)
    ensures
        shares_valid(ashp, gshp, district, denominator) && shares_valid(ashp, gshp, other, denominator)
            ==> district == other,
        shares_valid(ashp, gshp, district, denominator) ==> ashp <= denominator && gshp <= denominator
            && district <= denominator,
        denominator > 0 && ashp as int + gshp as int <= denominator as int ==> shares_valid(
            ashp,
            gshp,
            (denominator - ashp - gshp) as u32,
            denominator,
        ),
        ashp as int + gshp as int > denominator as int ==> !shares_valid(ashp, gshp, district, denominator),
        !shares_valid(ashp, gshp, district, 0),
{
}

/// Raising one numerator of a share point, the others held, leaves the
/// simplex: no two distinct points share the other two numerators.
pub proof fn lemma_share_points_do_not_nest(ashp: u32, gshp: u32, district: u32, denominator: u32)
    requires
        shares_valid(ashp, gshp, district, denominator),
    ensures
        forall|more: u32| more > ashp ==> !shares_valid(more, gshp, district, denominator),
        forall|more: u32| more > gshp ==> !shares_valid(ashp, more, district, denominator),
        forall|more: u32| more > district ==> !shares_valid(ashp, gshp, more, denominator),
        forall|less: u32| less < district ==> !shares_valid(ashp, gshp, less, denominator),
{
}

} // verus!
