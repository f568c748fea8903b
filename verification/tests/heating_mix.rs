use grid_adequacy::{GridError, MAX_SIMPLEX_DENOMINATOR, MixShares, simplex_mixes};

fn share(numerator: u32, mix: &MixShares) -> f64 {
    f64::from(numerator) / f64::from(mix.denominator())
}

#[test]
fn simplex_lattice_has_the_triangular_count_and_exact_sums() {
    let mixes = simplex_mixes(10).unwrap();
    assert_eq!(mixes.len(), 66, "step 0.1 gives the 66-point simplex");
    assert_eq!(mixes[0], MixShares::new(10, 0, 0, 10).unwrap());
    assert_eq!(mixes[65], MixShares::new(0, 0, 10, 10).unwrap());
    for mix in &mixes {
        let sum = share(mix.ashp(), mix) + share(mix.gshp(), mix) + share(mix.district(), mix);
        assert!(
            (sum - 1.0).abs() <= 1e-9,
            "{}/{}/{}: sum {sum}",
            mix.ashp(),
            mix.gshp(),
            mix.district()
        );
    }
    let mut seen = mixes.clone();
    seen.dedup();
    assert_eq!(seen.len(), 66);
}

#[test]
fn lattice_shares_reproduce_the_literal_decimals_bit_for_bit() {
    let mix = MixShares::new(7, 2, 1, 10).unwrap();
    assert_eq!(share(mix.ashp(), &mix), 0.70);
    assert_eq!(share(mix.gshp(), &mix), 0.20);
    assert_eq!(share(mix.district(), &mix), 0.10);
}

#[test]
fn mix_shares_reject_bad_numerators_and_zero_denominator() {
    assert!(matches!(
        MixShares::new(5, 5, 5, 10).unwrap_err(),
        GridError::InvalidScenario { .. }
    ));
    assert!(matches!(
        MixShares::new(0, 0, 0, 0).unwrap_err(),
        GridError::InvalidScenario { .. }
    ));
    assert!(matches!(
        simplex_mixes(0).unwrap_err(),
        GridError::InvalidScenario { .. }
    ));
}

#[test]
fn overflow_scale_inputs_are_structured_errors_not_panics() {
    assert!(matches!(
        MixShares::new(u32::MAX, u32::MAX, u32::MAX, 1).unwrap_err(),
        GridError::InvalidScenario { .. }
    ));
    assert!(matches!(
        MixShares::new(u32::MAX, 1, 0, 0).unwrap_err(),
        GridError::InvalidScenario { .. }
    ));
    for denominator in [u32::MAX, 1_000_000_000, MAX_SIMPLEX_DENOMINATOR + 1] {
        let err = simplex_mixes(denominator).unwrap_err();
        assert!(
            matches!(
                &err,
                GridError::InvalidScenario { reason } if reason.contains(&MAX_SIMPLEX_DENOMINATOR.to_string())
            ),
            "denominator {denominator}: expected the cap in the error, got: {err:?}"
        );
    }
    assert!(simplex_mixes(MAX_SIMPLEX_DENOMINATOR).is_ok());
}

#[test]
fn simplex_step_one_is_the_three_corners() {
    let mixes = simplex_mixes(1).unwrap();
    assert_eq!(
        mixes,
        vec![
            MixShares::new(1, 0, 0, 1).unwrap(),
            MixShares::new(0, 1, 0, 1).unwrap(),
            MixShares::new(0, 0, 1, 1).unwrap(),
        ]
    );
}

#[test]
fn mix_errors_name_the_rejected_numerators() {
    assert_eq!(
        MixShares::new(5, 5, 5, 10).unwrap_err(),
        GridError::InvalidScenario {
            reason: "heating-mix shares 5/5/5 over 10 do not sum to the denominator — the simplex constraint is exact by construction"
                .to_string()
        }
    );
    assert_eq!(
        MixShares::new(0, 0, 0, 0).unwrap_err(),
        GridError::InvalidScenario { reason: "heating-mix shares need a nonzero denominator".to_string() }
    );
    assert_eq!(
        simplex_mixes(1001).unwrap_err(),
        GridError::InvalidScenario {
            reason: "heating-mix simplex denominator 1001 exceeds the cap of 1000 (share step 1/1000): the lattice would hold 502503+ points, each costing a full multi-year bisection solve — use a coarser --step"
                .to_string()
        }
    );
}

#[test]
fn mix_accessors_return_the_numerators() {
    let mix = MixShares::new(3, 4, 5, 12).unwrap();
    assert_eq!((mix.ashp(), mix.gshp(), mix.district(), mix.denominator()), (3, 4, 5, 12));
}

#[test]
fn simplex_lattice_is_complete_and_ordered() {
    for n in [2u32, 3, 7] {
        let mixes = simplex_mixes(n).unwrap();
        let count = ((n + 1) * (n + 2) / 2) as usize;
        assert_eq!(mixes.len(), count);
        for pair in mixes.windows(2) {
            let (a, b) = (pair[0], pair[1]);
            assert!(a.ashp() > b.ashp() || (a.ashp() == b.ashp() && a.gshp() > b.gshp()));
        }
        for ashp in 0..=n {
            for gshp in 0..=(n - ashp) {
                let point = MixShares::new(ashp, gshp, n - ashp - gshp, n).unwrap();
                assert!(mixes.contains(&point));
            }
        }
    }
}

#[test]
fn the_refused_lattice_size_saturates() {
    let err = simplex_mixes(u32::MAX).unwrap_err();
    let expected = format!("the lattice would hold {}+ points", u64::MAX / 2);
    assert!(matches!(&err, GridError::InvalidScenario { reason } if reason.contains(&expected)), "{err:?}");
    assert_eq!(
        simplex_mixes(0).unwrap_err(),
        GridError::InvalidScenario { reason: "heating-mix simplex needs a nonzero step denominator".to_string() }
    );
}
