use spire_kernel::groups::{
    check_cpt, check_group_conservation, compute_n_ality, conjugate_n_ality, derive_hypercharge,
    nonabelian_gauge_invariance, validate_color_singlet, validate_conservation_laws,
    validate_poincare_invariance, GaugeGroup, GaugeRepresentation, GaugeSymmetry, GroupBalance,
    LieGroup, LieGroupRepresentation, PoincareRepresentation,
};
use spire_kernel::ontology::{
    BaryonNumber, ChargeConjugation, ColorRepresentation, ElectricCharge, Field, Hypercharge,
    InteractionType, LeptonNumbers, Parity, Particle, QuantumNumbers, QuantumState, ShellCondition,
    Spin, WeakIsospin, WeakMultiplet,
};

fn make_state(q: i8, b: i8, le: i8, lmu: i8, ltau: i8, t3: i8, y: i8) -> QuantumState {
    let field = Field {
        id: "test".into(),
        name: "Test".into(),
        symbol: "T".into(),
        mass_bits: 0.0f64.to_bits(),
        width_bits: 0.0f64.to_bits(),
        quantum_numbers: QuantumNumbers {
            electric_charge: ElectricCharge(q),
            weak_isospin: WeakIsospin(t3),
            hypercharge: Hypercharge(y),
            baryon_number: BaryonNumber(b),
            lepton_numbers: LeptonNumbers { electron: le, muon: lmu, tau: ltau },
            spin: Spin(1),
            parity: Parity::Even,
            charge_conjugation: ChargeConjugation::Undefined,
            color: ColorRepresentation::Singlet,
            weak_multiplet: WeakMultiplet::Singlet,
            representations: vec![],
        },
        interactions: vec![],
    };
    let particle = Particle {
        field,
        shell: ShellCondition::OnShell,
        helicity: None,
        chirality: None,
        is_anti: false,
    };
    QuantumState {
        particle,
        four_momentum_bits: [1.0f64.to_bits(), 0.0f64.to_bits(), 0.0f64.to_bits(), 0.0f64.to_bits()],
        normalization_bits: 2.0f64.to_bits(),
    }
}

fn rep(group: GaugeGroup, dimension: u8, label: &str) -> GaugeRepresentation {
    GaugeRepresentation { group, dimension, label: label.into() }
}

fn lrep(group: &LieGroup, dimension: u32, labels: Vec<u32>, conj: bool, label: &str) -> LieGroupRepresentation {
    LieGroupRepresentation {
        group: group.clone(),
        dimension,
        charge_bits: None,
        is_conjugate: conj,
        dynkin_labels: labels,
        label: label.into(),
    }
}

#[test]
fn gauge_group_clone() {
    let g = GaugeGroup::SU3C;
    let g2 = g.clone();
    assert!(format!("{:?}", g2).contains("SU3C"));
}

#[test]
fn hypercharge_electron() {
    assert_eq!(derive_hypercharge(-3, -1), -3);
}

#[test]
fn hypercharge_up_quark() {
    assert_eq!(derive_hypercharge(2, 1), 1);
}

#[test]
fn hypercharge_down_quark() {
    assert_eq!(derive_hypercharge(-1, -1), 1);
}

#[test]
fn hypercharge_neutrino() {
    assert_eq!(derive_hypercharge(0, 1), -3);
}

#[test]
fn conservation_valid_em_process() {
    let electron = make_state(-3, 0, 1, 0, 0, -1, -3);
    let positron = make_state(3, 0, -1, 0, 0, 1, 3);
    let photon1 = make_state(0, 0, 0, 0, 0, 0, 0);
    let photon2 = make_state(0, 0, 0, 0, 0, 0, 0);
    let result = validate_conservation_laws(&[electron, positron], &[photon1, photon2], InteractionType::Electromagnetic).unwrap();
    assert!(result.is_valid, "e+e- -> γγ should be valid: {:?}", result.violations);
}

#[test]
fn conservation_charge_violated() {
    let electron = make_state(-3, 0, 1, 0, 0, -1, -3);
    let photon = make_state(0, 0, 0, 0, 0, 0, 0);
    let result = validate_conservation_laws(&[electron], &[photon], InteractionType::Electromagnetic).unwrap();
    assert!(!result.is_valid);
    assert!(result.violations.iter().any(|v| v.contains("Electric charge")));
}

#[test]
fn conservation_lepton_number_violated() {
    let electron = make_state(-3, 0, 1, 0, 0, -1, -3);
    let muon = make_state(-3, 0, 0, 1, 0, -1, -3);
    let result = validate_conservation_laws(&[electron], &[muon], InteractionType::Electromagnetic).unwrap();
    assert!(!result.is_valid);
    assert!(result.violations.iter().any(|v| v.contains("Electron lepton")));
    assert!(result.violations.iter().any(|v| v.contains("Muon lepton")));
}

#[test]
fn conservation_weak_cc_ignores_t3() {
    let nu_e = make_state(0, 0, 1, 0, 0, 1, -3);
    let d = make_state(-1, 1, 0, 0, 0, -1, 1);
    let e = make_state(-3, 0, 1, 0, 0, -1, -3);
    let u = make_state(2, 1, 0, 0, 0, 1, 1);
    let result = validate_conservation_laws(&[nu_e, d], &[e, u], InteractionType::WeakCC).unwrap();
    assert!(result.is_valid, "nu_e d -> e- u should be valid in CC: {:?}", result.violations);
}

#[test]
fn conservation_is_symmetric_under_exchange() {
    // Swapping initial and final states gives the same verdict.
    let electron = make_state(-3, 0, 1, 0, 0, -1, -3);
    let photon = make_state(0, 0, 0, 0, 0, 0, 0);
    let forward = validate_conservation_laws(&[electron.clone()], &[photon.clone()], InteractionType::Electromagnetic).unwrap();
    let backward = validate_conservation_laws(&[photon], &[electron], InteractionType::Electromagnetic).unwrap();
    assert_eq!(forward.is_valid, backward.is_valid);
    assert!(!forward.is_valid);
}

#[test]
fn cpt_em_all_conserved() {
    let result = check_cpt(&[], &[], InteractionType::Electromagnetic).unwrap();
    assert_eq!(result.c_parity_conserved, Some(true));
    assert_eq!(result.p_parity_conserved, Some(true));
    assert_eq!(result.t_symmetry_conserved, Some(true));
}

#[test]
fn cpt_weak_violates_p_and_c() {
    let result = check_cpt(&[], &[], InteractionType::WeakCC).unwrap();
    assert_eq!(result.p_parity_conserved, Some(false));
    assert_eq!(result.c_parity_conserved, Some(false));
    assert!(!result.diagnostics.is_empty());
}

#[test]
fn color_singlet_leptons() {
    let reps = vec![rep(GaugeGroup::SU3C, 1, "1"), rep(GaugeGroup::SU3C, 1, "1")];
    assert!(validate_color_singlet(&reps).unwrap());
}

#[test]
fn color_singlet_quark_antiquark() {
    let reps = vec![rep(GaugeGroup::SU3C, 3, "3"), rep(GaugeGroup::SU3C, 3, "3bar")];
    assert!(validate_color_singlet(&reps).unwrap());
}

#[test]
fn color_singlet_three_quarks() {
    let reps = vec![rep(GaugeGroup::SU3C, 3, "3"), rep(GaugeGroup::SU3C, 3, "3"), rep(GaugeGroup::SU3C, 3, "3")];
    assert!(validate_color_singlet(&reps).unwrap());
}

#[test]
fn color_non_singlet_two_quarks() {
    let reps = vec![rep(GaugeGroup::SU3C, 3, "3"), rep(GaugeGroup::SU3C, 3, "3")];
    assert!(!validate_color_singlet(&reps).unwrap());
}

#[test]
fn color_singlet_gluon_pair() {
    let reps = vec![rep(GaugeGroup::SU3C, 8, "8"), rep(GaugeGroup::SU3C, 8, "8")];
    assert!(validate_color_singlet(&reps).unwrap());
}

#[test]
fn color_singlet_macron_marks_antitriplet() {
    let reps = vec![rep(GaugeGroup::SU3C, 3, "3"), rep(GaugeGroup::SU3C, 3, "3\u{0304}")];
    assert!(validate_color_singlet(&reps).unwrap());
}

#[test]
fn poincare_ffv_vertex() {
    let reps = vec![
        PoincareRepresentation { mass_bits: 0.000511f64.to_bits(), twice_spin: 1, is_massless: false },
        PoincareRepresentation { mass_bits: 0.000511f64.to_bits(), twice_spin: 1, is_massless: false },
        PoincareRepresentation { mass_bits: 0.0f64.to_bits(), twice_spin: 2, is_massless: true },
    ];
    assert!(validate_poincare_invariance(&reps).unwrap());
}

#[test]
fn poincare_ffs_vertex() {
    let reps = vec![
        PoincareRepresentation { mass_bits: 0.000511f64.to_bits(), twice_spin: 1, is_massless: false },
        PoincareRepresentation { mass_bits: 0.000511f64.to_bits(), twice_spin: 1, is_massless: false },
        PoincareRepresentation { mass_bits: 125.0f64.to_bits(), twice_spin: 0, is_massless: false },
    ];
    assert!(validate_poincare_invariance(&reps).unwrap());
}

#[test]
fn poincare_single_massive_vector_not_scalar() {
    let reps = vec![PoincareRepresentation { mass_bits: 91.2f64.to_bits(), twice_spin: 2, is_massless: false }];
    assert!(!validate_poincare_invariance(&reps).unwrap());
}

#[test]
fn lie_group_u1_rank() {
    let g = LieGroup::U1 { label: "Y".into() };
    assert_eq!(g.rank(), 1);
    assert_eq!(g.adjoint_dimension(), 1);
    assert_eq!(g.display_name(), "U(1)_Y");
}

#[test]
fn lie_group_su2_rank() {
    let g = LieGroup::SU { n: 2, label: "L".into() };
    assert_eq!(g.rank(), 1);
    assert_eq!(g.adjoint_dimension(), 3);
    assert_eq!(g.display_name(), "SU(2)_L");
}

#[test]
fn lie_group_su3_rank() {
    let g = LieGroup::SU { n: 3, label: "C".into() };
    assert_eq!(g.rank(), 2);
    assert_eq!(g.adjoint_dimension(), 8);
}

#[test]
fn lie_group_su5_rank() {
    let g = LieGroup::SU { n: 5, label: "GUT".into() };
    assert_eq!(g.rank(), 4);
    assert_eq!(g.adjoint_dimension(), 24);
}

#[test]
fn lie_group_so10_rank() {
    let g = LieGroup::SO { n: 10, label: "GUT".into() };
    assert_eq!(g.rank(), 5);
    assert_eq!(g.adjoint_dimension(), 45);
}

#[test]
fn lie_group_display_trait() {
    let g = LieGroup::SU { n: 3, label: "C".into() };
    assert_eq!(g.display_name(), "SU(3)_C");
}

#[test]
fn lie_group_equality_compares_family_size_and_label() {
    assert!(LieGroup::SU { n: 3, label: "C".into() } == LieGroup::SU { n: 3, label: "C".into() });
    assert!(LieGroup::SU { n: 3, label: "C".into() } != LieGroup::SU { n: 2, label: "C".into() });
    assert!(LieGroup::SU { n: 3, label: "C".into() } != LieGroup::SO { n: 3, label: "C".into() });
    assert!(LieGroup::U1 { label: "Y".into() } != LieGroup::U1 { label: "EM".into() });
}

#[test]
fn su3_triality_fundamental() {
    assert_eq!(compute_n_ality(3, &[1, 0]), 1);
}

#[test]
fn su3_triality_antifundamental() {
    assert_eq!(compute_n_ality(3, &[0, 1]), 2);
}

#[test]
fn su3_triality_octet() {
    assert_eq!(compute_n_ality(3, &[1, 1]), 0);
}

#[test]
fn su3_triality_singlet() {
    assert_eq!(compute_n_ality(3, &[0, 0]), 0);
}

#[test]
fn su2_duality_doublet() {
    assert_eq!(compute_n_ality(2, &[1]), 1);
}

#[test]
fn su2_duality_triplet() {
    assert_eq!(compute_n_ality(2, &[2]), 0);
}

#[test]
fn su5_five_ality_fundamental() {
    assert_eq!(compute_n_ality(5, &[1, 0, 0, 0]), 1);
}

#[test]
fn su5_five_ality_antifundamental() {
    assert_eq!(compute_n_ality(5, &[0, 0, 0, 1]), 4);
}

#[test]
fn su5_five_ality_10() {
    assert_eq!(compute_n_ality(5, &[0, 1, 0, 0]), 2);
}

#[test]
fn su5_five_ality_adjoint() {
    assert_eq!(compute_n_ality(5, &[1, 0, 0, 1]), 0);
}

#[test]
fn conjugate_n_ality_su3() {
    assert_eq!(conjugate_n_ality(3, 1), 2);
    assert_eq!(conjugate_n_ality(3, 2), 1);
    assert_eq!(conjugate_n_ality(3, 0), 0);
}

#[test]
fn conjugate_n_ality_su5() {
    assert_eq!(conjugate_n_ality(5, 1), 4);
    assert_eq!(conjugate_n_ality(5, 2), 3);
}

#[test]
fn conjugate_n_ality_is_n_ality_of_reversed_labels() {
    // [1, 0, 0, 0] reversed is [0, 0, 0, 1]: the conjugate representation.
    assert_eq!(conjugate_n_ality(5, compute_n_ality(5, &[1, 0, 0, 0])), compute_n_ality(5, &[0, 0, 0, 1]));
    assert_eq!(conjugate_n_ality(3, compute_n_ality(3, &[2, 1])), compute_n_ality(3, &[1, 2]));
    // Conjugating twice gives back the N-ality.
    assert_eq!(conjugate_n_ality(5, conjugate_n_ality(5, 3)), 3);
}

#[test]
fn gauge_symmetry_standard_model() {
    let sm = GaugeSymmetry::standard_model();
    assert_eq!(sm.groups.len(), 3);
    assert!(matches!(sm.groups[0], LieGroup::SU { n: 3, .. }));
    assert!(matches!(sm.groups[1], LieGroup::SU { n: 2, .. }));
    assert!(matches!(sm.groups[2], LieGroup::U1 { .. }));
    assert!(sm.label.contains("SU(3)"));
}

#[test]
fn gauge_symmetry_su5_gut() {
    let su5 = GaugeSymmetry::su5_gut();
    assert_eq!(su5.groups.len(), 1);
    assert!(matches!(su5.groups[0], LieGroup::SU { n: 5, .. }));
}

#[test]
fn gauge_symmetry_so10_gut() {
    let so10 = GaugeSymmetry::so10_gut();
    assert_eq!(so10.groups.len(), 1);
    assert!(matches!(so10.groups[0], LieGroup::SO { n: 10, .. }));
}

#[test]
fn gauge_symmetry_dark_u1() {
    let dark = GaugeSymmetry::dark_u1();
    assert_eq!(dark.groups.len(), 1);
    assert!(matches!(dark.groups[0], LieGroup::U1 { .. }));
}

#[test]
fn su3_singlet_vertex_valid() {
    let su3 = LieGroup::SU { n: 3, label: "C".into() };
    let reps = vec![lrep(&su3, 3, vec![1, 0], false, "3"), lrep(&su3, 3, vec![0, 1], true, "3̄")];
    assert_eq!(nonabelian_gauge_invariance(&su3, &reps), Some(true));
}

#[test]
fn su3_non_singlet_vertex_invalid() {
    let su3 = LieGroup::SU { n: 3, label: "C".into() };
    let reps = vec![lrep(&su3, 3, vec![1, 0], false, "3"), lrep(&su3, 3, vec![1, 0], false, "3")];
    assert_eq!(nonabelian_gauge_invariance(&su3, &reps), Some(false));
}

#[test]
fn su3_three_quarks_valid_baryon() {
    let su3 = LieGroup::SU { n: 3, label: "C".into() };
    let reps = vec![
        lrep(&su3, 3, vec![1, 0], false, "3"),
        lrep(&su3, 3, vec![1, 0], false, "3"),
        lrep(&su3, 3, vec![1, 0], false, "3"),
    ];
    assert_eq!(nonabelian_gauge_invariance(&su3, &reps), Some(true));
}

#[test]
fn su5_5_and_5bar_valid() {
    let su5 = LieGroup::SU { n: 5, label: "GUT".into() };
    let reps = vec![lrep(&su5, 5, vec![1, 0, 0, 0], false, "5"), lrep(&su5, 5, vec![0, 0, 0, 1], true, "5̄")];
    assert_eq!(nonabelian_gauge_invariance(&su5, &reps), Some(true));
}

#[test]
fn su5_10_and_5bar_and_5bar_valid() {
    let su5 = LieGroup::SU { n: 5, label: "GUT".into() };
    let reps = vec![
        lrep(&su5, 10, vec![0, 1, 0, 0], false, "10"),
        lrep(&su5, 5, vec![0, 0, 0, 1], true, "5̄"),
        lrep(&su5, 5, vec![0, 0, 0, 1], true, "5̄"),
    ];
    assert_eq!(nonabelian_gauge_invariance(&su5, &reps), Some(true));
}

#[test]
fn so10_even_spinors_valid() {
    let so10 = LieGroup::SO { n: 10, label: "GUT".into() };
    let reps = vec![lrep(&so10, 16, vec![], false, "16"), lrep(&so10, 16, vec![], false, "16")];
    assert_eq!(nonabelian_gauge_invariance(&so10, &reps), Some(true));
}

#[test]
fn so10_odd_spinor_invalid() {
    let so10 = LieGroup::SO { n: 10, label: "GUT".into() };
    let reps = vec![lrep(&so10, 16, vec![], false, "16")];
    assert_eq!(nonabelian_gauge_invariance(&so10, &reps), Some(false));
}

#[test]
fn empty_representations_trivially_valid() {
    let su3 = LieGroup::SU { n: 3, label: "C".into() };
    assert_eq!(nonabelian_gauge_invariance(&su3, &[]), Some(true));
}

#[test]
fn u1_invariance_is_left_to_real_charges() {
    let u1 = LieGroup::U1 { label: "EM".into() };
    let mut r = lrep(&u1, 1, vec![], false, "-1");
    r.charge_bits = Some((-1.0f64).to_bits());
    assert_eq!(nonabelian_gauge_invariance(&u1, &[r]), None);
}

#[test]
fn group_conservation_su3_balance() {
    let su3 = LieGroup::SU { n: 3, label: "C".into() };
    let initial = vec![lrep(&su3, 3, vec![1, 0], false, "3"), lrep(&su3, 3, vec![0, 1], true, "3̄")];
    let final_ok = vec![lrep(&su3, 1, vec![0, 0], false, "1")];
    assert!(matches!(check_group_conservation(&su3, &initial, &final_ok), GroupBalance::Conserved));
    let final_bad = vec![lrep(&su3, 3, vec![1, 0], false, "3")];
    match check_group_conservation(&su3, &initial, &final_bad) {
        GroupBalance::Violated(m) => assert_eq!(m, "SU(3)_C 3-ality violated: initial=0, final=1"),
        other => panic!("expected a violation, got {:?}", other),
    }
}

#[test]
fn group_conservation_so10_spinor_parity() {
    let so10 = LieGroup::SO { n: 10, label: "GUT".into() };
    let initial = vec![lrep(&so10, 16, vec![], false, "16")];
    match check_group_conservation(&so10, &initial, &[]) {
        GroupBalance::Violated(m) => {
            assert_eq!(m, "SO(10)_GUT spinorial parity violated: initial spinors=1, final spinors=0")
        }
        other => panic!("expected a violation, got {:?}", other),
    }
    let u1 = LieGroup::U1 { label: "Y".into() };
    assert!(matches!(check_group_conservation(&u1, &[], &[]), GroupBalance::AbelianCharges));
}
