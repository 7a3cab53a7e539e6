use spire_kernel::ontology::{
    apply_chirality_projection, assign_helicity, conjugate_state, initialize_state_normalized,
    particle_from_field, BaryonNumber, ChargeConjugation, Chirality, ColorRepresentation,
    ElectricCharge, Field, Helicity, Hypercharge, InteractionType, LeptonNumbers, Parity,
    QuantumNumbers, QuantumState, ShellCondition, Spin, WeakIsospin, WeakMultiplet,
};
use spire_kernel::SpireError;

fn field(id: &str, mass: f64, width: f64, q: i8, t3: i8, y: i8, le: i8, twice_spin: u8, parity: Parity, c: ChargeConjugation, wm: WeakMultiplet) -> Field {
    Field {
        id: id.into(),
        name: id.into(),
        symbol: id.into(),
        mass_bits: mass.to_bits(),
        width_bits: width.to_bits(),
        quantum_numbers: QuantumNumbers {
            electric_charge: ElectricCharge(q),
            weak_isospin: WeakIsospin(t3),
            hypercharge: Hypercharge(y),
            baryon_number: BaryonNumber(0),
            lepton_numbers: LeptonNumbers { electron: le, muon: 0, tau: 0 },
            spin: Spin(twice_spin),
            parity,
            charge_conjugation: c,
            color: ColorRepresentation::Singlet,
            weak_multiplet: wm,
            representations: vec![],
        },
        interactions: vec![InteractionType::Electromagnetic],
    }
}

fn make_electron() -> Field {
    field("e-", 0.000511, 0.0, -3, -1, -3, 1, 1, Parity::Even, ChargeConjugation::Undefined, WeakMultiplet::DoubletDown)
}

fn make_photon() -> Field {
    field("photon", 0.0, 0.0, 0, 0, 0, 0, 2, Parity::Odd, ChargeConjugation::Odd, WeakMultiplet::Singlet)
}

fn make_scalar() -> Field {
    field("h", 125.0, 0.004, 0, 1, 3, 0, 0, Parity::Even, ChargeConjugation::Even, WeakMultiplet::DoubletUp)
}

/// A state with the covariant normalisation 2E.
fn init(f: &Field, mom: [f64; 4], h: Option<Helicity>) -> Result<QuantumState, SpireError> {
    let bits = [mom[0].to_bits(), mom[1].to_bits(), mom[2].to_bits(), mom[3].to_bits()];
    initialize_state_normalized(f, bits, (2.0 * mom[0]).to_bits(), h)
}

#[test]
fn chirality_variants() {
    assert_ne!(Chirality::Left, Chirality::Right);
}

#[test]
fn particle_from_field_defaults() {
    let electron = make_electron();
    let p = particle_from_field(electron.clone());
    assert_eq!(p.field.id, "e-");
    assert_eq!(p.shell, ShellCondition::OnShell);
    assert!(p.helicity.is_none());
    assert!(p.chirality.is_none());
    assert!(!p.is_anti);
}

#[test]
fn initialize_state_electron() {
    let electron = make_electron();
    let mom = [0.5, 0.0, 0.0, 0.5];
    let state = init(&electron, mom, Some(Helicity::Minus)).unwrap();
    assert_eq!(state.particle.field.id, "e-");
    assert_eq!(state.particle.helicity, Some(Helicity::Minus));
    assert_eq!(state.four_momentum_bits[0], 0.5f64.to_bits());
    assert!((f64::from_bits(state.normalization_bits) - 1.0).abs() < 1e-12);
}

#[test]
fn initialize_state_scalar_no_helicity() {
    let higgs = make_scalar();
    let state = init(&higgs, [125.0, 0.0, 0.0, 0.0], None).unwrap();
    assert!(state.particle.helicity.is_none());
}

#[test]
fn initialize_state_scalar_rejects_helicity() {
    let higgs = make_scalar();
    let result = init(&higgs, [125.0, 0.0, 0.0, 0.0], Some(Helicity::Plus));
    match result {
        Err(SpireError::InternalError(m)) => assert_eq!(m, "Cannot assign helicity Plus to spin-0 field 'h'"),
        other => panic!("expected an error, got {:?}", other.is_ok()),
    }
}

#[test]
fn conjugate_electron_to_positron() {
    let electron = make_electron();
    let mom = [0.5, 0.0, 0.0, 0.5];
    let e_state = init(&electron, mom, Some(Helicity::Minus)).unwrap();
    let positron = conjugate_state(&e_state).unwrap();
    let qn = &positron.particle.field.quantum_numbers;
    assert_eq!(qn.electric_charge, ElectricCharge(3));
    assert_eq!(qn.weak_isospin, WeakIsospin(1));
    assert_eq!(qn.hypercharge, Hypercharge(3));
    assert_eq!(qn.baryon_number, BaryonNumber(0));
    assert_eq!(qn.lepton_numbers.electron, -1);
    assert_eq!(qn.spin, Spin(1));
    assert!(positron.particle.is_anti);
    assert_eq!(positron.four_momentum_bits, e_state.four_momentum_bits);
}

#[test]
fn double_conjugation_restores_original() {
    let electron = make_electron();
    let e_state = init(&electron, [1.0, 0.0, 0.0, 1.0], None).unwrap();
    let positron = conjugate_state(&e_state).unwrap();
    let restored = conjugate_state(&positron).unwrap();
    let orig_qn = &e_state.particle.field.quantum_numbers;
    let rest_qn = &restored.particle.field.quantum_numbers;
    assert_eq!(orig_qn.electric_charge, rest_qn.electric_charge);
    assert_eq!(orig_qn.baryon_number, rest_qn.baryon_number);
    assert_eq!(orig_qn.lepton_numbers, rest_qn.lepton_numbers);
    assert_eq!(orig_qn.hypercharge, rest_qn.hypercharge);
    assert!(!restored.particle.is_anti);
}

#[test]
fn chirality_projection_on_electron() {
    let electron = make_electron();
    let mut state = init(&electron, [0.5, 0.0, 0.0, 0.5], None).unwrap();
    apply_chirality_projection(&mut state, Chirality::Left).unwrap();
    assert_eq!(state.particle.chirality, Some(Chirality::Left));
}

#[test]
fn chirality_projection_on_photon_fails() {
    let photon = make_photon();
    let mut state = init(&photon, [1.0, 0.0, 0.0, 1.0], None).unwrap();
    let result = apply_chirality_projection(&mut state, Chirality::Left);
    match result {
        Err(SpireError::InternalError(m)) => {
            assert_eq!(m, "Chirality projection requires spin-1/2 (2s=1), but field 'photon' has 2s=2.")
        }
        _ => panic!("expected an error"),
    }
}

#[test]
fn assign_helicity_to_photon() {
    let photon = make_photon();
    let mut state = init(&photon, [1.0, 0.0, 0.0, 1.0], None).unwrap();
    assign_helicity(&mut state, Helicity::Plus).unwrap();
    assert_eq!(state.particle.helicity, Some(Helicity::Plus));
}

#[test]
fn assign_helicity_to_scalar_fails() {
    let higgs = make_scalar();
    let mut state = init(&higgs, [125.0, 0.0, 0.0, 0.0], None).unwrap();
    let result = assign_helicity(&mut state, Helicity::Plus);
    assert!(result.is_err());
}
