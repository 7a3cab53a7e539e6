use spire_kernel::lagrangian::{
    derive_vertex_factor, derive_vertex_rules, lookup_propagator, lookup_vertex, propagator_form_for,
    ufo_antiname, ufo_color_code, ufo_pdg_code, ufo_variable_name, LagrangianTerm, LagrangianTermKind,
    Propagator, PropagatorForm, TheoreticalModel, VertexFactor,
};
use spire_kernel::ontology::{
    BaryonNumber, ChargeConjugation, ColorRepresentation, ElectricCharge, Field, Hypercharge,
    InteractionType, LeptonNumbers, Parity, QuantumNumbers, Spin, WeakIsospin, WeakMultiplet,
};
use spire_kernel::SpireError;

fn field(id: &str, mass: f64, width: f64, q: i8, twice_spin: u8, color: ColorRepresentation) -> Field {
    Field {
        id: id.into(),
        name: id.into(),
        symbol: id.into(),
        mass_bits: mass.to_bits(),
        width_bits: width.to_bits(),
        quantum_numbers: QuantumNumbers {
            electric_charge: ElectricCharge(q),
            weak_isospin: WeakIsospin(0),
            hypercharge: Hypercharge(0),
            baryon_number: BaryonNumber(0),
            lepton_numbers: LeptonNumbers { electron: 0, muon: 0, tau: 0 },
            spin: Spin(twice_spin),
            parity: Parity::Even,
            charge_conjugation: ChargeConjugation::Undefined,
            color,
            weak_multiplet: WeakMultiplet::Singlet,
            representations: vec![],
        },
        interactions: vec![InteractionType::Electromagnetic],
    }
}

fn electron_field() -> Field {
    field("e-", 0.000511, 0.0, -3, 1, ColorRepresentation::Singlet)
}
fn photon_field() -> Field {
    field("photon", 0.0, 0.0, 0, 2, ColorRepresentation::Singlet)
}
fn z_boson_field() -> Field {
    field("Z0", 91.1876, 2.4952, 0, 2, ColorRepresentation::Singlet)
}
fn higgs_field() -> Field {
    field("H", 125.1, 0.00407, 0, 0, ColorRepresentation::Singlet)
}

fn term(id: &str, symbol: &str, ids: &[&str], lorentz: &str, kind: LagrangianTermKind) -> LagrangianTerm {
    LagrangianTerm {
        id: id.into(),
        description: id.into(),
        coupling_symbol: symbol.into(),
        coupling_value_bits: Some(1.0f64.to_bits()),
        field_ids: ids.iter().map(|s| s.to_string()).collect(),
        lorentz_structure: lorentz.into(),
        interaction_type: InteractionType::Electromagnetic,
        term_kind: kind,
        operator_dimension: None,
    }
}

fn propagator(f: &Field) -> Propagator {
    let massless = f64::from_bits(f.mass_bits).abs() < 1e-10;
    Propagator {
        field_id: f.id.clone(),
        spin: f.quantum_numbers.spin,
        mass_bits: f.mass_bits,
        width_bits: f.width_bits,
        expression: String::new(),
        gauge_parameter_bits: None,
        form: propagator_form_for(f.quantum_numbers.spin.0, massless).unwrap(),
    }
}

fn make_test_model() -> TheoreticalModel {
    let fields = vec![electron_field(), photon_field(), z_boson_field(), higgs_field()];
    let terms = vec![term("qed_eea", "e", &["e-", "photon", "e-"], "gamma_mu", LagrangianTermKind::Interaction)];
    let propagators = fields.iter().map(propagator).collect();
    let vertex_factors: Vec<VertexFactor> = terms.iter().map(|t| derive_vertex_factor(t).unwrap()).collect();
    TheoreticalModel {
        name: "Test Model".into(),
        description: "Minimal QED for unit tests".into(),
        fields,
        terms,
        vertex_factors,
        propagators,
        gauge_symmetry: None,
    }
}

#[test]
fn term_kind_variants() {
    assert_ne!(LagrangianTermKind::Kinetic, LagrangianTermKind::Interaction);
}

#[test]
fn vertex_factor_qed() {
    let t = term("qed_eea", "e", &["e-", "photon", "e-"], "gamma_mu", LagrangianTermKind::Interaction);
    let vf = derive_vertex_factor(&t).unwrap();
    assert_eq!(vf.n_legs, 3);
    assert!(vf.expression.contains("e"));
    assert!(vf.expression.contains("γ^μ"));
    assert_eq!(vf.expression, "-i e γ^μ");
    assert_eq!(vf.term_id, "qed_eea");
}

#[test]
fn vertex_factor_scalar_coupling() {
    let t = term("yuk", "y_e", &["e-", "e-", "H"], "scalar", LagrangianTermKind::Interaction);
    let vf = derive_vertex_factor(&t).unwrap();
    assert!(vf.expression.contains("y_e"));
    assert!(!vf.expression.contains("γ"));
}

#[test]
fn vertex_factor_unknown_structure_is_quoted() {
    let t = term("odd", "g", &["a", "b", "c"], "weird", LagrangianTermKind::Interaction);
    assert_eq!(derive_vertex_factor(&t).unwrap().expression, "-i g [weird]");
}

#[test]
fn vertex_factor_contact_vma() {
    let t = term("eft_4f", "C_LL", &["e-", "e-", "mu-", "mu-"], "contact_VmA", LagrangianTermKind::ContactInteraction);
    let vf = derive_vertex_factor(&t).unwrap();
    assert_eq!(vf.n_legs, 4);
    assert!(vf.expression.contains("C_LL"));
    assert!(vf.expression.contains("Λ²"));
    assert!(vf.expression.contains("P_L"));
}

#[test]
fn vertex_factor_contact_4f_generic() {
    let t = term("eft_generic", "G_F", &["e-", "e-", "e-", "e-"], "contact_4f", LagrangianTermKind::ContactInteraction);
    let vf = derive_vertex_factor(&t).unwrap();
    assert_eq!(vf.n_legs, 4);
    assert!(vf.expression.contains("G_F"));
    assert!(vf.expression.contains("Λ²"));
}

#[test]
fn derive_vertex_rules_for_model() {
    let model = make_test_model();
    let rules = derive_vertex_rules(&model).unwrap();
    assert_eq!(rules.len(), 1);
}

#[test]
fn contact_interaction_included_in_derive_vertex_rules() {
    let mut model = make_test_model();
    model.terms.push(term("eft_contact", "C", &["e-", "e-", "e-", "e-"], "contact_4f", LagrangianTermKind::ContactInteraction));
    model.terms.push(term("kin", "k", &["e-"], "scalar", LagrangianTermKind::Kinetic));
    model.vertex_factors = vec![];
    let rules = derive_vertex_rules(&model).unwrap();
    assert_eq!(rules.len(), 2, "Both Interaction and ContactInteraction should produce vertex rules");
    assert_eq!(rules[1].term_id, "eft_contact");
}

#[test]
fn lookup_vertex_found() {
    let model = make_test_model();
    let vf = lookup_vertex(&model, &["e-", "photon", "e-"]).unwrap();
    assert_eq!(vf.term_id, "qed_eea");
}

#[test]
fn lookup_vertex_order_independent() {
    let model = make_test_model();
    let vf = lookup_vertex(&model, &["photon", "e-", "e-"]).unwrap();
    assert_eq!(vf.term_id, "qed_eea");
    let vf2 = lookup_vertex(&model, &["e-", "e-", "photon"]).unwrap();
    assert_eq!(vf2.term_id, vf.term_id);
}

#[test]
fn lookup_vertex_multiplicities_matter() {
    let model = make_test_model();
    assert!(lookup_vertex(&model, &["e-", "photon", "photon"]).is_err());
    assert!(lookup_vertex(&model, &["e-", "photon"]).is_err());
}

#[test]
fn lookup_vertex_not_found() {
    let model = make_test_model();
    let result = lookup_vertex(&model, &["u", "g", "u"]);
    match result {
        Err(SpireError::InvalidVertex(m)) => assert_eq!(m, "No vertex found for fields: [\"u\", \"g\", \"u\"]"),
        _ => panic!("expected InvalidVertex"),
    }
}

#[test]
fn lookup_propagator_found() {
    let model = make_test_model();
    let prop = lookup_propagator(&model, "photon").unwrap();
    assert_eq!(prop.form, PropagatorForm::MasslessVector);
}

#[test]
fn lookup_propagator_not_found() {
    let model = make_test_model();
    match lookup_propagator(&model, "nonexistent") {
        Err(SpireError::UnknownParticle(m)) => assert_eq!(m, "No propagator found for field: 'nonexistent'"),
        _ => panic!("expected UnknownParticle"),
    }
}

#[test]
fn propagator_forms_by_spin() {
    assert_eq!(propagator_form_for(0, false), Some(PropagatorForm::Scalar));
    assert_eq!(propagator_form_for(1, false), Some(PropagatorForm::DiracFermion));
    assert_eq!(propagator_form_for(2, true), Some(PropagatorForm::MasslessVector));
    assert_eq!(propagator_form_for(2, false), Some(PropagatorForm::MassiveVector));
    assert_eq!(propagator_form_for(3, false), Some(PropagatorForm::RaritaSchwinger));
    assert_eq!(propagator_form_for(4, true), Some(PropagatorForm::MasslessSpin2));
    assert_eq!(propagator_form_for(4, false), Some(PropagatorForm::MassiveSpin2));
    assert_eq!(propagator_form_for(5, false), None);
}

#[test]
fn ufo_particles_py_header() {
    let output = make_test_model().to_ufo_particles_py();
    assert!(output.contains("from object_library import all_particles, Particle"));
    assert!(output.contains("# Model: Test Model"));
}

#[test]
fn ufo_particles_py_contains_all_fields() {
    let output = make_test_model().to_ufo_particles_py();
    assert!(output.contains("name='e-'"));
    assert!(output.contains("name='photon'"));
    assert!(output.contains("name='Z0'"));
    assert!(output.contains("name='H'"));
}

#[test]
fn ufo_particles_py_pdg_codes() {
    let output = make_test_model().to_ufo_particles_py();
    assert!(output.contains("pdg_code=11"), "electron should have PDG 11: {}", output);
    assert!(output.contains("pdg_code=22"));
    assert!(output.contains("pdg_code=23"));
    assert!(output.contains("pdg_code=25"));
}

#[test]
fn ufo_particles_py_spin_codes() {
    let output = make_test_model().to_ufo_particles_py();
    assert!(output.contains("name='H'") && output.contains("spin=1"), "Higgs spin=1: {}", output);
}

#[test]
fn ufo_particles_py_width() {
    let output = make_test_model().to_ufo_particles_py();
    assert!(output.contains("width='ZERO'"));
}

#[test]
fn ufo_particles_py_exact_line() {
    let output = make_test_model().to_ufo_particles_py();
    assert!(output.contains(
        "Z0 = Particle(pdg_code=23, name='Z0', antiname='anti_Z0', spin=3, color=1, mass='MZ0', width='WZ0', charge=0/3)"
    ));
    assert!(output.contains(
        "em = Particle(pdg_code=11, name='e-', antiname='e+', spin=2, color=1, mass='MEM', width='ZERO', charge=-3/3)"
    ));
    assert!(output.starts_with("# UFO particles.py — auto-generated by SPIRE\n# Model: Test Model\n\nfrom object_library import all_particles, Particle\n\n"));
    assert!(output.ends_with(")\n"));
}

#[test]
fn ufo_pdg_code_unknown_field() {
    let f = field("zprime", 1000.0, 1.0, 0, 2, ColorRepresentation::Singlet);
    assert_eq!(ufo_pdg_code(&f, 4), 9000005);
    let g = field("gluon", 0.0, 0.0, 0, 2, ColorRepresentation::Octet);
    assert_eq!(ufo_pdg_code(&g, 0), 21);
    assert_eq!(ufo_color_code(&g), 8);
    let t = field("t", 173.0, 1.4, 2, 1, ColorRepresentation::AntiTriplet);
    assert_eq!(ufo_color_code(&t), -3);
}

#[test]
fn ufo_antiname_patterns() {
    assert_eq!(ufo_antiname("e-"), "e+");
    assert_eq!(ufo_antiname("W+"), "W-");
    assert_eq!(ufo_antiname("anti_u"), "u");
    assert_eq!(ufo_antiname("photon"), "anti_photon");
}

#[test]
fn ufo_variable_name_sanitization() {
    assert_eq!(ufo_variable_name("e-"), "em");
    assert_eq!(ufo_variable_name("W+"), "Wp");
    assert_eq!(ufo_variable_name("Z0"), "Z0");
    assert_eq!(ufo_variable_name("a b"), "a_b");
}

#[test]
fn unstable_fields_have_width_and_mass() {
    let model = make_test_model();
    assert!(spire_kernel::nwa::is_unstable(&model, "Z0"));
    assert!(!spire_kernel::nwa::is_unstable(&model, "photon"));
    assert!(!spire_kernel::nwa::is_unstable(&model, "e-"));
    assert!(!spire_kernel::nwa::is_unstable(&model, "unknown"));
}
