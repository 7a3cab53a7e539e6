use spire_kernel::diagram::{
    connected_diagrams, isolate_channel, layout_loop_order, layout_plan, DiagramLayout, LineRole, NodeRole,
    MINUS_ONE_BITS, MINUS_TWO_BITS, ONE_BITS, TWO_BITS, ZERO_BITS,
};
use spire_kernel::graph::{
    diagram_key, factorial, loop_order_from_counts, multiplicities, plan_tree_topologies,
    reaction_label, Channel, LoopOrder, TopologyPlan,
};
use spire_kernel::lagrangian::{
    derive_vertex_factor, propagator_form_for, LagrangianTerm, LagrangianTermKind, Propagator,
    TheoreticalModel,
};
use spire_kernel::ontology::{
    BaryonNumber, ChargeConjugation, ColorRepresentation, ElectricCharge, Field, Hypercharge,
    InteractionType, LeptonNumbers, Parity, QuantumNumbers, Spin, WeakIsospin, WeakMultiplet,
};

fn field(id: &str, mass: f64, width: f64, q: i8, twice_spin: u8) -> Field {
    Field {
        id: id.into(),
        name: id.into(),
        symbol: id.into(),
        mass_bits: mass.to_bits(),
        width_bits: width.to_bits(),
        quantum_numbers: QuantumNumbers {
            electric_charge: ElectricCharge(q),
            weak_isospin: WeakIsospin(0),
            hypercharge: Hypercharge(0),
            baryon_number: BaryonNumber(0),
            lepton_numbers: LeptonNumbers { electron: 0, muon: 0, tau: 0 },
            spin: Spin(twice_spin),
            parity: Parity::Even,
            charge_conjugation: ChargeConjugation::Undefined,
            color: ColorRepresentation::Singlet,
            weak_multiplet: WeakMultiplet::Singlet,
            representations: vec![],
        },
        interactions: vec![InteractionType::Electromagnetic],
    }
}

fn term(id: &str, ids: [&str; 3]) -> LagrangianTerm {
    LagrangianTerm {
        id: id.into(),
        description: id.into(),
        coupling_symbol: "e".into(),
        coupling_value_bits: Some(0.303f64.to_bits()),
        field_ids: ids.iter().map(|s| s.to_string()).collect(),
        lorentz_structure: "gamma_mu".into(),
        interaction_type: InteractionType::Electromagnetic,
        term_kind: LagrangianTermKind::Interaction,
        operator_dimension: None,
    }
}

fn make_full_test_model() -> TheoreticalModel {
    let fields = vec![
        field("e-", 0.000511, 0.0, -3, 1),
        field("e+", 0.000511, 0.0, 3, 1),
        field("mu-", 0.10566, 0.0, -3, 1),
        field("mu+", 0.10566, 0.0, 3, 1),
        field("photon", 0.0, 0.0, 0, 2),
        field("Z0", 91.1876, 2.4952, 0, 2),
    ];
    let terms = vec![
        term("qed_eea", ["e-", "photon", "e-"]),
        term("qed_epa", ["e+", "photon", "e+"]),
        term("qed_annihilation_a", ["e-", "e+", "photon"]),
        term("nc_annihilation_z", ["e-", "e+", "Z0"]),
        term("nc_eez", ["e-", "e-", "Z0"]),
        term("nc_epz", ["e+", "e+", "Z0"]),
        term("qed_mma", ["mu-", "photon", "mu-"]),
        term("qed_mpa", ["mu+", "photon", "mu+"]),
        term("qed_mu_annihilation_a", ["mu-", "mu+", "photon"]),
        term("nc_mu_annihilation_z", ["mu-", "mu+", "Z0"]),
        term("nc_mmz", ["mu-", "mu-", "Z0"]),
        term("nc_mpz", ["mu+", "mu+", "Z0"]),
    ];
    let propagators = fields
        .iter()
        .map(|f| Propagator {
            field_id: f.id.clone(),
            spin: f.quantum_numbers.spin,
            mass_bits: f.mass_bits,
            width_bits: f.width_bits,
            expression: String::new(),
            gauge_parameter_bits: None,
            form: propagator_form_for(f.quantum_numbers.spin.0, f64::from_bits(f.mass_bits) == 0.0).unwrap(),
        })
        .collect();
    let vertex_factors = terms.iter().map(|t| derive_vertex_factor(t).unwrap()).collect();
    TheoreticalModel {
        name: "Full QED+WeakNC Test".into(),
        description: "Test model with all crossing vertices".into(),
        fields,
        terms,
        vertex_factors,
        propagators,
        gauge_symmetry: None,
    }
}

fn count(plans: &[TopologyPlan], ch: Channel) -> usize {
    plans
        .iter()
        .filter(|p| matches!(p, TopologyPlan::TwoVertex { channel, .. } if *channel == ch))
        .count()
}

fn mediator_id<'a>(model: &'a TheoreticalModel, p: &TopologyPlan) -> &'a str {
    match p {
        TopologyPlan::TwoVertex { mediator, .. } => &model.fields[*mediator].id,
        TopologyPlan::SingleVertex { .. } => panic!("not a two-vertex plan"),
    }
}

#[test]
fn channel_equality() {
    assert_eq!(Channel::S, Channel::S);
    assert_ne!(Channel::S, Channel::T);
    assert_ne!(Channel::T, Channel::U);
}

#[test]
fn bhabha_topology_count() {
    let model = make_full_test_model();
    let plans = plan_tree_topologies(&model, &["e-", "e+"], &["e-", "e+"]);
    assert_eq!(plans.len(), 4, "Bhabha: expected 4 diagrams (2s + 2t), got {}", plans.len());
}

#[test]
fn bhabha_has_s_channel() {
    let model = make_full_test_model();
    let plans = plan_tree_topologies(&model, &["e-", "e+"], &["e-", "e+"]);
    assert_eq!(count(&plans, Channel::S), 2);
}

#[test]
fn bhabha_has_t_channel() {
    let model = make_full_test_model();
    let plans = plan_tree_topologies(&model, &["e-", "e+"], &["e-", "e+"]);
    assert_eq!(count(&plans, Channel::T), 2);
    assert_eq!(count(&plans, Channel::U), 0);
}

#[test]
fn moller_topology_count() {
    let model = make_full_test_model();
    let plans = plan_tree_topologies(&model, &["e-", "e-"], &["e-", "e-"]);
    assert_eq!(plans.len(), 4, "Møller: expected 4 diagrams (2t + 2u)");
}

#[test]
fn moller_has_t_and_u_channels() {
    let model = make_full_test_model();
    let plans = plan_tree_topologies(&model, &["e-", "e-"], &["e-", "e-"]);
    assert_eq!(count(&plans, Channel::T), 2);
    assert_eq!(count(&plans, Channel::U), 2);
}

#[test]
fn moller_has_no_s_channel() {
    let model = make_full_test_model();
    let plans = plan_tree_topologies(&model, &["e-", "e-"], &["e-", "e-"]);
    assert_eq!(count(&plans, Channel::S), 0);
}

#[test]
fn ee_annihilation_to_photons_has_t_and_u() {
    let model = make_full_test_model();
    let plans = plan_tree_topologies(&model, &["e-", "e+"], &["photon", "photon"]);
    assert!(count(&plans, Channel::T) >= 1);
    assert!(count(&plans, Channel::U) >= 1);
    assert!(plans.len() >= 2);
}

#[test]
fn ee_annihilation_to_photons_no_s_channel() {
    let model = make_full_test_model();
    let plans = plan_tree_topologies(&model, &["e-", "e+"], &["photon", "photon"]);
    assert_eq!(count(&plans, Channel::S), 0);
}

#[test]
fn ee_to_mumu_s_channel_only() {
    let model = make_full_test_model();
    let plans = plan_tree_topologies(&model, &["e-", "e+"], &["mu-", "mu+"]);
    assert_eq!(count(&plans, Channel::S), 2);
    assert_eq!(count(&plans, Channel::T), 0);
    assert_eq!(count(&plans, Channel::U), 0);
}

#[test]
fn isolate_channels_partitions_diagrams() {
    let model = make_full_test_model();
    let plans = plan_tree_topologies(&model, &["e-", "e+"], &["e-", "e+"]);
    let s = count(&plans, Channel::S);
    let t = count(&plans, Channel::T);
    let u = count(&plans, Channel::U);
    assert_eq!(s + t + u, plans.len());
    let layouts: Vec<DiagramLayout> = plans.iter().map(|p| layout_plan(p, 2, 2)).collect();
    let is = isolate_channel(&layouts, Channel::S);
    let it = isolate_channel(&layouts, Channel::T);
    let iu = isolate_channel(&layouts, Channel::U);
    assert_eq!((is.len(), it.len(), iu.len()), (s, t, u));
    let mut all: Vec<usize> = is.iter().chain(it.iter()).chain(iu.iter()).copied().collect();
    all.sort();
    assert_eq!(all, (0..plans.len()).collect::<Vec<usize>>());
}

#[test]
fn no_diagrams_for_invalid_vertex() {
    let model = make_full_test_model();
    let plans = plan_tree_topologies(&model, &["e-", "e-"], &["mu-", "mu-"]);
    assert_eq!(plans.len(), 0, "e−e−→μ−μ− should produce no diagrams");
}

#[test]
fn internal_propagator_correct_field() {
    let model = make_full_test_model();
    let plans = plan_tree_topologies(&model, &["e-", "e+"], &["mu-", "mu+"]);
    for p in &plans {
        let id = mediator_id(&model, p);
        assert!(id == "photon" || id == "Z0", "Mediator should be photon or Z, got '{}'", id);
    }
}

#[test]
fn propagator_attached_to_internal_edge() {
    let model = make_full_test_model();
    let plans = plan_tree_topologies(&model, &["e-", "e+"], &["mu-", "mu+"]);
    for p in &plans {
        match p {
            TopologyPlan::TwoVertex { mediator, propagator, .. } => {
                let pi = propagator.expect("internal line has a propagator");
                assert_eq!(model.propagators[pi].field_id, model.fields[*mediator].id);
            }
            _ => panic!("expected two-vertex plans"),
        }
    }
}

#[test]
fn s_channel_vertices_join_the_right_legs() {
    let model = make_full_test_model();
    let plans = plan_tree_topologies(&model, &["e-", "e+"], &["mu-", "mu+"]);
    match plans[0] {
        TopologyPlan::TwoVertex { channel, vertex1, vertex2, .. } => {
            assert_eq!(channel, Channel::S);
            assert_eq!(model.vertex_factors[vertex1].term_id, "qed_annihilation_a");
            assert_eq!(model.vertex_factors[vertex2].term_id, "qed_mu_annihilation_a");
        }
        _ => panic!("expected a two-vertex plan"),
    }
}

#[test]
fn single_vertex_decay_and_fusion() {
    let model = make_full_test_model();
    let decay = plan_tree_topologies(&model, &["Z0"], &["e-", "e+"]);
    assert_eq!(decay.len(), 1);
    match decay[0] {
        TopologyPlan::SingleVertex { vertex } => assert_eq!(model.vertex_factors[vertex].term_id, "nc_annihilation_z"),
        _ => panic!("expected a single vertex"),
    }
    let fusion = plan_tree_topologies(&model, &["e+", "e-"], &["photon"]);
    assert_eq!(fusion.len(), 1);
    assert!(plan_tree_topologies(&model, &["Z0"], &["mu-", "e+"]).is_empty());
    assert!(plan_tree_topologies(&model, &["e-", "e+", "e-"], &["e-", "e+"]).is_empty());
}

#[test]
fn topology_set_reaction_label() {
    let label = reaction_label(&["e-", "e+"], &["mu-", "mu+"]);
    assert_eq!(label, "e- + e+ → mu- + mu+");
    assert!(label.contains("→"));
    assert!(label.contains("e-"));
    assert!(label.contains("mu-"));
}

#[test]
fn diagram_keys_follow_debug_names() {
    assert_eq!(diagram_key(Channel::U, "photon", "qed_eea", "qed_epa"), "U|photon|qed_eea|qed_epa");
}

#[test]
fn rambo_style_factorials_of_multiplicities() {
    assert_eq!(factorial(0), 1);
    assert_eq!(factorial(5), 120);
    assert_eq!(factorial(12), 479001600);
    let ids: Vec<String> = vec!["photon".into(), "e-".into(), "photon".into()];
    assert_eq!(multiplicities(&ids), vec![2, 1]);
}

#[test]
fn classify_tree_level_diagrams() {
    // Two vertices joined by one propagator: L = 1 - 2 + 1 = 0.
    assert_eq!(loop_order_from_counts(1, 2), LoopOrder::Tree);
    assert_eq!(loop_order_from_counts(0, 1), LoopOrder::Tree);
    assert_eq!(loop_order_from_counts(5, 0), LoopOrder::Tree);
    assert_eq!(loop_order_from_counts(2, 2), LoopOrder::OneLoop);
    assert_eq!(loop_order_from_counts(3, 2), LoopOrder::TwoLoop);
    assert_eq!(loop_order_from_counts(6, 2), LoopOrder::NLoop(5));
    let model = make_full_test_model();
    for p in plan_tree_topologies(&model, &["e-", "e+"], &["e-", "e+"]) {
        let g = layout_plan(&p, 2, 2);
        assert_eq!(g.loop_order, LoopOrder::Tree);
        assert_eq!(layout_loop_order(&g), LoopOrder::Tree);
    }
}

#[test]
fn two_to_two_layout_has_six_nodes_five_lines_one_internal() {
    let model = make_full_test_model();
    for p in plan_tree_topologies(&model, &["e-", "e-"], &["e-", "e-"]) {
        let g = layout_plan(&p, 2, 2);
        assert_eq!(g.nodes.len(), 6);
        assert_eq!(g.lines.len(), 5);
        let internal: Vec<_> = g.lines.iter().filter(|l| matches!(l.role, LineRole::Internal { .. })).collect();
        assert_eq!(internal.len(), 1);
        assert_eq!((internal[0].source, internal[0].target), (2, 3));
        assert_eq!(internal[0].momentum_label, "q");
        assert!(g.is_connected);
        // The u-channel crosses the outgoing legs.
        let top_right = if g.channel == Channel::U { 1 } else { 0 };
        assert_eq!(g.nodes[4].role, NodeRole::Outgoing(top_right));
        assert_eq!(g.lines[3].role, LineRole::External(2 + top_right));
        assert_eq!((g.nodes[2].x_bits, g.nodes[2].y_bits), (ZERO_BITS, ONE_BITS));
    }
}

#[test]
fn s_channel_layout_joins_incoming_at_first_vertex() {
    let model = make_full_test_model();
    let plans = plan_tree_topologies(&model, &["e-", "e+"], &["mu-", "mu+"]);
    let g = layout_plan(&plans[0], 2, 2);
    assert_eq!(g.channel, Channel::S);
    let ends: Vec<(usize, usize)> = g.lines.iter().map(|l| (l.source, l.target)).collect();
    assert_eq!(ends, vec![(0, 2), (1, 2), (2, 3), (3, 4), (3, 5)]);
    let labels: Vec<&str> = g.lines.iter().map(|l| l.momentum_label.as_str()).collect();
    assert_eq!(labels, vec!["p1", "p2", "q", "p3", "p4"]);
    assert_eq!((g.nodes[2].x_bits, g.nodes[3].x_bits), (MINUS_ONE_BITS, ONE_BITS));
    assert_eq!(f64::from_bits(g.nodes[0].x_bits), -2.0);
}

#[test]
fn single_vertex_layout_is_a_star() {
    let model = make_full_test_model();
    let decay = plan_tree_topologies(&model, &["Z0"], &["e-", "e+"]);
    let g = layout_plan(&decay[0], 1, 2);
    assert_eq!(g.nodes.len(), 4);
    assert_eq!(g.nodes[0].role, NodeRole::Incoming(0));
    assert!(matches!(g.nodes[1].role, NodeRole::Vertex(_)));
    assert_eq!((g.nodes[3].x_bits, g.nodes[3].y_bits), (TWO_BITS, ONE_BITS));
    assert_eq!(g.nodes[0].x_bits, MINUS_TWO_BITS);
    let ends: Vec<(usize, usize)> = g.lines.iter().map(|l| (l.source, l.target)).collect();
    assert_eq!(ends, vec![(0, 1), (1, 2), (1, 3)]);
    let labels: Vec<&str> = g.lines.iter().map(|l| l.momentum_label.as_str()).collect();
    assert_eq!(labels, vec!["p1", "p2", "p3"]);
    assert_eq!(layout_loop_order(&g), LoopOrder::Tree);
}

#[test]
fn connected_diagrams_keep_tree_diagrams_and_drop_bubbles() {
    let model = make_full_test_model();
    let plans = plan_tree_topologies(&model, &["e-", "e+"], &["e-", "e+"]);
    let mut layouts: Vec<DiagramLayout> = plans.iter().map(|p| layout_plan(p, 2, 2)).collect();
    assert_eq!(connected_diagrams(&layouts), (0..layouts.len()).collect::<Vec<usize>>());
    layouts[0].is_connected = false;
    assert_eq!(connected_diagrams(&layouts), (1..layouts.len()).collect::<Vec<usize>>());
}
