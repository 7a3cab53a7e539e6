//! Lagrangian terms, Feynman rules (vertex factors and propagators) and the
//! theoretical model that bundles them, with order-independent vertex lookup
//! and the simplified UFO particle listing.
//!
//! Numerical parameters (couplings, masses, widths, gauge parameters) are
//! carried as the IEEE-754 bit patterns of their `f64` values.
use vstd::prelude::*;

use crate::groups::GaugeSymmetry;
use crate::ontology::{same_field, ColorRepresentation, Field, InteractionType, Spin};
use crate::text::{int_decimal, push_char, push_int, push_str, str_eq, to_chars};
use crate::SpireError;

verus! {

// ---------------------------------------------------------------------------
// Data model
// ---------------------------------------------------------------------------

/// Classification of a Lagrangian term.
#[derive(Debug, Clone, Copy, PartialEq, Eq, Hash, Structural)]
pub enum LagrangianTermKind {
    /// Kinetic term.
    Kinetic,
    /// Mass term.
    Mass,
    /// Interaction vertex (3-point, 4-point couplings).
    Interaction,
    /// Gauge-fixing term.
    GaugeFixing,
    /// Faddeev–Popov ghost term.
    FaddeevPopovGhost,
    /// Effective contact interaction (dimension-5 or dimension-6 operators).
    ContactInteraction,
}

/// Structured mathematical form of a Feynman propagator.
#[derive(Debug, Clone, Copy, PartialEq, Eq, Hash, Structural)]
pub enum PropagatorForm {
    /// Scalar propagator.
    Scalar,
    /// Dirac fermion propagator.
    DiracFermion,
    /// Massless vector boson in Feynman gauge.
    MasslessVector,
    /// Massive vector boson (unitary gauge).
    MassiveVector,
    /// Rarita–Schwinger spin-3/2 propagator.
    RaritaSchwinger,
    /// Massless spin-2 (graviton) propagator in de Donder gauge.
    MasslessSpin2,
    /// Massive spin-2 (Fierz–Pauli) propagator.
    MassiveSpin2,
}

/// A single term in the Lagrangian density.
#[derive(Debug)]
pub struct LagrangianTerm {
    /// Unique identifier of the term.
    pub id: String,
    /// Human-readable description.
    pub description: String,
    /// Symbol of the coupling constant (e.g. `"e"`, `"g_s"`).
    pub coupling_symbol: String,
    /// Numerical value of the coupling, as `f64` bits, if known.
    pub coupling_value_bits: Option<u64>,
    /// Identifiers of the participating fields.
    pub field_ids: Vec<String>,
    /// Lorentz structure of the vertex (e.g. `"gamma_mu"`, `"scalar"`).
    pub lorentz_structure: String,
    /// Interaction type of the term.
    pub interaction_type: InteractionType,
    /// Kinetic, mass, interaction, ... term.
    pub term_kind: LagrangianTermKind,
    /// Mass dimension of the operator (`None` means dimension 4).
    pub operator_dimension: Option<u8>,
}

/// The Feynman rule derived from an interaction term.
#[derive(Debug)]
pub struct VertexFactor {
    /// Identifier of the originating term.
    pub term_id: String,
    /// Field identifiers at the vertex (ordered).
    pub field_ids: Vec<String>,
    /// Symbolic expression of the vertex factor.
    pub expression: String,
    /// Coupling value, as `f64` bits.
    pub coupling_value_bits: Option<u64>,
    /// Number of legs at the vertex.
    pub n_legs: u8,
}

/// The Feynman rule for an internal line.
#[derive(Debug)]
pub struct Propagator {
    /// The propagating field.
    pub field_id: String,
    /// Spin of the propagating field.
    pub spin: Spin,
    /// Mass in GeV, as `f64` bits.
    pub mass_bits: u64,
    /// Decay width in GeV, as `f64` bits.
    pub width_bits: u64,
    /// Symbolic expression of the propagator.
    pub expression: String,
    /// Gauge parameter, as `f64` bits, for gauge bosons.
    pub gauge_parameter_bits: Option<u64>,
    /// Structured form of the propagator.
    pub form: PropagatorForm,
}

/// A complete theoretical model: fields, terms and the derived Feynman rules.
#[derive(Debug)]
pub struct TheoreticalModel {
    /// Name of the model.
    pub name: String,
    /// Description of the framework.
    pub description: String,
    /// All fields of the model.
    pub fields: Vec<Field>,
    /// All Lagrangian terms.
    pub terms: Vec<LagrangianTerm>,
    /// Derived vertex factors.
    pub vertex_factors: Vec<VertexFactor>,
    /// Derived propagators.
    pub propagators: Vec<Propagator>,
    /// Gauge symmetry of the model, when specified.
    pub gauge_symmetry: Option<GaugeSymmetry>,
}

impl Default for TheoreticalModel {
    /// The empty, unnamed model.
    fn default() -> (m: Self)
        ensures
            m.name@ == Seq::<char>::empty(),
            m.description@ == Seq::<char>::empty(),
            m.fields@.len() == 0,
            m.terms@.len() == 0,
            m.vertex_factors@.len() == 0,
            m.propagators@.len() == 0,
            m.gauge_symmetry.is_none(),
    {
        TheoreticalModel {
            name: String::new(),
            description: String::new(),
            fields: Vec::new(),
            terms: Vec::new(),
            vertex_factors: Vec::new(),
            propagators: Vec::new(),
            gauge_symmetry: None,
        }
    }
}

// ---------------------------------------------------------------------------
// Views and copies
// ---------------------------------------------------------------------------

/// The character sequences of a list of strings.
pub open spec fn string_views(v: Seq<String>) -> Seq<Seq<char>> {
    v.map_values(|s: String| s@)
}

/// The character sequences of a list of string slices.
pub open spec fn str_views(v: Seq<&str>) -> Seq<Seq<char>> {
    v.map_values(|s: &str| s@)
}

/// Two vertex factors agree in every component.
pub open spec fn same_vertex(a: VertexFactor, b: VertexFactor) -> bool {
    &&& a.term_id@ == b.term_id@
    &&& string_views(a.field_ids@) == string_views(b.field_ids@)
    &&& a.expression@ == b.expression@
    &&& a.coupling_value_bits == b.coupling_value_bits
    &&& a.n_legs == b.n_legs
}

/// Two propagators agree in every component.
pub open spec fn same_propagator(a: Propagator, b: Propagator) -> bool {
    &&& a.field_id@ == b.field_id@
    &&& a.spin == b.spin
    &&& a.mass_bits == b.mass_bits
    &&& a.width_bits == b.width_bits
    &&& a.expression@ == b.expression@
    &&& a.gauge_parameter_bits == b.gauge_parameter_bits
    &&& a.form == b.form
}

/// A copy of a list of strings.
pub fn copy_strings(v: &Vec<String>) -> (r: Vec<String>)
    ensures
        string_views(r@) == string_views(v@),
{
    let mut r: Vec<String> = Vec::new();
    let mut i: usize = 0;
    while i < v.len()
        invariant
            i <= v.len(),
            r@.len() == i,
            forall|k: int| 0 <= k < i ==> #[trigger] r@[k]@ == v@[k]@,
        decreases v.len() - i,
    {
        r.push(v[i].clone());
        i = i + 1;
    }
    assert(string_views(r@) =~= string_views(v@));
    r
}

/// Owned copies of a list of string slices.
pub fn owned_strings(v: &[&str]) -> (r: Vec<String>)
    ensures
        string_views(r@) == str_views(v@),
{
    let mut r: Vec<String> = Vec::new();
    let mut i: usize = 0;
    while i < v.len()
        invariant
            i <= v@.len(),
            r@.len() == i,
            forall|k: int| 0 <= k < i ==> #[trigger] r@[k]@ == v@[k]@,
        decreases v@.len() - i,
    {
        r.push(String::from_str(v[i]));
        i = i + 1;
    }
    assert(string_views(r@) =~= str_views(v@));
    r
}

impl Clone for VertexFactor {
    fn clone(&self) -> (r: Self)
        ensures
            same_vertex(*self, r),
    {
        VertexFactor {
            term_id: self.term_id.clone(),
            field_ids: copy_strings(&self.field_ids),
            expression: self.expression.clone(),
            coupling_value_bits: self.coupling_value_bits,
            n_legs: self.n_legs,
        }
    }
}

impl Clone for Propagator {
    fn clone(&self) -> (r: Self)
        ensures
            same_propagator(*self, r),
    {
        Propagator {
            field_id: self.field_id.clone(),
            spin: self.spin,
            mass_bits: self.mass_bits,
            width_bits: self.width_bits,
            expression: self.expression.clone(),
            gauge_parameter_bits: self.gauge_parameter_bits,
            form: self.form,
        }
    }
}

// ---------------------------------------------------------------------------
// Vertex factors
// ---------------------------------------------------------------------------

/// The symbolic vertex factor for a coupling symbol and a Lorentz structure.
pub open spec fn vertex_expression(coupling: Seq<char>, lorentz: Seq<char>) -> Seq<char> {
    if lorentz == "gamma_mu"@ {
        "-i "@ + coupling + " γ^μ"@
    } else if lorentz == "scalar"@ {
        "-i "@ + coupling
    } else if lorentz == "tensor"@ {
        "-i "@ + coupling + " T^a γ^μ"@
    } else if lorentz == "contact_VmA"@ {
        "-i "@ + coupling + "/Λ² (γ^μ P_L) ⊗ (γ_μ P_L)"@
    } else if lorentz == "contact_VpA"@ {
        "-i "@ + coupling + "/Λ² (γ^μ P_R) ⊗ (γ_μ P_R)"@
    } else if lorentz == "contact_SS"@ {
        "-i "@ + coupling + "/Λ² (1) ⊗ (1)"@
    } else if lorentz == "contact_4f"@ {
        "-i "@ + coupling + "/Λ² (γ^μ) ⊗ (γ_μ)"@
    } else {
        "-i "@ + coupling + " ["@ + lorentz + "]"@
    }
}

/// `vf` is the vertex factor derived from `term`.
pub open spec fn derived_vertex(term: LagrangianTerm, vf: VertexFactor) -> bool {
    &&& vf.term_id@ == term.id@
    &&& string_views(vf.field_ids@) == string_views(term.field_ids@)
    &&& vf.expression@ == vertex_expression(term.coupling_symbol@, term.lorentz_structure@)
    &&& vf.coupling_value_bits == term.coupling_value_bits
    &&& vf.n_legs == term.field_ids@.len() as u8
}

/// Derive the Feynman vertex factor of an interaction term.
///
/// The Lorentz structure selects the symbolic form (`"-i e γ^μ"` for
/// `gamma_mu`); an unrecognised structure is quoted in brackets. Never fails.
pub fn derive_vertex_factor(term: &LagrangianTerm) -> (r: Result<VertexFactor, SpireError>)
    ensures
        r matches Ok(vf) && derived_vertex(*term, vf),
{
    let l = term.lorentz_structure.as_str();
    let c = term.coupling_symbol.as_str();
    let mut e = String::from_str("-i ");
    push_str(&mut e, c);
    if str_eq(l, "gamma_mu") {
        push_str(&mut e, " γ^μ");
    } else if str_eq(l, "scalar") {
    } else if str_eq(l, "tensor") {
        push_str(&mut e, " T^a γ^μ");
    } else if str_eq(l, "contact_VmA") {
        push_str(&mut e, "/Λ² (γ^μ P_L) ⊗ (γ_μ P_L)");
    } else if str_eq(l, "contact_VpA") {
        push_str(&mut e, "/Λ² (γ^μ P_R) ⊗ (γ_μ P_R)");
    } else if str_eq(l, "contact_SS") {
        push_str(&mut e, "/Λ² (1) ⊗ (1)");
    } else if str_eq(l, "contact_4f") {
        push_str(&mut e, "/Λ² (γ^μ) ⊗ (γ_μ)");
    } else {
        push_str(&mut e, " [");
        push_str(&mut e, l);
        push_str(&mut e, "]");
    }
    let n: usize = term.field_ids.len();
    Ok(VertexFactor {
        term_id: term.id.clone(),
        field_ids: copy_strings(&term.field_ids),
        expression: e,
        coupling_value_bits: term.coupling_value_bits,
        n_legs: n as u8,
    })
}

/// Only interaction and contact-interaction terms give vertex rules.
pub open spec fn gives_vertex(k: LagrangianTermKind) -> bool {
    k == LagrangianTermKind::Interaction || k == LagrangianTermKind::ContactInteraction
}

/// The terms of `terms` that give vertex rules, in order.
pub open spec fn vertex_terms(terms: Seq<LagrangianTerm>) -> Seq<LagrangianTerm>
    decreases terms.len(),
{
    if terms.len() == 0 {
        Seq::empty()
    } else if gives_vertex(terms.last().term_kind) {
        vertex_terms(terms.drop_last()).push(terms.last())
    } else {
        vertex_terms(terms.drop_last())
    }
}

/// Derive the vertex factors of all interaction (and contact-interaction)
/// terms of a model, in term order. Never fails.
pub fn derive_vertex_rules(model: &TheoreticalModel) -> (r: Result<Vec<VertexFactor>, SpireError>)
    ensures
        r matches Ok(v) && v@.len() == vertex_terms(model.terms@).len()
            && forall|k: int| 0 <= k < v@.len() ==> #[trigger] derived_vertex(vertex_terms(model.terms@)[k], v@[k]),
{
    let mut out: Vec<VertexFactor> = Vec::new();
    let mut i: usize = 0;
    while i < model.terms.len()
        invariant
            i <= model.terms@.len(),
            out@.len() == vertex_terms(model.terms@.take(i as int)).len(),
            forall|k: int| 0 <= k < out@.len() ==> #[trigger] derived_vertex(vertex_terms(model.terms@.take(i as int))[k], out@[k]),
        decreases model.terms@.len() - i,
    {
        assert(model.terms@.take(i + 1).drop_last() =~= model.terms@.take(i as int));
        let t = &model.terms[i];
        if t.term_kind == LagrangianTermKind::Interaction || t.term_kind == LagrangianTermKind::ContactInteraction {
            let vf = derive_vertex_factor(t);
            match vf {
                Ok(v) => { out.push(v); }
                Err(_) => {}
            }
        }
        i = i + 1;
    }
    assert(model.terms@.take(model.terms@.len() as int) =~= model.terms@);
    Ok(out)
}

// ---------------------------------------------------------------------------
// Order-independent vertex lookup
// ---------------------------------------------------------------------------

/// Number of occurrences of `x` in `s`.
pub open spec fn occurrences(s: Seq<Seq<char>>, x: Seq<char>) -> nat
    decreases s.len(),
{
    if s.len() == 0 {
        0
    } else {
        occurrences(s.drop_last(), x) + if s.last() == x { 1nat } else { 0nat }
    }
}

/// `a` and `b` hold the same identifiers with the same multiplicities:
/// one is a reordering of the other.
pub open spec fn same_legs(a: Seq<Seq<char>>, b: Seq<Seq<char>>) -> bool {
    forall|x: Seq<char>| #[trigger] occurrences(a, x) == occurrences(b, x)
}

/// The index of the first vertex factor, at or after `from`, whose legs are
/// a reordering of `query`.
pub open spec fn first_vertex_match(vfs: Seq<VertexFactor>, query: Seq<Seq<char>>, from: int) -> Option<int>
    decreases vfs.len() - from,
{
    if from < 0 || from >= vfs.len() {
        None
    } else if same_legs(string_views(vfs[from].field_ids@), query) {
        Some(from)
    } else {
        first_vertex_match(vfs, query, from + 1)
    }
}

proof fn lemma_occurrences_positive(s: Seq<Seq<char>>, x: Seq<char>)
    ensures
        occurrences(s, x) > 0 <==> exists|i: int| 0 <= i < s.len() && s[i] == x,
    decreases s.len(),
{
    if s.len() > 0 {
        lemma_occurrences_positive(s.drop_last(), x);
        if occurrences(s.drop_last(), x) > 0 {
            let i = choose|i: int| 0 <= i < s.drop_last().len() && s.drop_last()[i] == x;
            assert(s[i] == x);
        }
        if exists|i: int| 0 <= i < s.len() && s[i] == x {
            let i = choose|i: int| 0 <= i < s.len() && s[i] == x;
            if i < s.len() - 1 {
                assert(s.drop_last()[i] == x);
            }
        }
    }
}

proof fn lemma_occurrences_step(s: Seq<Seq<char>>, i: int, x: Seq<char>)
    requires
        0 <= i < s.len(),
    ensures
        occurrences(s.take(i + 1), x) == occurrences(s.take(i), x) + if s[i] == x { 1nat } else { 0nat },
{
    assert(s.take(i + 1).drop_last() =~= s.take(i));
}

/// Number of occurrences of `x` in `v`.
fn count_in(v: &Vec<String>, x: &String) -> (n: usize)
    ensures
        n == occurrences(string_views(v@), x@),
{
    let ghost sv = string_views(v@);
    let mut n: usize = 0;
    let mut i: usize = 0;
    while i < v.len()
        invariant
            sv == string_views(v@),
            i <= v@.len(),
            n <= i,
            n == occurrences(sv.take(i as int), x@),
        decreases v@.len() - i,
    {
        proof { lemma_occurrences_step(sv, i as int, x@); }
        if str_eq(v[i].as_str(), x.as_str()) {
            n = n + 1;
        }
        i = i + 1;
    }
    assert(sv.take(v@.len() as int) =~= sv);
    n
}

/// Whether every entry of `a` occurs as often in `a` as in `b`.
fn counts_agree(a: &Vec<String>, b: &Vec<String>) -> (r: bool)
    ensures
        r == forall|i: int| 0 <= i < a@.len() ==>
            occurrences(string_views(a@), #[trigger] a@[i]@) == occurrences(string_views(b@), a@[i]@),
{
    let mut i: usize = 0;
    while i < a.len()
        invariant
            i <= a@.len(),
            forall|k: int| 0 <= k < i ==>
                occurrences(string_views(a@), #[trigger] a@[k]@) == occurrences(string_views(b@), a@[k]@),
        decreases a@.len() - i,
    {
        if count_in(a, &a[i]) != count_in(b, &a[i]) {
            return false;
        }
        i = i + 1;
    }
    true
}

/// Whether `a` and `b` hold the same identifiers with the same multiplicities.
pub fn legs_match(a: &Vec<String>, b: &Vec<String>) -> (r: bool)
    ensures
        r == same_legs(string_views(a@), string_views(b@)),
{
    let ghost sa = string_views(a@);
    let ghost sb = string_views(b@);
    let ab = counts_agree(a, b);
    let ba = counts_agree(b, a);
    if !ab {
        proof {
            let i = choose|i: int| 0 <= i < a@.len() && occurrences(sa, #[trigger] a@[i]@) != occurrences(sb, a@[i]@);
            assert(occurrences(sa, a@[i]@) != occurrences(sb, a@[i]@));
        }
        return false;
    }
    if !ba {
        proof {
            let i = choose|i: int| 0 <= i < b@.len() && occurrences(sb, #[trigger] b@[i]@) != occurrences(sa, b@[i]@);
            assert(occurrences(sa, b@[i]@) != occurrences(sb, b@[i]@));
        }
        return false;
    }
    proof {
        assert forall|x: Seq<char>| #[trigger] occurrences(sa, x) == occurrences(sb, x) by {
            lemma_occurrences_positive(sa, x);
            lemma_occurrences_positive(sb, x);
            if occurrences(sa, x) > 0 {
                let i = choose|i: int| 0 <= i < sa.len() && sa[i] == x;
                assert(a@[i]@ == x);
            } else if occurrences(sb, x) > 0 {
                let i = choose|i: int| 0 <= i < sb.len() && sb[i] == x;
                assert(b@[i]@ == x);
            }
        }
    }
    true
}

/// Index of the first vertex factor of `model` whose legs are a reordering of
/// `query`.
pub fn find_vertex_index(model: &TheoreticalModel, query: &Vec<String>) -> (r: Option<usize>)
    ensures
        r matches Some(k) ==> first_vertex_match(model.vertex_factors@, string_views(query@), 0) == Some(k as int)
            && k < model.vertex_factors@.len(),
        r is None ==> first_vertex_match(model.vertex_factors@, string_views(query@), 0) is None,
{
    proof { lemma_lookup_vertex_sound(model.vertex_factors@, string_views(query@), 0); }
    let ghost vfs = model.vertex_factors@;
    let ghost q = string_views(query@);
    let mut i: usize = 0;
    while i < model.vertex_factors.len()
        invariant
            vfs == model.vertex_factors@,
            q == string_views(query@),
            i <= vfs.len(),
            first_vertex_match(vfs, q, 0) == first_vertex_match(vfs, q, i as int),
        decreases vfs.len() - i,
    {
        if legs_match(&model.vertex_factors[i].field_ids, query) {
            return Some(i);
        }
        i = i + 1;
    }
    None
}

/// Debug rendering of a list of string slices (`["a", "b"]`).
pub uninterp spec fn debug_str_list(items: Seq<Seq<char>>) -> Seq<char>;

/// `format!("{:?}", items)` for a slice of string slices.
#[verifier::external_body]
fn format_debug_list(items: &[&str]) -> (s: String)
    ensures
        s@ == debug_str_list(str_views(items@)),
{
    format!("{:?}", items)
}

/// Message of the error for a vertex lookup that found nothing.
pub open spec fn no_vertex_text(query: Seq<Seq<char>>) -> Seq<char> {
    "No vertex found for fields: "@ + debug_str_list(query)
}

/// Look up the vertex factor for a combination of field identifiers.
///
/// The comparison is order-independent: the first vertex factor whose legs
/// are a reordering of `field_ids` is returned (as a copy); when there is
/// none, the error is `InvalidVertex`.
pub fn lookup_vertex(model: &TheoreticalModel, field_ids: &[&str]) -> (r: Result<VertexFactor, SpireError>)
    ensures
        first_vertex_match(model.vertex_factors@, str_views(field_ids@), 0) matches Some(i)
            ==> (r matches Ok(vf) && same_vertex(vf, model.vertex_factors@[i])),
        first_vertex_match(model.vertex_factors@, str_views(field_ids@), 0) is None
            ==> (r matches Err(SpireError::InvalidVertex(m)) && m@ == no_vertex_text(str_views(field_ids@))),
{
    let query = owned_strings(field_ids);
    match find_vertex_index(model, &query) {
        Some(i) => Ok(model.vertex_factors[i].clone()),
        None => {
            let mut m = String::from_str("No vertex found for fields: ");
            let d = format_debug_list(field_ids);
            push_str(&mut m, d.as_str());
            Err(SpireError::InvalidVertex(m))
        }
    }
}

proof fn lemma_same_legs_trans(a: Seq<Seq<char>>, b: Seq<Seq<char>>, c: Seq<Seq<char>>)
    requires
        same_legs(a, b),
        same_legs(b, c),
    ensures
        same_legs(a, c),
{
    assert forall|x: Seq<char>| #[trigger] occurrences(a, x) == occurrences(c, x) by {
        assert(occurrences(a, x) == occurrences(b, x));
        assert(occurrences(b, x) == occurrences(c, x));
    }
}

proof fn lemma_first_match_permutation(vfs: Seq<VertexFactor>, q1: Seq<Seq<char>>, q2: Seq<Seq<char>>, from: int)
    requires
        same_legs(q1, q2),
    ensures
        first_vertex_match(vfs, q1, from) == first_vertex_match(vfs, q2, from),
    decreases vfs.len() - from,
{
    if 0 <= from < vfs.len() {
        let legs = string_views(vfs[from].field_ids@);
        assert(same_legs(q2, q1)) by {
            assert forall|x: Seq<char>| #[trigger] occurrences(q2, x) == occurrences(q1, x) by {
                assert(occurrences(q1, x) == occurrences(q2, x));
            }
        }
        if same_legs(legs, q1) {
            lemma_same_legs_trans(legs, q1, q2);
        }
        if same_legs(legs, q2) {
            lemma_same_legs_trans(legs, q2, q1);
        }
        lemma_first_match_permutation(vfs, q1, q2, from + 1);
    }
}

/// Vertex lookup does not depend on the order of the legs: two queries that
/// are reorderings of each other select the same vertex factor of the model
/// (or both find none).
pub proof fn lemma_lookup_vertex_order_independent(vfs: Seq<VertexFactor>, q1: Seq<Seq<char>>, q2: Seq<Seq<char>>)
    requires
        same_legs(q1, q2),
    ensures
        first_vertex_match(vfs, q1, 0) == first_vertex_match(vfs, q2, 0),
{
    lemma_first_match_permutation(vfs, q1, q2, 0);
}

/// A vertex lookup that succeeds returns a vertex whose legs are exactly the
/// queried legs, up to order.
pub proof fn lemma_lookup_vertex_sound(vfs: Seq<VertexFactor>, q: Seq<Seq<char>>, from: int)
    ensures
        first_vertex_match(vfs, q, from) matches Some(i)
            ==> from <= i < vfs.len() && same_legs(string_views(vfs[i].field_ids@), q),
    decreases vfs.len() - from,
{
    if 0 <= from < vfs.len() {
        lemma_lookup_vertex_sound(vfs, q, from + 1);
    }
}

// ---------------------------------------------------------------------------
// Propagators
// ---------------------------------------------------------------------------

/// The index of the first propagator, at or after `from`, for field `id`.
pub open spec fn first_propagator_for(ps: Seq<Propagator>, id: Seq<char>, from: int) -> Option<int>
    decreases ps.len() - from,
{
    if from < 0 || from >= ps.len() {
        None
    } else if ps[from].field_id@ == id {
        Some(from)
    } else {
        first_propagator_for(ps, id, from + 1)
    }
}

proof fn lemma_first_propagator_bounds(ps: Seq<Propagator>, id: Seq<char>, from: int)
    ensures
        first_propagator_for(ps, id, from) matches Some(i) ==> from <= i < ps.len() && ps[i].field_id@ == id,
    decreases ps.len() - from,
{
    if 0 <= from < ps.len() {
        lemma_first_propagator_bounds(ps, id, from + 1);
    }
}

/// Index of the first propagator of `model` for field `field_id`.
pub fn find_propagator_index(model: &TheoreticalModel, field_id: &str) -> (r: Option<usize>)
    ensures
        r matches Some(k) ==> first_propagator_for(model.propagators@, field_id@, 0) == Some(k as int)
            && k < model.propagators@.len(),
        r is None ==> first_propagator_for(model.propagators@, field_id@, 0) is None,
{
    proof { lemma_first_propagator_bounds(model.propagators@, field_id@, 0); }
    let mut i: usize = 0;
    while i < model.propagators.len()
        invariant
            i <= model.propagators@.len(),
            first_propagator_for(model.propagators@, field_id@, 0)
                == first_propagator_for(model.propagators@, field_id@, i as int),
        decreases model.propagators@.len() - i,
    {
        if str_eq(model.propagators[i].field_id.as_str(), field_id) {
            return Some(i);
        }
        i = i + 1;
    }
    None
}

/// Message of the error for a propagator lookup that found nothing.
pub open spec fn no_propagator_text(id: Seq<char>) -> Seq<char> {
    "No propagator found for field: '"@ + id + "'"@
}

/// Look up the propagator of a field: a copy of the first propagator with
/// that field identifier, or `UnknownParticle`.
pub fn lookup_propagator(model: &TheoreticalModel, field_id: &str) -> (r: Result<Propagator, SpireError>)
    ensures
        first_propagator_for(model.propagators@, field_id@, 0) matches Some(i)
            ==> (r matches Ok(p) && same_propagator(p, model.propagators@[i])),
        first_propagator_for(model.propagators@, field_id@, 0) is None
            ==> (r matches Err(SpireError::UnknownParticle(m)) && m@ == no_propagator_text(field_id@)),
{
    match find_propagator_index(model, field_id) {
        Some(i) => Ok(model.propagators[i].clone()),
        None => {
            let mut m = String::from_str("No propagator found for field: '");
            push_str(&mut m, field_id);
            push_str(&mut m, "'");
            Err(SpireError::UnknownParticle(m))
        }
    }
}

/// The propagator form for a field of spin `twice_spin / 2` that is
/// massless or not; `None` for spins without a propagator rule.
pub open spec fn propagator_form_spec(twice_spin: u8, massless: bool) -> Option<PropagatorForm> {
    if twice_spin == 0 {
        Some(PropagatorForm::Scalar)
    } else if twice_spin == 1 {
        Some(PropagatorForm::DiracFermion)
    } else if twice_spin == 2 {
        Some(if massless { PropagatorForm::MasslessVector } else { PropagatorForm::MassiveVector })
    } else if twice_spin == 3 {
        Some(PropagatorForm::RaritaSchwinger)
    } else if twice_spin == 4 {
        Some(if massless { PropagatorForm::MasslessSpin2 } else { PropagatorForm::MassiveSpin2 })
    } else {
        None
    }
}

/// Select the propagator form from twice the spin and whether the field is
/// massless (|m| below 1e-10 GeV).
pub fn propagator_form_for(twice_spin: u8, massless: bool) -> (r: Option<PropagatorForm>)
    ensures
        r == propagator_form_spec(twice_spin, massless),
{
    match twice_spin {
        0 => Some(PropagatorForm::Scalar),
        1 => Some(PropagatorForm::DiracFermion),
        2 => Some(if massless { PropagatorForm::MasslessVector } else { PropagatorForm::MassiveVector }),
        3 => Some(PropagatorForm::RaritaSchwinger),
        4 => Some(if massless { PropagatorForm::MasslessSpin2 } else { PropagatorForm::MassiveSpin2 }),
        _ => None,
    }
}

/// Message of the error for a spin without a propagator rule.
pub open spec fn unsupported_spin_text(twice_spin: u8, id: Seq<char>) -> Seq<char> {
    "Unsupported spin 2s="@ + int_decimal(twice_spin as int) + " for propagator derivation of field '"@ + id + "'"@
}

/// The error for a field whose spin has no propagator rule.
pub fn unsupported_spin_error(twice_spin: u8, id: &str) -> (e: SpireError)
    ensures
        e matches SpireError::InternalError(m) && m@ == unsupported_spin_text(twice_spin, id@),
{
    let mut m = String::from_str("Unsupported spin 2s=");
    push_int(&mut m, twice_spin as i64);
    push_str(&mut m, " for propagator derivation of field '");
    push_str(&mut m, id);
    push_str(&mut m, "'");
    SpireError::InternalError(m)
}

// ---------------------------------------------------------------------------
// Simplified UFO export
// ---------------------------------------------------------------------------

/// The well-known PDG code of a field identifier, if it is one of the
/// recognised Standard Model names.
pub open spec fn known_pdg_code(id: Seq<char>) -> Option<int> {
    if id == "e-"@ { Some(11) }
    else if id == "e+"@ { Some(-11) }
    else if id == "mu-"@ { Some(13) }
    else if id == "mu+"@ { Some(-13) }
    else if id == "tau-"@ { Some(15) }
    else if id == "tau+"@ { Some(-15) }
    else if id == "nu_e"@ { Some(12) }
    else if id == "anti_nu_e"@ || id == "nu_e_bar"@ { Some(-12) }
    else if id == "nu_mu"@ { Some(14) }
    else if id == "anti_nu_mu"@ || id == "nu_mu_bar"@ { Some(-14) }
    else if id == "nu_tau"@ { Some(16) }
    else if id == "anti_nu_tau"@ || id == "nu_tau_bar"@ { Some(-16) }
    else if id == "u"@ { Some(2) }
    else if id == "u_bar"@ || id == "anti_u"@ { Some(-2) }
    else if id == "d"@ { Some(1) }
    else if id == "d_bar"@ || id == "anti_d"@ { Some(-1) }
    else if id == "photon"@ || id == "a"@ || id == "gamma"@ { Some(22) }
    else if id == "Z0"@ || id == "Z"@ { Some(23) }
    else if id == "W+"@ { Some(24) }
    else if id == "W-"@ { Some(-24) }
    else if id == "g"@ || id == "gluon"@ { Some(21) }
    else if id == "H"@ || id == "higgs"@ { Some(25) }
    else { None }
}

/// PDG code assigned to the field at position `index` of the model: the
/// well-known code, or `9000000 + index + 1` for other fields.
pub open spec fn pdg_code_spec(id: Seq<char>, index: int) -> int {
    match known_pdg_code(id) {
        Some(c) => c,
        None => 9000000 + index + 1,
    }
}

/// Approximate PDG code of a field from its identifier (see [`pdg_code_spec`]).
pub fn ufo_pdg_code(field: &Field, index: usize) -> (code: i32)
    requires
        index < 2138483647,
    ensures
        code == pdg_code_spec(field.id@, index as int),
{
    let id = field.id.as_str();
    if str_eq(id, "e-") { 11 }
    else if str_eq(id, "e+") { -11 }
    else if str_eq(id, "mu-") { 13 }
    else if str_eq(id, "mu+") { -13 }
    else if str_eq(id, "tau-") { 15 }
    else if str_eq(id, "tau+") { -15 }
    else if str_eq(id, "nu_e") { 12 }
    else if str_eq(id, "anti_nu_e") || str_eq(id, "nu_e_bar") { -12 }
    else if str_eq(id, "nu_mu") { 14 }
    else if str_eq(id, "anti_nu_mu") || str_eq(id, "nu_mu_bar") { -14 }
    else if str_eq(id, "nu_tau") { 16 }
    else if str_eq(id, "anti_nu_tau") || str_eq(id, "nu_tau_bar") { -16 }
    else if str_eq(id, "u") { 2 }
    else if str_eq(id, "u_bar") || str_eq(id, "anti_u") { -2 }
    else if str_eq(id, "d") { 1 }
    else if str_eq(id, "d_bar") || str_eq(id, "anti_d") { -1 }
    else if str_eq(id, "photon") || str_eq(id, "a") || str_eq(id, "gamma") { 22 }
    else if str_eq(id, "Z0") || str_eq(id, "Z") { 23 }
    else if str_eq(id, "W+") { 24 }
    else if str_eq(id, "W-") { -24 }
    else if str_eq(id, "g") || str_eq(id, "gluon") { 21 }
    else if str_eq(id, "H") || str_eq(id, "higgs") { 25 }
    else { 9000000 + (index as i32 + 1) }
}

/// UFO colour code of a colour representation.
pub open spec fn color_code_spec(c: ColorRepresentation) -> int {
    match c {
        ColorRepresentation::Singlet => 1,
        ColorRepresentation::Triplet => 3,
        ColorRepresentation::AntiTriplet => -3,
        ColorRepresentation::Octet => 8,
    }
}

/// UFO colour code of a field (1 singlet, 3 triplet, -3 anti-triplet, 8 octet).
pub fn ufo_color_code(field: &Field) -> (code: i32)
    ensures
        code == color_code_spec(field.quantum_numbers.color),
{
    match field.quantum_numbers.color {
        ColorRepresentation::Singlet => 1,
        ColorRepresentation::Triplet => 3,
        ColorRepresentation::AntiTriplet => -3,
        ColorRepresentation::Octet => 8,
    }
}

/// The Python-safe replacement of one identifier character.
pub open spec fn python_safe_char(c: char) -> char {
    if c == '-' { 'm' } else if c == '+' { 'p' } else if c == ' ' { '_' } else { c }
}

/// Python-safe variable name: `-` becomes `m`, `+` becomes `p`, a space
/// becomes `_`, every other character is kept.
pub open spec fn variable_name_spec(id: Seq<char>) -> Seq<char> {
    id.map_values(|c: char| python_safe_char(c))
}

/// Create a Python-safe variable name from a field identifier.
pub fn ufo_variable_name(id: &str) -> (s: String)
    ensures
        s@ == variable_name_spec(id@),
{
    let cs = to_chars(id);
    let mut s = String::new();
    let mut i: usize = 0;
    while i < cs.len()
        invariant
            cs@ == id@,
            i <= cs@.len(),
            s@ == variable_name_spec(id@).take(i as int),
        decreases cs@.len() - i,
    {
        let c = cs[i];
        let d = if c == '-' { 'm' } else if c == '+' { 'p' } else if c == ' ' { '_' } else { c };
        push_char(&mut s, d);
        assert(variable_name_spec(id@).take(i + 1) =~= variable_name_spec(id@).take(i as int).push(d));
        i = i + 1;
    }
    assert(variable_name_spec(id@).take(cs@.len() as int) =~= variable_name_spec(id@));
    s
}

/// Antiparticle name: a trailing `-` and `+` swap, an `anti_` prefix is
/// dropped, and any other name gets the `anti_` prefix.
pub open spec fn antiname_spec(id: Seq<char>) -> Seq<char> {
    if id.len() > 0 && id.last() == '-' {
        id.drop_last().push('+')
    } else if id.len() > 0 && id.last() == '+' {
        id.drop_last().push('-')
    } else if id.len() >= 5 && id.take(5) == "anti_"@ {
        id.skip(5)
    } else {
        "anti_"@ + id
    }
}

/// Generate an antiparticle name from a field identifier.
pub fn ufo_antiname(id: &str) -> (s: String)
    ensures
        s@ == antiname_spec(id@),
{
    let cs = to_chars(id);
    let n = cs.len();
    if n > 0 && (cs[n - 1] == '-' || cs[n - 1] == '+') {
        let mut s = String::new();
        let mut i: usize = 0;
        while i < n - 1
            invariant
                cs@ == id@,
                n == cs@.len(),
                n > 0,
                i <= n - 1,
                s@ == id@.take(i as int),
            decreases n - 1 - i,
        {
            push_char(&mut s, cs[i]);
            assert(id@.take(i + 1) =~= id@.take(i as int).push(cs@[i as int]));
            i = i + 1;
        }
        assert(id@.take(n - 1) =~= id@.drop_last());
        if cs[n - 1] == '-' {
            push_char(&mut s, '+');
        } else {
            push_char(&mut s, '-');
        }
        return s;
    }
    let mut prefixed = n >= 5;
    if prefixed {
        prefixed = cs[0] == 'a' && cs[1] == 'n' && cs[2] == 't' && cs[3] == 'i' && cs[4] == '_';
        proof {
            reveal_strlit("anti_");
            if prefixed {
                assert(id@.take(5) =~= "anti_"@);
            } else {
                assert(id@.take(5) != "anti_"@) by {
                    if id@.take(5) == "anti_"@ {
                        assert(id@.take(5)[0] == 'a');
                        assert(id@.take(5)[1] == 'n');
                        assert(id@.take(5)[2] == 't');
                        assert(id@.take(5)[3] == 'i');
                        assert(id@.take(5)[4] == '_');
                    }
                }
            }
        }
    }
    if prefixed {
        let mut s = String::new();
        let mut i: usize = 5;
        while i < n
            invariant
                cs@ == id@,
                n == cs@.len(),
                5 <= i <= n,
                s@ == id@.subrange(5, i as int),
            decreases n - i,
        {
            push_char(&mut s, cs[i]);
            assert(id@.subrange(5, i + 1) =~= id@.subrange(5, i as int).push(cs@[i as int]));
            i = i + 1;
        }
        assert(id@.subrange(5, n as int) =~= id@.skip(5));
        s
    } else {
        let mut s = String::from_str("anti_");
        push_str(&mut s, id);
        s
    }
}

/// Whether an `f64` bit pattern encodes a value strictly greater than zero.
pub open spec fn positive_bits(bits: u64) -> bool {
    0 < bits && bits <= 0x7FF0_0000_0000_0000
}

/// Upper-case form of a string (Unicode case mapping, as `str::to_uppercase`).
pub uninterp spec fn uppercase(s: Seq<char>) -> Seq<char>;

/// `str::to_uppercase`.
#[verifier::external_body]
fn to_upper(s: &str) -> (r: String)
    ensures
        r@ == uppercase(s@),
{
    s.to_uppercase()
}

/// Identification part of a UFO particle line.
pub open spec fn ufo_line_names(f: Field, index: int) -> Seq<char> {
    variable_name_spec(f.id@) + " = Particle(pdg_code="@ + int_decimal(pdg_code_spec(f.id@, index))
        + ", name='"@ + f.id@ + "', antiname='"@ + antiname_spec(f.id@)
}

/// Spin and colour part of a UFO particle line.
pub open spec fn ufo_line_codes(f: Field) -> Seq<char> {
    "', spin="@ + int_decimal(f.quantum_numbers.spin.0 + 1)
        + ", color="@ + int_decimal(color_code_spec(f.quantum_numbers.color))
}

/// Mass, width and charge part of a UFO particle line.
pub open spec fn ufo_line_params(f: Field) -> Seq<char> {
    let upper = uppercase(variable_name_spec(f.id@));
    ", mass='M"@ + upper
        + "', width='"@ + (if positive_bits(f.width_bits) { seq!['W'] + upper } else { "ZERO"@ })
        + "', charge="@ + int_decimal(f.quantum_numbers.electric_charge.0 as int) + "/3)"@
}

/// The `Particle(...)` line of the UFO listing for the field at `index`.
pub open spec fn ufo_particle_line(f: Field, index: int) -> Seq<char> {
    ufo_line_names(f, index) + ufo_line_codes(f) + ufo_line_params(f)
}

/// The particle entries of the UFO listing for `fields`, numbered from 0.
pub open spec fn ufo_particle_entries(fields: Seq<Field>) -> Seq<char>
    decreases fields.len(),
{
    if fields.len() == 0 {
        Seq::empty()
    } else {
        ufo_particle_entries(fields.drop_last())
            + seq!['\n'] + ufo_particle_line(fields.last(), fields.len() - 1) + seq!['\n']
    }
}

/// The complete simplified UFO `particles.py` text of a model.
pub open spec fn ufo_particles_py_spec(name: Seq<char>, fields: Seq<Field>) -> Seq<char> {
    "# UFO particles.py — auto-generated by SPIRE\n# Model: "@ + name
        + "\n\nfrom object_library import all_particles, Particle\n"@
        + ufo_particle_entries(fields)
}

fn line_names(f: &Field, index: usize) -> (s: String)
    requires
        index < 2138483647,
    ensures
        s@ == ufo_line_names(*f, index as int),
{
    let mut s = ufo_variable_name(f.id.as_str());
    push_str(&mut s, " = Particle(pdg_code=");
    push_int(&mut s, ufo_pdg_code(f, index) as i64);
    push_str(&mut s, ", name='");
    push_str(&mut s, f.id.as_str());
    push_str(&mut s, "', antiname='");
    let anti = ufo_antiname(f.id.as_str());
    push_str(&mut s, anti.as_str());
    s
}

fn line_codes(f: &Field) -> (s: String)
    ensures
        s@ == ufo_line_codes(*f),
{
    let mut s = String::from_str("', spin=");
    push_int(&mut s, f.quantum_numbers.spin.0 as i64 + 1);
    push_str(&mut s, ", color=");
    push_int(&mut s, ufo_color_code(f) as i64);
    s
}

fn line_params(f: &Field) -> (s: String)
    ensures
        s@ == ufo_line_params(*f),
{
    let var = ufo_variable_name(f.id.as_str());
    let upper = to_upper(var.as_str());
    let mut s = String::from_str(", mass='M");
    push_str(&mut s, upper.as_str());
    push_str(&mut s, "', width='");
    if 0 < f.width_bits && f.width_bits <= 0x7FF0_0000_0000_0000 {
        push_char(&mut s, 'W');
        push_str(&mut s, upper.as_str());
    } else {
        push_str(&mut s, "ZERO");
    }
    push_str(&mut s, "', charge=");
    push_int(&mut s, f.quantum_numbers.electric_charge.0 as i64);
    push_str(&mut s, "/3)");
    s
}

fn push_particle_line(out: &mut String, f: &Field, index: usize)
    requires
        index < 2138483647,
    ensures
        final(out)@ == old(out)@ + ufo_particle_line(*f, index as int),
{
    let a = line_names(f, index);
    let b = line_codes(f);
    let c = line_params(f);
    push_str(out, a.as_str());
    push_str(out, b.as_str());
    push_str(out, c.as_str());
}

impl TheoreticalModel {
    /// Generate the simplified UFO `particles.py` listing of the model: a
    /// header naming the model, then one `Particle(...)` line per field (PDG
    /// code, name, antiname, 2s+1, colour, mass and width parameter names,
    /// charge in thirds), each followed by an empty line.
    pub fn to_ufo_particles_py(&self) -> (s: String)
        requires
            self.fields@.len() < 2138483647,
        ensures
            s@ == ufo_particles_py_spec(self.name@, self.fields@),
    {
        let mut out = String::from_str("# UFO particles.py — auto-generated by SPIRE\n# Model: ");
        push_str(&mut out, self.name.as_str());
        push_str(&mut out, "\n\nfrom object_library import all_particles, Particle\n");
        let ghost head = out@;
        let mut i: usize = 0;
        while i < self.fields.len()
            invariant
                i <= self.fields@.len(),
                self.fields@.len() < 2138483647,
                out@ == head + ufo_particle_entries(self.fields@.take(i as int)),
            decreases self.fields@.len() - i,
        {
            assert(self.fields@.take(i + 1).drop_last() =~= self.fields@.take(i as int));
            push_char(&mut out, '\n');
            push_particle_line(&mut out, &self.fields[i], i);
            push_char(&mut out, '\n');
            i = i + 1;
        }
        assert(self.fields@.take(self.fields@.len() as int) =~= self.fields@);
        out
    }
}


proof fn lemma_pdg_electron(i: int, j: int)
    ensures
        pdg_code_spec("e-"@, i) == 11,
        pdg_code_spec(antiname_spec("e-"@), j) == -11,
        pdg_code_spec(antiname_spec(antiname_spec("e-"@)), j) == 11,
{
    reveal_strlit("e-");
    reveal_strlit("e+");
    reveal_strlit("mu-");
    reveal_strlit("mu+");
    reveal_strlit("tau-");
    reveal_strlit("tau+");
    reveal_strlit("nu_e");
    reveal_strlit("anti_nu_e");
    reveal_strlit("nu_e_bar");
    reveal_strlit("nu_mu");
    reveal_strlit("anti_nu_mu");
    reveal_strlit("nu_mu_bar");
    reveal_strlit("nu_tau");
    reveal_strlit("anti_nu_tau");
    reveal_strlit("nu_tau_bar");
    reveal_strlit("u");
    reveal_strlit("u_bar");
    reveal_strlit("anti_u");
    reveal_strlit("d");
    reveal_strlit("d_bar");
    reveal_strlit("anti_d");
    reveal_strlit("photon");
    reveal_strlit("a");
    reveal_strlit("gamma");
    reveal_strlit("Z0");
    reveal_strlit("Z");
    reveal_strlit("W+");
    reveal_strlit("W-");
    reveal_strlit("g");
    reveal_strlit("gluon");
    reveal_strlit("H");
    reveal_strlit("higgs");
    reveal_strlit("anti_");
    assert("e-"@[1] != "e+"@[1]);
    assert("e-"@[0] != "Z0"@[0]);
    assert("e-"@[0] != "W+"@[0]);
    assert("e-"@[0] != "W-"@[0]);
    assert("e+"@[1] != "e-"@[1]);
    assert("e+"@[0] != "Z0"@[0]);
    assert("e+"@[0] != "W+"@[0]);
    assert("e+"@[0] != "W-"@[0]);
    assert(antiname_spec("e-"@) =~= "e+"@);
    assert(antiname_spec("e+"@) =~= "e-"@);
}

proof fn lemma_pdg_muon(i: int, j: int)
    ensures
        pdg_code_spec("mu-"@, i) == 13,
        pdg_code_spec(antiname_spec("mu-"@), j) == -13,
        pdg_code_spec(antiname_spec(antiname_spec("mu-"@)), j) == 13,
{
    reveal_strlit("e-");
    reveal_strlit("e+");
    reveal_strlit("mu-");
    reveal_strlit("mu+");
    reveal_strlit("tau-");
    reveal_strlit("tau+");
    reveal_strlit("nu_e");
    reveal_strlit("anti_nu_e");
    reveal_strlit("nu_e_bar");
    reveal_strlit("nu_mu");
    reveal_strlit("anti_nu_mu");
    reveal_strlit("nu_mu_bar");
    reveal_strlit("nu_tau");
    reveal_strlit("anti_nu_tau");
    reveal_strlit("nu_tau_bar");
    reveal_strlit("u");
    reveal_strlit("u_bar");
    reveal_strlit("anti_u");
    reveal_strlit("d");
    reveal_strlit("d_bar");
    reveal_strlit("anti_d");
    reveal_strlit("photon");
    reveal_strlit("a");
    reveal_strlit("gamma");
    reveal_strlit("Z0");
    reveal_strlit("Z");
    reveal_strlit("W+");
    reveal_strlit("W-");
    reveal_strlit("g");
    reveal_strlit("gluon");
    reveal_strlit("H");
    reveal_strlit("higgs");
    reveal_strlit("anti_");
    assert("mu-"@[2] != "mu+"@[2]);
    assert("mu+"@[2] != "mu-"@[2]);
    assert(antiname_spec("mu-"@) =~= "mu+"@);
    assert(antiname_spec("mu+"@) =~= "mu-"@);
}

proof fn lemma_pdg_tau(i: int, j: int)
    ensures
        pdg_code_spec("tau-"@, i) == 15,
        pdg_code_spec(antiname_spec("tau-"@), j) == -15,
        pdg_code_spec(antiname_spec(antiname_spec("tau-"@)), j) == 15,
{
    reveal_strlit("e-");
    reveal_strlit("e+");
    reveal_strlit("mu-");
    reveal_strlit("mu+");
    reveal_strlit("tau-");
    reveal_strlit("tau+");
    reveal_strlit("nu_e");
    reveal_strlit("anti_nu_e");
    reveal_strlit("nu_e_bar");
    reveal_strlit("nu_mu");
    reveal_strlit("anti_nu_mu");
    reveal_strlit("nu_mu_bar");
    reveal_strlit("nu_tau");
    reveal_strlit("anti_nu_tau");
    reveal_strlit("nu_tau_bar");
    reveal_strlit("u");
    reveal_strlit("u_bar");
    reveal_strlit("anti_u");
    reveal_strlit("d");
    reveal_strlit("d_bar");
    reveal_strlit("anti_d");
    reveal_strlit("photon");
    reveal_strlit("a");
    reveal_strlit("gamma");
    reveal_strlit("Z0");
    reveal_strlit("Z");
    reveal_strlit("W+");
    reveal_strlit("W-");
    reveal_strlit("g");
    reveal_strlit("gluon");
    reveal_strlit("H");
    reveal_strlit("higgs");
    reveal_strlit("anti_");
    assert("tau-"@[3] != "tau+"@[3]);
    assert("tau-"@[0] != "nu_e"@[0]);
    assert("tau+"@[3] != "tau-"@[3]);
    assert("tau+"@[0] != "nu_e"@[0]);
    assert(antiname_spec("tau-"@) =~= "tau+"@);
    assert(antiname_spec("tau+"@) =~= "tau-"@);
}

proof fn lemma_pdg_nu_e(i: int, j: int)
    ensures
        pdg_code_spec("nu_e"@, i) == 12,
        pdg_code_spec(antiname_spec("nu_e"@), j) == -12,
        pdg_code_spec(antiname_spec(antiname_spec("nu_e"@)), j) == 12,
{
    reveal_strlit("e-");
    reveal_strlit("e+");
    reveal_strlit("mu-");
    reveal_strlit("mu+");
    reveal_strlit("tau-");
    reveal_strlit("tau+");
    reveal_strlit("nu_e");
    reveal_strlit("anti_nu_e");
    reveal_strlit("nu_e_bar");
    reveal_strlit("nu_mu");
    reveal_strlit("anti_nu_mu");
    reveal_strlit("nu_mu_bar");
    reveal_strlit("nu_tau");
    reveal_strlit("anti_nu_tau");
    reveal_strlit("nu_tau_bar");
    reveal_strlit("u");
    reveal_strlit("u_bar");
    reveal_strlit("anti_u");
    reveal_strlit("d");
    reveal_strlit("d_bar");
    reveal_strlit("anti_d");
    reveal_strlit("photon");
    reveal_strlit("a");
    reveal_strlit("gamma");
    reveal_strlit("Z0");
    reveal_strlit("Z");
    reveal_strlit("W+");
    reveal_strlit("W-");
    reveal_strlit("g");
    reveal_strlit("gluon");
    reveal_strlit("H");
    reveal_strlit("higgs");
    reveal_strlit("anti_");
    assert("nu_e"@[0] != "tau-"@[0]);
    assert("nu_e"@[0] != "tau+"@[0]);
    assert("anti_nu_e"@[0] != "nu_mu_bar"@[0]);
    assert(antiname_spec("nu_e"@) =~= "anti_nu_e"@);
    assert("anti_nu_e"@.take(5) =~= "anti_"@);
    assert(antiname_spec("anti_nu_e"@) =~= "nu_e"@);
}

proof fn lemma_pdg_nu_mu(i: int, j: int)
    ensures
        pdg_code_spec("nu_mu"@, i) == 14,
        pdg_code_spec(antiname_spec("nu_mu"@), j) == -14,
        pdg_code_spec(antiname_spec(antiname_spec("nu_mu"@)), j) == 14,
{
    reveal_strlit("e-");
    reveal_strlit("e+");
    reveal_strlit("mu-");
    reveal_strlit("mu+");
    reveal_strlit("tau-");
    reveal_strlit("tau+");
    reveal_strlit("nu_e");
    reveal_strlit("anti_nu_e");
    reveal_strlit("nu_e_bar");
    reveal_strlit("nu_mu");
    reveal_strlit("anti_nu_mu");
    reveal_strlit("nu_mu_bar");
    reveal_strlit("nu_tau");
    reveal_strlit("anti_nu_tau");
    reveal_strlit("nu_tau_bar");
    reveal_strlit("u");
    reveal_strlit("u_bar");
    reveal_strlit("anti_u");
    reveal_strlit("d");
    reveal_strlit("d_bar");
    reveal_strlit("anti_d");
    reveal_strlit("photon");
    reveal_strlit("a");
    reveal_strlit("gamma");
    reveal_strlit("Z0");
    reveal_strlit("Z");
    reveal_strlit("W+");
    reveal_strlit("W-");
    reveal_strlit("g");
    reveal_strlit("gluon");
    reveal_strlit("H");
    reveal_strlit("higgs");
    reveal_strlit("anti_");
    assert("nu_mu"@[0] != "u_bar"@[0]);
    assert("nu_mu"@[0] != "d_bar"@[0]);
    assert("nu_mu"@[0] != "gamma"@[0]);
    assert("nu_mu"@[0] != "gluon"@[0]);
    assert("nu_mu"@[0] != "higgs"@[0]);
    assert("nu_mu"@[0] != "anti_"@[0]);
    assert("anti_nu_mu"@[0] != "nu_tau_bar"@[0]);
    assert("nu_mu"@.take(5)[0] != "anti_"@[0]);
    assert(antiname_spec("nu_mu"@) =~= "anti_nu_mu"@);
    assert("anti_nu_mu"@.take(5) =~= "anti_"@);
    assert(antiname_spec("anti_nu_mu"@) =~= "nu_mu"@);
}

proof fn lemma_pdg_nu_tau(i: int, j: int)
    ensures
        pdg_code_spec("nu_tau"@, i) == 16,
        pdg_code_spec(antiname_spec("nu_tau"@), j) == -16,
        pdg_code_spec(antiname_spec(antiname_spec("nu_tau"@)), j) == 16,
{
    reveal_strlit("e-");
    reveal_strlit("e+");
    reveal_strlit("mu-");
    reveal_strlit("mu+");
    reveal_strlit("tau-");
    reveal_strlit("tau+");
    reveal_strlit("nu_e");
    reveal_strlit("anti_nu_e");
    reveal_strlit("nu_e_bar");
    reveal_strlit("nu_mu");
    reveal_strlit("anti_nu_mu");
    reveal_strlit("nu_mu_bar");
    reveal_strlit("nu_tau");
    reveal_strlit("anti_nu_tau");
    reveal_strlit("nu_tau_bar");
    reveal_strlit("u");
    reveal_strlit("u_bar");
    reveal_strlit("anti_u");
    reveal_strlit("d");
    reveal_strlit("d_bar");
    reveal_strlit("anti_d");
    reveal_strlit("photon");
    reveal_strlit("a");
    reveal_strlit("gamma");
    reveal_strlit("Z0");
    reveal_strlit("Z");
    reveal_strlit("W+");
    reveal_strlit("W-");
    reveal_strlit("g");
    reveal_strlit("gluon");
    reveal_strlit("H");
    reveal_strlit("higgs");
    reveal_strlit("anti_");
    assert("nu_tau"@[0] != "anti_u"@[0]);
    assert("nu_tau"@[0] != "anti_d"@[0]);
    assert("nu_tau"@[0] != "photon"@[0]);
    assert("nu_tau"@.take(5)[0] != "anti_"@[0]);
    assert(antiname_spec("nu_tau"@) =~= "anti_nu_tau"@);
    assert("anti_nu_tau"@.take(5) =~= "anti_"@);
    assert(antiname_spec("anti_nu_tau"@) =~= "nu_tau"@);
}

proof fn lemma_pdg_up(i: int, j: int)
    ensures
        pdg_code_spec("u"@, i) == 2,
        pdg_code_spec(antiname_spec("u"@), j) == -2,
        pdg_code_spec(antiname_spec(antiname_spec("u"@)), j) == 2,
{
    reveal_strlit("e-");
    reveal_strlit("e+");
    reveal_strlit("mu-");
    reveal_strlit("mu+");
    reveal_strlit("tau-");
    reveal_strlit("tau+");
    reveal_strlit("nu_e");
    reveal_strlit("anti_nu_e");
    reveal_strlit("nu_e_bar");
    reveal_strlit("nu_mu");
    reveal_strlit("anti_nu_mu");
    reveal_strlit("nu_mu_bar");
    reveal_strlit("nu_tau");
    reveal_strlit("anti_nu_tau");
    reveal_strlit("nu_tau_bar");
    reveal_strlit("u");
    reveal_strlit("u_bar");
    reveal_strlit("anti_u");
    reveal_strlit("d");
    reveal_strlit("d_bar");
    reveal_strlit("anti_d");
    reveal_strlit("photon");
    reveal_strlit("a");
    reveal_strlit("gamma");
    reveal_strlit("Z0");
    reveal_strlit("Z");
    reveal_strlit("W+");
    reveal_strlit("W-");
    reveal_strlit("g");
    reveal_strlit("gluon");
    reveal_strlit("H");
    reveal_strlit("higgs");
    reveal_strlit("anti_");
    assert("u"@[0] != "d"@[0]);
    assert("u"@[0] != "a"@[0]);
    assert("u"@[0] != "Z"@[0]);
    assert("u"@[0] != "g"@[0]);
    assert("u"@[0] != "H"@[0]);
    assert("anti_u"@[0] != "nu_tau"@[0]);
    assert("anti_u"@[5] != "anti_d"@[5]);
    assert("anti_u"@[0] != "photon"@[0]);
    assert(antiname_spec("u"@) =~= "anti_u"@);
    assert("anti_u"@.take(5) =~= "anti_"@);
    assert(antiname_spec("anti_u"@) =~= "u"@);
}

proof fn lemma_pdg_down(i: int, j: int)
    ensures
        pdg_code_spec("d"@, i) == 1,
        pdg_code_spec(antiname_spec("d"@), j) == -1,
        pdg_code_spec(antiname_spec(antiname_spec("d"@)), j) == 1,
{
    reveal_strlit("e-");
    reveal_strlit("e+");
    reveal_strlit("mu-");
    reveal_strlit("mu+");
    reveal_strlit("tau-");
    reveal_strlit("tau+");
    reveal_strlit("nu_e");
    reveal_strlit("anti_nu_e");
    reveal_strlit("nu_e_bar");
    reveal_strlit("nu_mu");
    reveal_strlit("anti_nu_mu");
    reveal_strlit("nu_mu_bar");
    reveal_strlit("nu_tau");
    reveal_strlit("anti_nu_tau");
    reveal_strlit("nu_tau_bar");
    reveal_strlit("u");
    reveal_strlit("u_bar");
    reveal_strlit("anti_u");
    reveal_strlit("d");
    reveal_strlit("d_bar");
    reveal_strlit("anti_d");
    reveal_strlit("photon");
    reveal_strlit("a");
    reveal_strlit("gamma");
    reveal_strlit("Z0");
    reveal_strlit("Z");
    reveal_strlit("W+");
    reveal_strlit("W-");
    reveal_strlit("g");
    reveal_strlit("gluon");
    reveal_strlit("H");
    reveal_strlit("higgs");
    reveal_strlit("anti_");
    assert("d"@[0] != "u"@[0]);
    assert("d"@[0] != "a"@[0]);
    assert("d"@[0] != "Z"@[0]);
    assert("d"@[0] != "g"@[0]);
    assert("d"@[0] != "H"@[0]);
    assert("anti_d"@[0] != "nu_tau"@[0]);
    assert("anti_d"@[5] != "anti_u"@[5]);
    assert("anti_d"@[0] != "photon"@[0]);
    assert(antiname_spec("d"@) =~= "anti_d"@);
    assert("anti_d"@.take(5) =~= "anti_"@);
    assert(antiname_spec("anti_d"@) =~= "d"@);
}

proof fn lemma_pdg_w(i: int, j: int)
    ensures
        pdg_code_spec("W+"@, i) == 24,
        pdg_code_spec(antiname_spec("W+"@), j) == -24,
        pdg_code_spec(antiname_spec(antiname_spec("W+"@)), j) == 24,
{
    reveal_strlit("e-");
    reveal_strlit("e+");
    reveal_strlit("mu-");
    reveal_strlit("mu+");
    reveal_strlit("tau-");
    reveal_strlit("tau+");
    reveal_strlit("nu_e");
    reveal_strlit("anti_nu_e");
    reveal_strlit("nu_e_bar");
    reveal_strlit("nu_mu");
    reveal_strlit("anti_nu_mu");
    reveal_strlit("nu_mu_bar");
    reveal_strlit("nu_tau");
    reveal_strlit("anti_nu_tau");
    reveal_strlit("nu_tau_bar");
    reveal_strlit("u");
    reveal_strlit("u_bar");
    reveal_strlit("anti_u");
    reveal_strlit("d");
    reveal_strlit("d_bar");
    reveal_strlit("anti_d");
    reveal_strlit("photon");
    reveal_strlit("a");
    reveal_strlit("gamma");
    reveal_strlit("Z0");
    reveal_strlit("Z");
    reveal_strlit("W+");
    reveal_strlit("W-");
    reveal_strlit("g");
    reveal_strlit("gluon");
    reveal_strlit("H");
    reveal_strlit("higgs");
    reveal_strlit("anti_");
    assert("W+"@[0] != "e-"@[0]);
    assert("W+"@[0] != "e+"@[0]);
    assert("W+"@[0] != "Z0"@[0]);
    assert("W+"@[1] != "W-"@[1]);
    assert("W-"@[0] != "e-"@[0]);
    assert("W-"@[0] != "e+"@[0]);
    assert("W-"@[0] != "Z0"@[0]);
    assert("W-"@[1] != "W+"@[1]);
    assert(antiname_spec("W+"@) =~= "W-"@);
    assert(antiname_spec("W-"@) =~= "W+"@);
}

proof fn lemma_pdg_photon(i: int)
    ensures
        pdg_code_spec("photon"@, i) == 22,
{
    reveal_strlit("e-");
    reveal_strlit("e+");
    reveal_strlit("mu-");
    reveal_strlit("mu+");
    reveal_strlit("tau-");
    reveal_strlit("tau+");
    reveal_strlit("nu_e");
    reveal_strlit("anti_nu_e");
    reveal_strlit("nu_e_bar");
    reveal_strlit("nu_mu");
    reveal_strlit("anti_nu_mu");
    reveal_strlit("nu_mu_bar");
    reveal_strlit("nu_tau");
    reveal_strlit("anti_nu_tau");
    reveal_strlit("nu_tau_bar");
    reveal_strlit("u");
    reveal_strlit("u_bar");
    reveal_strlit("anti_u");
    reveal_strlit("d");
    reveal_strlit("d_bar");
    reveal_strlit("anti_d");
    reveal_strlit("photon");
    reveal_strlit("a");
    reveal_strlit("gamma");
    reveal_strlit("Z0");
    reveal_strlit("Z");
    reveal_strlit("W+");
    reveal_strlit("W-");
    reveal_strlit("g");
    reveal_strlit("gluon");
    reveal_strlit("H");
    reveal_strlit("higgs");
    reveal_strlit("anti_");
    assert("photon"@[0] != "nu_tau"@[0]);
    assert("photon"@[0] != "anti_u"@[0]);
    assert("photon"@[0] != "anti_d"@[0]);
}

proof fn lemma_pdg_z(i: int)
    ensures
        pdg_code_spec("Z0"@, i) == 23,
{
    reveal_strlit("e-");
    reveal_strlit("e+");
    reveal_strlit("mu-");
    reveal_strlit("mu+");
    reveal_strlit("tau-");
    reveal_strlit("tau+");
    reveal_strlit("nu_e");
    reveal_strlit("anti_nu_e");
    reveal_strlit("nu_e_bar");
    reveal_strlit("nu_mu");
    reveal_strlit("anti_nu_mu");
    reveal_strlit("nu_mu_bar");
    reveal_strlit("nu_tau");
    reveal_strlit("anti_nu_tau");
    reveal_strlit("nu_tau_bar");
    reveal_strlit("u");
    reveal_strlit("u_bar");
    reveal_strlit("anti_u");
    reveal_strlit("d");
    reveal_strlit("d_bar");
    reveal_strlit("anti_d");
    reveal_strlit("photon");
    reveal_strlit("a");
    reveal_strlit("gamma");
    reveal_strlit("Z0");
    reveal_strlit("Z");
    reveal_strlit("W+");
    reveal_strlit("W-");
    reveal_strlit("g");
    reveal_strlit("gluon");
    reveal_strlit("H");
    reveal_strlit("higgs");
    reveal_strlit("anti_");
    assert("Z0"@[0] != "e-"@[0]);
    assert("Z0"@[0] != "e+"@[0]);
    assert("Z0"@[0] != "W+"@[0]);
    assert("Z0"@[0] != "W-"@[0]);
}

proof fn lemma_pdg_gluon(i: int)
    ensures
        pdg_code_spec("g"@, i) == 21,
{
    reveal_strlit("e-");
    reveal_strlit("e+");
    reveal_strlit("mu-");
    reveal_strlit("mu+");
    reveal_strlit("tau-");
    reveal_strlit("tau+");
    reveal_strlit("nu_e");
    reveal_strlit("anti_nu_e");
    reveal_strlit("nu_e_bar");
    reveal_strlit("nu_mu");
    reveal_strlit("anti_nu_mu");
    reveal_strlit("nu_mu_bar");
    reveal_strlit("nu_tau");
    reveal_strlit("anti_nu_tau");
    reveal_strlit("nu_tau_bar");
    reveal_strlit("u");
    reveal_strlit("u_bar");
    reveal_strlit("anti_u");
    reveal_strlit("d");
    reveal_strlit("d_bar");
    reveal_strlit("anti_d");
    reveal_strlit("photon");
    reveal_strlit("a");
    reveal_strlit("gamma");
    reveal_strlit("Z0");
    reveal_strlit("Z");
    reveal_strlit("W+");
    reveal_strlit("W-");
    reveal_strlit("g");
    reveal_strlit("gluon");
    reveal_strlit("H");
    reveal_strlit("higgs");
    reveal_strlit("anti_");
    assert("g"@[0] != "u"@[0]);
    assert("g"@[0] != "d"@[0]);
    assert("g"@[0] != "a"@[0]);
    assert("g"@[0] != "Z"@[0]);
    assert("g"@[0] != "H"@[0]);
    assert("g"@.len() != "gamma"@.len());
}

proof fn lemma_pdg_higgs(i: int)
    ensures
        pdg_code_spec("H"@, i) == 25,
{
    reveal_strlit("e-");
    reveal_strlit("e+");
    reveal_strlit("mu-");
    reveal_strlit("mu+");
    reveal_strlit("tau-");
    reveal_strlit("tau+");
    reveal_strlit("nu_e");
    reveal_strlit("anti_nu_e");
    reveal_strlit("nu_e_bar");
    reveal_strlit("nu_mu");
    reveal_strlit("anti_nu_mu");
    reveal_strlit("nu_mu_bar");
    reveal_strlit("nu_tau");
    reveal_strlit("anti_nu_tau");
    reveal_strlit("nu_tau_bar");
    reveal_strlit("u");
    reveal_strlit("u_bar");
    reveal_strlit("anti_u");
    reveal_strlit("d");
    reveal_strlit("d_bar");
    reveal_strlit("anti_d");
    reveal_strlit("photon");
    reveal_strlit("a");
    reveal_strlit("gamma");
    reveal_strlit("Z0");
    reveal_strlit("Z");
    reveal_strlit("W+");
    reveal_strlit("W-");
    reveal_strlit("g");
    reveal_strlit("gluon");
    reveal_strlit("H");
    reveal_strlit("higgs");
    reveal_strlit("anti_");
    assert("H"@[0] != "u"@[0]);
    assert("H"@[0] != "d"@[0]);
    assert("H"@[0] != "a"@[0]);
    assert("H"@[0] != "Z"@[0]);
    assert("H"@[0] != "g"@[0]);
}

/// The PDG numbering of the particles the UFO export recognises, with
/// antiparticles numbered by the negative of their particle's number: the
/// charged leptons 11, 13, 15, their neutrinos 12, 14, 16, the down and up
/// quarks 1 and 2 and the W+ 24, each with the antiparticle named by
/// [`antiname_spec`] at minus that number (and back again); the photon 22,
/// the Z 23, the gluon 21 and the Higgs 25. At every model position.
pub proof fn lemma_pdg_codes_standard(i: int, j: int)
    ensures
        pdg_code_spec("e-"@, i) == 11,
        pdg_code_spec(antiname_spec("e-"@), j) == -11,
        pdg_code_spec(antiname_spec(antiname_spec("e-"@)), j) == 11,
        pdg_code_spec("mu-"@, i) == 13,
        pdg_code_spec(antiname_spec("mu-"@), j) == -13,
        pdg_code_spec(antiname_spec(antiname_spec("mu-"@)), j) == 13,
        pdg_code_spec("tau-"@, i) == 15,
        pdg_code_spec(antiname_spec("tau-"@), j) == -15,
        pdg_code_spec(antiname_spec(antiname_spec("tau-"@)), j) == 15,
        pdg_code_spec("nu_e"@, i) == 12,
        pdg_code_spec(antiname_spec("nu_e"@), j) == -12,
        pdg_code_spec(antiname_spec(antiname_spec("nu_e"@)), j) == 12,
        pdg_code_spec("nu_mu"@, i) == 14,
        pdg_code_spec(antiname_spec("nu_mu"@), j) == -14,
        pdg_code_spec(antiname_spec(antiname_spec("nu_mu"@)), j) == 14,
        pdg_code_spec("nu_tau"@, i) == 16,
        pdg_code_spec(antiname_spec("nu_tau"@), j) == -16,
        pdg_code_spec(antiname_spec(antiname_spec("nu_tau"@)), j) == 16,
        pdg_code_spec("u"@, i) == 2,
        pdg_code_spec(antiname_spec("u"@), j) == -2,
        pdg_code_spec(antiname_spec(antiname_spec("u"@)), j) == 2,
        pdg_code_spec("d"@, i) == 1,
        pdg_code_spec(antiname_spec("d"@), j) == -1,
        pdg_code_spec(antiname_spec(antiname_spec("d"@)), j) == 1,
        pdg_code_spec("W+"@, i) == 24,
        pdg_code_spec(antiname_spec("W+"@), j) == -24,
        pdg_code_spec(antiname_spec(antiname_spec("W+"@)), j) == 24,
        pdg_code_spec("photon"@, i) == 22,
        pdg_code_spec("Z0"@, i) == 23,
        pdg_code_spec("g"@, i) == 21,
        pdg_code_spec("H"@, i) == 25,
{
    lemma_pdg_electron(i, j);
    lemma_pdg_muon(i, j);
    lemma_pdg_tau(i, j);
    lemma_pdg_nu_e(i, j);
    lemma_pdg_nu_mu(i, j);
    lemma_pdg_nu_tau(i, j);
    lemma_pdg_up(i, j);
    lemma_pdg_down(i, j);
    lemma_pdg_w(i, j);
    lemma_pdg_photon(i);
    lemma_pdg_z(i);
    lemma_pdg_gluon(i);
    lemma_pdg_higgs(i);
}

} // verus!
