//! # Ontology — formal definitions of physical entities
//!
//! Particles are irreducible representations of the Poincaré group and of the
//! internal gauge groups. A particle is described by its mass, spin and a
//! vector of quantum numbers; additive quantum numbers are stored as scaled
//! integers so that fractional charges stay exact.
//!
//! Real-valued quantities (masses, widths, momenta) are carried through this
//! crate as the IEEE-754 bit patterns of their `f64` values (`f64::to_bits`):
//! the verified logic copies them but never computes with them.
use vstd::prelude::*;

use crate::groups::{LieGroup, LieGroupRepresentation};
use crate::text::{int_decimal, nat_decimal, push_int, push_nat, push_str};
use crate::SpireError;

verus! {

/// Spin of a particle, stored as twice the spin (spin-½ is `Spin(1)`).
#[derive(Debug, Clone, Copy, PartialEq, Eq, Structural, Hash)]
pub struct Spin(pub u8);

/// Chirality projection of a fermion field.
#[derive(Debug, Clone, Copy, PartialEq, Eq, Structural, Hash)]
pub enum Chirality {
    /// Left-handed Weyl component.
    Left,
    /// Right-handed Weyl component.
    Right,
}

/// Projection of the spin on the direction of motion.
#[derive(Debug, Clone, Copy, PartialEq, Eq, Structural, Hash)]
pub enum Helicity {
    /// Spin aligned with momentum.
    Plus,
    /// Spin anti-aligned with momentum.
    Minus,
}

/// Electric charge in units of e/3 (quarks carry ±1 and ±2).
#[derive(Debug, Clone, Copy, PartialEq, Eq, Structural, Hash)]
pub struct ElectricCharge(pub i8);

/// Twice the third component of weak isospin.
#[derive(Debug, Clone, Copy, PartialEq, Eq, Structural, Hash)]
pub struct WeakIsospin(pub i8);

/// Hypercharge in units of 1/3.
#[derive(Debug, Clone, Copy, PartialEq, Eq, Structural, Hash)]
pub struct Hypercharge(pub i8);

/// Three times the baryon number.
#[derive(Debug, Clone, Copy, PartialEq, Eq, Structural, Hash)]
pub struct BaryonNumber(pub i8);

/// Lepton family numbers.
#[derive(Debug, Clone, Copy, PartialEq, Eq, Structural, Hash)]
pub struct LeptonNumbers {
    /// Electron number.
    pub electron: i8,
    /// Muon number.
    pub muon: i8,
    /// Tau number.
    pub tau: i8,
}

/// Intrinsic parity.
#[derive(Debug, Clone, Copy, PartialEq, Eq, Structural, Hash)]
pub enum Parity {
    /// P = +1.
    Even,
    /// P = -1.
    Odd,
}

/// Charge-conjugation eigenvalue.
#[derive(Debug, Clone, Copy, PartialEq, Eq, Structural, Hash)]
pub enum ChargeConjugation {
    /// C = +1.
    Even,
    /// C = -1.
    Odd,
    /// Not a C eigenstate.
    Undefined,
}

/// Colour representation under SU(3)_C.
#[derive(Debug, Clone, Copy, PartialEq, Eq, Structural, Hash)]
pub enum ColorRepresentation {
    /// Colour singlet.
    Singlet,
    /// Fundamental triplet (quarks).
    Triplet,
    /// Anti-triplet (antiquarks).
    AntiTriplet,
    /// Adjoint octet (gluons).
    Octet,
}

/// Position of a field inside its SU(2)_L multiplet.
#[derive(Debug, Clone, Copy, PartialEq, Eq, Structural, Hash)]
pub enum WeakMultiplet {
    /// Weak singlet.
    Singlet,
    /// Upper doublet component.
    DoubletUp,
    /// Lower doublet component.
    DoubletDown,
    /// Member of a triplet.
    Triplet(i8),
}

/// Interaction class of a vertex or process.
#[derive(Debug, Clone, Copy, PartialEq, Eq, Structural, Hash)]
pub enum InteractionType {
    /// Electromagnetic.
    Electromagnetic,
    /// Weak charged current.
    WeakCC,
    /// Weak neutral current.
    WeakNC,
    /// Strong.
    Strong,
    /// Yukawa.
    Yukawa,
    /// Scalar self-interaction.
    ScalarSelf,
}

/// On-shell (external) or off-shell (internal) state.
#[derive(Debug, Clone, Copy, PartialEq, Eq, Structural, Hash)]
pub enum ShellCondition {
    /// p² = m².
    OnShell,
    /// p² ≠ m².
    OffShell,
}

/// Complete set of quantum numbers of a particle.
#[derive(Debug)]
pub struct QuantumNumbers {
    pub electric_charge: ElectricCharge,
    pub weak_isospin: WeakIsospin,
    pub hypercharge: Hypercharge,
    pub baryon_number: BaryonNumber,
    pub lepton_numbers: LeptonNumbers,
    pub spin: Spin,
    pub parity: Parity,
    pub charge_conjugation: ChargeConjugation,
    pub color: ColorRepresentation,
    pub weak_multiplet: WeakMultiplet,
    /// Representations under the factors of a general gauge group.
    pub representations: Vec<LieGroupRepresentation>,
}

/// A quantum field.
#[derive(Debug)]
pub struct Field {
    /// Unique identifier (e.g. `"e-"`).
    pub id: String,
    /// Display name.
    pub name: String,
    /// LaTeX symbol.
    pub symbol: String,
    /// Rest mass in GeV, as the bit pattern of an `f64`.
    pub mass_bits: u64,
    /// Total width in GeV, as the bit pattern of an `f64`.
    pub width_bits: u64,
    /// Quantum numbers.
    pub quantum_numbers: QuantumNumbers,
    /// Interactions the field takes part in.
    pub interactions: Vec<InteractionType>,
}

/// An excitation of a field appearing on a diagram line.
#[derive(Debug)]
pub struct Particle {
    /// Underlying field.
    pub field: Field,
    /// On- or off-shell.
    pub shell: ShellCondition,
    /// Helicity, where assigned.
    pub helicity: Option<Helicity>,
    /// Chirality, where projected.
    pub chirality: Option<Chirality>,
    /// Antiparticle flag.
    pub is_anti: bool,
}

/// An asymptotic state: a particle with its four-momentum.
#[derive(Debug)]
pub struct QuantumState {
    /// The particle.
    pub particle: Particle,
    /// `[E, px, py, pz]` in GeV, as `f64` bit patterns.
    pub four_momentum_bits: [u64; 4],
    /// Covariant normalisation, as an `f64` bit pattern.
    pub normalization_bits: u64,
}

// ---------------------------------------------------------------------------
// Specifications
// ---------------------------------------------------------------------------

/// Bit mask of the sign of an `f64`; negating an `f64` flips exactly this bit.
pub const F64_SIGN_BIT: u64 = 0x8000_0000_0000_0000u64;

/// The sign-flipped bit pattern (the pattern of `-x` for the `f64` `x`).
pub open spec fn neg_bits(bits: u64) -> u64 {
    bits ^ F64_SIGN_BIT
}

/// The conjugate of a representation under a Lie group factor.
pub open spec fn conjugate_rep_matches(r: LieGroupRepresentation, c: LieGroupRepresentation) -> bool {
    &&& c.group == r.group
    &&& c.dimension == r.dimension
    &&& c.label@ == r.label@
    &&& match r.group {
        LieGroup::U1 { .. } => {
            &&& c.charge_bits == (match r.charge_bits {
                Some(b) => Some(neg_bits(b)),
                None => None::<u64>,
            })
            &&& c.is_conjugate == r.is_conjugate
            &&& c.dynkin_labels@ == r.dynkin_labels@
        },
        LieGroup::SU { .. } => {
            &&& c.charge_bits == r.charge_bits
            &&& c.is_conjugate == !r.is_conjugate
            &&& c.dynkin_labels@ == r.dynkin_labels@.reverse()
        },
        LieGroup::SO { .. } => {
            &&& c.charge_bits == r.charge_bits
            &&& c.is_conjugate == !r.is_conjugate
            &&& c.dynkin_labels@ == r.dynkin_labels@
        },
    }
}

/// Element-wise conjugation of a list of representations.
pub open spec fn conjugate_reps_match(rs: Seq<LieGroupRepresentation>, cs: Seq<LieGroupRepresentation>) -> bool {
    &&& cs.len() == rs.len()
    &&& forall|i: int| 0 <= i < rs.len() ==> #[trigger] conjugate_rep_matches(rs[i], cs[i])
}

/// Colour representation of the antiparticle.
pub open spec fn conjugate_color(c: ColorRepresentation) -> ColorRepresentation {
    match c {
        ColorRepresentation::Triplet => ColorRepresentation::AntiTriplet,
        ColorRepresentation::AntiTriplet => ColorRepresentation::Triplet,
        other => other,
    }
}

/// All additive quantum numbers can be negated without leaving `i8`.
pub open spec fn negatable(qn: QuantumNumbers) -> bool {
    &&& qn.electric_charge.0 != i8::MIN
    &&& qn.weak_isospin.0 != i8::MIN
    &&& qn.hypercharge.0 != i8::MIN
    &&& qn.baryon_number.0 != i8::MIN
    &&& qn.lepton_numbers.electron != i8::MIN
    &&& qn.lepton_numbers.muon != i8::MIN
    &&& qn.lepton_numbers.tau != i8::MIN
}

/// `c` is the charge conjugate of `q`: additive numbers negated, colour
/// swapped, gauge representations conjugated, everything else kept.
pub open spec fn conjugate_qn_matches(q: QuantumNumbers, c: QuantumNumbers) -> bool {
    &&& c.electric_charge.0 == -q.electric_charge.0
    &&& c.weak_isospin.0 == -q.weak_isospin.0
    &&& c.hypercharge.0 == -q.hypercharge.0
    &&& c.baryon_number.0 == -q.baryon_number.0
    &&& c.lepton_numbers.electron == -q.lepton_numbers.electron
    &&& c.lepton_numbers.muon == -q.lepton_numbers.muon
    &&& c.lepton_numbers.tau == -q.lepton_numbers.tau
    &&& c.spin == q.spin
    &&& c.parity == q.parity
    &&& c.charge_conjugation == q.charge_conjugation
    &&& c.color == conjugate_color(q.color)
    &&& c.weak_multiplet == q.weak_multiplet
    &&& conjugate_reps_match(q.representations@, c.representations@)
}

/// Two quantum-number vectors agree in every component (representations
/// compared field by field through their views).
pub open spec fn same_qn(a: QuantumNumbers, b: QuantumNumbers) -> bool {
    &&& a.electric_charge == b.electric_charge
    &&& a.weak_isospin == b.weak_isospin
    &&& a.hypercharge == b.hypercharge
    &&& a.baryon_number == b.baryon_number
    &&& a.lepton_numbers == b.lepton_numbers
    &&& a.spin == b.spin
    &&& a.parity == b.parity
    &&& a.charge_conjugation == b.charge_conjugation
    &&& a.color == b.color
    &&& a.weak_multiplet == b.weak_multiplet
    &&& a.representations@.len() == b.representations@.len()
    &&& forall|i: int| 0 <= i < a.representations@.len() ==> #[trigger] same_rep(a.representations@[i], b.representations@[i])
}

/// Two representations agree in every component.
pub open spec fn same_rep(a: LieGroupRepresentation, b: LieGroupRepresentation) -> bool {
    &&& a.group == b.group
    &&& a.dimension == b.dimension
    &&& a.charge_bits == b.charge_bits
    &&& a.is_conjugate == b.is_conjugate
    &&& a.dynkin_labels@ == b.dynkin_labels@
    &&& a.label@ == b.label@
}

/// Text of the error for a chirality projection on a field that is not spin-½.
pub open spec fn chirality_error_text(id: Seq<char>, twice_spin: u8) -> Seq<char> {
    "Chirality projection requires spin-1/2 (2s=1), but field '"@ + id + "' has 2s="@
        + nat_decimal(twice_spin as nat) + "."@
}

/// Text of the error for a helicity assignment on a spin-0 field.
pub open spec fn helicity_error_text(id: Seq<char>) -> Seq<char> {
    "Cannot assign helicity to spin-0 field '"@ + id + "'."@
}

/// Text of the error for building a spin-0 state that carries a helicity.
pub open spec fn initial_helicity_error_text(h: Helicity, id: Seq<char>) -> Seq<char> {
    "Cannot assign helicity "@ + (match h { Helicity::Plus => "Plus"@, Helicity::Minus => "Minus"@ })
        + " to spin-0 field '"@ + id + "'"@
}

/// Two fields agree in every component.
pub open spec fn same_field(a: Field, b: Field) -> bool {
    &&& a.id@ == b.id@
    &&& a.name@ == b.name@
    &&& a.symbol@ == b.symbol@
    &&& a.mass_bits == b.mass_bits
    &&& a.width_bits == b.width_bits
    &&& same_qn(a.quantum_numbers, b.quantum_numbers)
    &&& a.interactions@ == b.interactions@
}

/// Two particles agree in every component.
pub open spec fn same_particle(a: Particle, b: Particle) -> bool {
    &&& same_field(a.field, b.field)
    &&& a.shell == b.shell
    &&& a.helicity == b.helicity
    &&& a.chirality == b.chirality
    &&& a.is_anti == b.is_anti
}

/// Two states agree in every component.
pub open spec fn same_state(a: QuantumState, b: QuantumState) -> bool {
    &&& same_particle(a.particle, b.particle)
    &&& a.four_momentum_bits == b.four_momentum_bits
    &&& a.normalization_bits == b.normalization_bits
}

fn copy_reps(v: &Vec<LieGroupRepresentation>) -> (r: Vec<LieGroupRepresentation>)
    ensures
        r@.len() == v@.len(),
        forall|i: int| 0 <= i < v@.len() ==> #[trigger] same_rep(v@[i], r@[i]),
{
    let mut r: Vec<LieGroupRepresentation> = Vec::new();
    let mut i: usize = 0;
    while i < v.len()
        invariant
            i <= v.len(),
            r@.len() == i,
            forall|k: int| 0 <= k < i ==> #[trigger] same_rep(v@[k], r@[k]),
        decreases v.len() - i,
    {
        r.push(v[i].clone());
        i = i + 1;
    }
    r
}

impl Clone for QuantumNumbers {
    fn clone(&self) -> (r: Self)
        ensures
            same_qn(*self, r),
    {
        QuantumNumbers {
            electric_charge: self.electric_charge,
            weak_isospin: self.weak_isospin,
            hypercharge: self.hypercharge,
            baryon_number: self.baryon_number,
            lepton_numbers: self.lepton_numbers,
            spin: self.spin,
            parity: self.parity,
            charge_conjugation: self.charge_conjugation,
            color: self.color,
            weak_multiplet: self.weak_multiplet,
            representations: copy_reps(&self.representations),
        }
    }
}

impl Clone for Field {
    fn clone(&self) -> (r: Self)
        ensures
            same_field(*self, r),
    {
        Field {
            id: self.id.clone(),
            name: self.name.clone(),
            symbol: self.symbol.clone(),
            mass_bits: self.mass_bits,
            width_bits: self.width_bits,
            quantum_numbers: self.quantum_numbers.clone(),
            interactions: clone_interactions(&self.interactions),
        }
    }
}

impl Clone for Particle {
    fn clone(&self) -> (r: Self)
        ensures
            same_particle(*self, r),
    {
        Particle {
            field: self.field.clone(),
            shell: self.shell,
            helicity: self.helicity,
            chirality: self.chirality,
            is_anti: self.is_anti,
        }
    }
}

impl Clone for QuantumState {
    fn clone(&self) -> (r: Self)
        ensures
            same_state(*self, r),
    {
        QuantumState {
            particle: self.particle.clone(),
            four_momentum_bits: self.four_momentum_bits,
            normalization_bits: self.normalization_bits,
        }
    }
}

// ---------------------------------------------------------------------------
// Conjugation
// ---------------------------------------------------------------------------

fn reversed_labels(labels: &Vec<u32>) -> (r: Vec<u32>)
    ensures
        r@ == labels@.reverse(),
{
    let mut r: Vec<u32> = Vec::new();
    let n = labels.len();
    let mut i: usize = 0;
    while i < n
        invariant
            n == labels.len(),
            i <= n,
            r@.len() == i,
            forall|k: int| 0 <= k < i ==> r@[k] == labels@[n - 1 - k],
        decreases n - i,
    {
        r.push(labels[n - 1 - i]);
        i = i + 1;
    }
    assert(r@ =~= labels@.reverse());
    r
}

/// Conjugate one representation (see [`conjugate_representations`]).
pub fn conjugate_representation(r: &LieGroupRepresentation) -> (c: LieGroupRepresentation)
    ensures
        conjugate_rep_matches(*r, c),
{
    let mut conj = r.clone();
    match &r.group {
        LieGroup::U1 { .. } => {
            conj.charge_bits = match r.charge_bits {
                Some(b) => Some(b ^ F64_SIGN_BIT),
                None => None,
            };
        },
        LieGroup::SU { .. } => {
            conj.is_conjugate = !r.is_conjugate;
            conj.dynkin_labels = reversed_labels(&r.dynkin_labels);
        },
        LieGroup::SO { .. } => {
            conj.is_conjugate = !r.is_conjugate;
        },
    }
    conj
}

/// Conjugate a list of Lie-group representations.
///
/// For U(1) the charge is negated; for SU(N) the conjugation flag flips and
/// the Dynkin labels are reversed; for SO(N) only the flag flips.
pub fn conjugate_representations(reps: &[LieGroupRepresentation]) -> (out: Vec<LieGroupRepresentation>)
    ensures
        conjugate_reps_match(reps@, out@),
{
    let mut out: Vec<LieGroupRepresentation> = Vec::new();
    let mut i: usize = 0;
    while i < reps.len()
        invariant
            i <= reps.len(),
            out@.len() == i,
            forall|k: int| 0 <= k < i ==> #[trigger] conjugate_rep_matches(reps@[k], out@[k]),
        decreases reps.len() - i,
    {
        let c = conjugate_representation(&reps[i]);
        out.push(c);
        i = i + 1;
    }
    out
}

fn conjugate_color_exec(c: ColorRepresentation) -> (r: ColorRepresentation)
    ensures
        r == conjugate_color(c),
{
    match c {
        ColorRepresentation::Triplet => ColorRepresentation::AntiTriplet,
        ColorRepresentation::AntiTriplet => ColorRepresentation::Triplet,
        other => other,
    }
}

/// The quantum numbers of the antiparticle.
pub fn conjugate_quantum_numbers(qn: &QuantumNumbers) -> (c: QuantumNumbers)
    requires
        negatable(*qn),
    ensures
        conjugate_qn_matches(*qn, c),
{
    QuantumNumbers {
        electric_charge: ElectricCharge(-qn.electric_charge.0),
        weak_isospin: WeakIsospin(-qn.weak_isospin.0),
        hypercharge: Hypercharge(-qn.hypercharge.0),
        baryon_number: BaryonNumber(-qn.baryon_number.0),
        lepton_numbers: LeptonNumbers {
            electron: -qn.lepton_numbers.electron,
            muon: -qn.lepton_numbers.muon,
            tau: -qn.lepton_numbers.tau,
        },
        spin: qn.spin,
        parity: qn.parity,
        charge_conjugation: qn.charge_conjugation,
        color: conjugate_color_exec(qn.color),
        weak_multiplet: qn.weak_multiplet,
        representations: conjugate_representations(qn.representations.as_slice()),
    }
}

fn clone_interactions(v: &Vec<InteractionType>) -> (r: Vec<InteractionType>)
    ensures
        r@ == v@,
{
    let mut r: Vec<InteractionType> = Vec::new();
    let mut i: usize = 0;
    while i < v.len()
        invariant
            i <= v.len(),
            r@ == v@.take(i as int),
        decreases v.len() - i,
    {
        r.push(v[i]);
        i = i + 1;
    }
    assert(r@ =~= v@);
    r
}

/// Construct the charge-conjugated state of `state`.
///
/// Negates every additive quantum number, swaps the colour triplets,
/// conjugates the gauge representations and flips the antiparticle flag;
/// the field's identity, mass, width, the momentum and normalisation are kept.
pub fn conjugate_state(state: &QuantumState) -> (res: Result<QuantumState, SpireError>)
    requires
        negatable(state.particle.field.quantum_numbers),
    ensures
        res matches Ok(c) && {
            let o = state.particle;
            &&& conjugate_qn_matches(o.field.quantum_numbers, c.particle.field.quantum_numbers)
            &&& c.particle.field.id@ == o.field.id@
            &&& c.particle.field.name@ == o.field.name@
            &&& c.particle.field.symbol@ == o.field.symbol@
            &&& c.particle.field.mass_bits == o.field.mass_bits
            &&& c.particle.field.width_bits == o.field.width_bits
            &&& c.particle.field.interactions@ == o.field.interactions@
            &&& c.particle.shell == o.shell
            &&& c.particle.helicity == o.helicity
            &&& c.particle.chirality == o.chirality
            &&& c.particle.is_anti == !o.is_anti
            &&& c.four_momentum_bits == state.four_momentum_bits
            &&& c.normalization_bits == state.normalization_bits
        },
{
    let orig = &state.particle;
    let conjugated_field = Field {
        id: orig.field.id.clone(),
        name: orig.field.name.clone(),
        symbol: orig.field.symbol.clone(),
        mass_bits: orig.field.mass_bits,
        width_bits: orig.field.width_bits,
        quantum_numbers: conjugate_quantum_numbers(&orig.field.quantum_numbers),
        interactions: clone_interactions(&orig.field.interactions),
    };
    let conjugated_particle = Particle {
        field: conjugated_field,
        shell: orig.shell,
        helicity: orig.helicity,
        chirality: orig.chirality,
        is_anti: !orig.is_anti,
    };
    Ok(QuantumState {
        particle: conjugated_particle,
        four_momentum_bits: state.four_momentum_bits,
        normalization_bits: state.normalization_bits,
    })
}

/// An on-shell, non-anti particle of `field` with no helicity or chirality.
pub fn particle_from_field(field: Field) -> (p: Particle)
    ensures
        p.field == field,
        p.shell == ShellCondition::OnShell,
        p.helicity.is_none(),
        p.chirality.is_none(),
        !p.is_anti,
{
    Particle { field, shell: ShellCondition::OnShell, helicity: None, chirality: None, is_anti: false }
}

/// The antiparticle field of `field`.
///
/// Its id is `"anti_" + id`, its name `"Anti-" + name` and its symbol
/// `"\bar{" + symbol + "}"`; mass, width and interactions are kept and the
/// quantum numbers are conjugated.
pub fn conjugate_field(field: &Field) -> (f: Field)
    requires
        negatable(field.quantum_numbers),
    ensures
        f.id@ == "anti_"@ + field.id@,
        f.name@ == "Anti-"@ + field.name@,
        f.symbol@ == "\\bar{"@ + field.symbol@ + "}"@,
        f.mass_bits == field.mass_bits,
        f.width_bits == field.width_bits,
        f.interactions@ == field.interactions@,
        conjugate_qn_matches(field.quantum_numbers, f.quantum_numbers),
{
    let mut id = String::new();
    push_str(&mut id, "anti_");
    push_str(&mut id, field.id.as_str());
    let mut name = String::new();
    push_str(&mut name, "Anti-");
    push_str(&mut name, field.name.as_str());
    let mut symbol = String::new();
    push_str(&mut symbol, "\\bar{");
    push_str(&mut symbol, field.symbol.as_str());
    push_str(&mut symbol, "}");
    Field {
        id,
        name,
        symbol,
        mass_bits: field.mass_bits,
        width_bits: field.width_bits,
        quantum_numbers: conjugate_quantum_numbers(&field.quantum_numbers),
        interactions: clone_interactions(&field.interactions),
    }
}

// ---------------------------------------------------------------------------
// State construction and projections
// ---------------------------------------------------------------------------

/// Build an on-shell state of `field` with the given momentum and
/// normalisation (both as `f64` bit patterns).
///
/// A spin-0 field cannot carry a helicity: that request is refused.
pub fn initialize_state_normalized(
    field: &Field,
    four_momentum_bits: [u64; 4],
    normalization_bits: u64,
    helicity: Option<Helicity>,
) -> (res: Result<QuantumState, SpireError>)
    ensures
        (helicity.is_some() && field.quantum_numbers.spin.0 == 0) <==> res is Err,
        res matches Err(SpireError::InternalError(m)) ==> m@ == initial_helicity_error_text(helicity.unwrap(), field.id@),
        res matches Err(e) ==> e is InternalError,
        res matches Ok(s) ==> {
            &&& same_field(*field, s.particle.field)
            &&& s.particle.shell == ShellCondition::OnShell
            &&& s.particle.helicity == helicity
            &&& s.particle.chirality.is_none()
            &&& !s.particle.is_anti
            &&& s.four_momentum_bits == four_momentum_bits
            &&& s.normalization_bits == normalization_bits
        },
{
    if let Some(h) = helicity {
        if field.quantum_numbers.spin.0 == 0 {
            let mut m = String::new();
            push_str(&mut m, "Cannot assign helicity ");
            match h {
                Helicity::Plus => push_str(&mut m, "Plus"),
                Helicity::Minus => push_str(&mut m, "Minus"),
            }
            push_str(&mut m, " to spin-0 field '");
            push_str(&mut m, field.id.as_str());
            push_str(&mut m, "'");
            return Err(SpireError::InternalError(m));
        }
    }
    let particle = Particle {
        field: field.clone(),
        shell: ShellCondition::OnShell,
        helicity,
        chirality: None,
        is_anti: false,
    };
    Ok(QuantumState { particle, four_momentum_bits, normalization_bits })
}

/// Project a fermion state onto a chirality.
///
/// Only spin-½ states (`2s = 1`) can be projected; others are refused and
/// left unchanged.
pub fn apply_chirality_projection(state: &mut QuantumState, chirality: Chirality) -> (res: Result<(), SpireError>)
    ensures
        (old(state).particle.field.quantum_numbers.spin.0 == 1) <==> res is Ok,
        res is Ok ==> *final(state) == (QuantumState {
            particle: Particle { chirality: Some(chirality), ..old(state).particle },
            ..*old(state)
        }),
        res is Err ==> *final(state) == *old(state),
        res matches Err(e) ==> e matches SpireError::InternalError(m) && m@ == chirality_error_text(
            old(state).particle.field.id@, old(state).particle.field.quantum_numbers.spin.0),
{
    let twice_spin = state.particle.field.quantum_numbers.spin.0;
    if twice_spin != 1 {
        let mut m = String::new();
        push_str(&mut m, "Chirality projection requires spin-1/2 (2s=1), but field '");
        push_str(&mut m, state.particle.field.id.as_str());
        push_str(&mut m, "' has 2s=");
        push_nat(&mut m, twice_spin as u64);
        push_str(&mut m, ".");
        return Err(SpireError::InternalError(m));
    }
    state.particle.chirality = Some(chirality);
    Ok(())
}

/// Assign a helicity to a state; spin-0 states are refused and left unchanged.
pub fn assign_helicity(state: &mut QuantumState, helicity: Helicity) -> (res: Result<(), SpireError>)
    ensures
        (old(state).particle.field.quantum_numbers.spin.0 != 0) <==> res is Ok,
        res is Ok ==> *final(state) == (QuantumState {
            particle: Particle { helicity: Some(helicity), ..old(state).particle },
            ..*old(state)
        }),
        res is Err ==> *final(state) == *old(state),
        res matches Err(e) ==> e matches SpireError::InternalError(m) && m@ == helicity_error_text(
            old(state).particle.field.id@),
{
    let twice_spin = state.particle.field.quantum_numbers.spin.0;
    if twice_spin == 0 {
        let mut m = String::new();
        push_str(&mut m, "Cannot assign helicity to spin-0 field '");
        push_str(&mut m, state.particle.field.id.as_str());
        push_str(&mut m, "'.");
        return Err(SpireError::InternalError(m));
    }
    state.particle.helicity = Some(helicity);
    Ok(())
}

// ---------------------------------------------------------------------------
// Laws
// ---------------------------------------------------------------------------

/// Conjugating a representation twice gives back the representation it started from.
pub proof fn lemma_double_conjugation_rep(r: LieGroupRepresentation, c: LieGroupRepresentation, cc: LieGroupRepresentation)
    requires
        conjugate_rep_matches(r, c),
        conjugate_rep_matches(c, cc),
    ensures
        same_rep(r, cc),
{
    match r.group {
        LieGroup::U1 { .. } => {
            match r.charge_bits {
                Some(b) => {
                    assert(neg_bits(neg_bits(b)) == b) by (bit_vector);
                },
                None => {},
            }
        },
        LieGroup::SU { .. } => {
            assert(r.dynkin_labels@.reverse().reverse() =~= r.dynkin_labels@);
        },
        LieGroup::SO { .. } => {},
    }
}

/// Charge conjugation is an involution: conjugating quantum numbers twice
/// restores every component.
pub proof fn lemma_double_conjugation(q: QuantumNumbers, c: QuantumNumbers, cc: QuantumNumbers)
    requires
        conjugate_qn_matches(q, c),
        conjugate_qn_matches(c, cc),
    ensures
        same_qn(q, cc),
{
    assert forall|i: int| 0 <= i < q.representations@.len() implies #[trigger] same_rep(q.representations@[i], cc.representations@[i]) by {
        assert(conjugate_rep_matches(q.representations@[i], c.representations@[i]));
        assert(conjugate_rep_matches(c.representations@[i], cc.representations@[i]));
        lemma_double_conjugation_rep(q.representations@[i], c.representations@[i], cc.representations@[i]);
    }
}


/// Charge conjugation turns a colour triplet into an anti-triplet and an
/// anti-triplet into a triplet, and leaves singlets and octets (real
/// representations) as they are.
pub proof fn lemma_conjugation_swaps_colour_triplets(q: QuantumNumbers, c: QuantumNumbers)
    requires
        conjugate_qn_matches(q, c),
    ensures
        q.color == ColorRepresentation::Triplet <==> c.color == ColorRepresentation::AntiTriplet,
        q.color == ColorRepresentation::AntiTriplet <==> c.color == ColorRepresentation::Triplet,
        q.color == ColorRepresentation::Singlet <==> c.color == ColorRepresentation::Singlet,
        q.color == ColorRepresentation::Octet <==> c.color == ColorRepresentation::Octet,
{
}

} // verus!
