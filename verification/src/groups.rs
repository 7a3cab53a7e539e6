//! # Symmetry groups and conservation laws
//!
//! Gauge groups U(1), SU(N) and SO(N), their representations, N-ality, and
//! the conservation-law validators for proposed reactions.
use vstd::prelude::*;

use crate::text::{int_decimal, nat_decimal, push_int, push_nat, push_str, seq_contains_seq, str_contains, str_eq};
use crate::SpireError;

verus! {

/// A gauge group of the Standard Model.
#[derive(Debug, Clone, Copy, PartialEq, Eq, Structural)]
pub enum GaugeGroup {
    /// U(1)_Y.
    U1Y,
    /// SU(2)_L.
    SU2L,
    /// SU(3)_C.
    SU3C,
}

/// Representation of a particle under a Standard-Model gauge group.
#[derive(Debug)]
pub struct GaugeRepresentation {
    /// The gauge group.
    pub group: GaugeGroup,
    /// Dimension (1 = singlet, 3 = triplet, 8 = octet, ...).
    pub dimension: u8,
    /// Display label (e.g. `"3"`, `"3bar"`).
    pub label: String,
}

/// A Poincaré representation: mass (as an `f64` bit pattern) and twice the spin.
#[derive(Debug, Clone, Copy, PartialEq, Eq, Structural)]
pub struct PoincareRepresentation {
    /// Invariant mass in GeV, as the bit pattern of an `f64`.
    pub mass_bits: u64,
    /// Twice the spin.
    pub twice_spin: u8,
    /// Whether the representation is massless.
    pub is_massless: bool,
}

/// A simple Lie group that can be a gauge factor.
#[derive(Debug, Eq, Hash)]
pub enum LieGroup {
    /// Abelian U(1) with a distinguishing label.
    U1 {
        /// Label (e.g. `"Y"`).
        label: String,
    },
    /// SU(N).
    SU {
        /// The N of SU(N).
        n: u8,
        /// Label (e.g. `"C"`).
        label: String,
    },
    /// SO(N).
    SO {
        /// The N of SO(N).
        n: u8,
        /// Label.
        label: String,
    },
}

/// Two groups are the same family, size and label.
pub open spec fn same_group(a: LieGroup, b: LieGroup) -> bool {
    match (a, b) {
        (LieGroup::U1 { label: la }, LieGroup::U1 { label: lb }) => la@ == lb@,
        (LieGroup::SU { n: na, label: la }, LieGroup::SU { n: nb, label: lb }) => na == nb && la@ == lb@,
        (LieGroup::SO { n: na, label: la }, LieGroup::SO { n: nb, label: lb }) => na == nb && la@ == lb@,
        _ => false,
    }
}

impl Clone for LieGroup {
    fn clone(&self) -> (r: Self)
        ensures
            r == *self,
    {
        match self {
            LieGroup::U1 { label } => LieGroup::U1 { label: label.clone() },
            LieGroup::SU { n, label } => LieGroup::SU { n: *n, label: label.clone() },
            LieGroup::SO { n, label } => LieGroup::SO { n: *n, label: label.clone() },
        }
    }
}

impl PartialEq for LieGroup {
    fn eq(&self, other: &Self) -> (r: bool) {
        match (self, other) {
            (LieGroup::U1 { label: a }, LieGroup::U1 { label: b }) => str_eq(a.as_str(), b.as_str()),
            (LieGroup::SU { n: na, label: a }, LieGroup::SU { n: nb, label: b }) => *na == *nb && str_eq(a.as_str(), b.as_str()),
            (LieGroup::SO { n: na, label: a }, LieGroup::SO { n: nb, label: b }) => *na == *nb && str_eq(a.as_str(), b.as_str()),
            _ => false,
        }
    }
}

impl vstd::std_specs::cmp::PartialEqSpecImpl for LieGroup {
    open spec fn obeys_eq_spec() -> bool {
        true
    }

    open spec fn eq_spec(&self, other: &Self) -> bool {
        same_group(*self, *other)
    }
}

/// Display text of a Lie group, e.g. `SU(3)_C`.
pub open spec fn lie_group_display(g: LieGroup) -> Seq<char> {
    match g {
        LieGroup::U1 { label } => "U(1)_"@ + label@,
        LieGroup::SU { n, label } => "SU("@ + nat_decimal(n as nat) + ")_"@ + label@,
        LieGroup::SO { n, label } => "SO("@ + nat_decimal(n as nat) + ")_"@ + label@,
    }
}

impl LieGroup {
    /// Rank of the Lie algebra: 1 for U(1), N-1 for SU(N) (0 for SU(0)),
    /// ⌊N/2⌋ for SO(N).
    pub fn rank(&self) -> (r: u32)
        ensures
            r == match *self {
                LieGroup::U1 { .. } => 1int,
                LieGroup::SU { n, .. } => if n == 0 { 0int } else { n - 1 },
                LieGroup::SO { n, .. } => (n / 2) as int,
            },
    {
        match self {
            LieGroup::U1 { .. } => 1,
            LieGroup::SU { n, .. } => (*n as u32).saturating_sub(1),
            LieGroup::SO { n, .. } => (*n as u32) / 2,
        }
    }

    /// Dimension of the adjoint representation: 1, N²-1, N(N-1)/2.
    pub fn adjoint_dimension(&self) -> (r: u32)
        requires
            match *self {
                LieGroup::U1 { .. } => true,
                LieGroup::SU { n, .. } => n >= 1,
                LieGroup::SO { n, .. } => n >= 1,
            },
        ensures
            r == match *self {
                LieGroup::U1 { .. } => 1int,
                LieGroup::SU { n, .. } => n * n - 1,
                LieGroup::SO { n, .. } => n * (n - 1) / 2,
            },
    {
        match self {
            LieGroup::U1 { .. } => 1,
            LieGroup::SU { n, .. } => {
                let n = *n as u32;
                assert(n * n <= 255 * 255) by (nonlinear_arith) requires n <= 255;
                assert(n * n >= 1) by (nonlinear_arith) requires n >= 1;
                n * n - 1
            },
            LieGroup::SO { n, .. } => {
                let n = *n as u32;
                assert(n * (n - 1) <= 255 * 255) by (nonlinear_arith) requires 1 <= n <= 255;
                n * (n - 1) / 2
            },
        }
    }

    /// Display name, e.g. `"SU(3)_C"` or `"U(1)_Y"`.
    pub fn display_name(&self) -> (s: String)
        ensures
            s@ == lie_group_display(*self),
    {
        let mut s = String::new();
        match self {
            LieGroup::U1 { label } => {
                push_str(&mut s, "U(1)_");
                push_str(&mut s, label.as_str());
            },
            LieGroup::SU { n, label } => {
                push_str(&mut s, "SU(");
                push_nat(&mut s, *n as u64);
                push_str(&mut s, ")_");
                push_str(&mut s, label.as_str());
            },
            LieGroup::SO { n, label } => {
                push_str(&mut s, "SO(");
                push_nat(&mut s, *n as u64);
                push_str(&mut s, ")_");
                push_str(&mut s, label.as_str());
            },
        }
        s
    }
}

/// A representation under a [`LieGroup`].
#[derive(Debug)]
pub struct LieGroupRepresentation {
    /// The group.
    pub group: LieGroup,
    /// Dimension of the representation.
    pub dimension: u32,
    /// U(1) charge, as the bit pattern of an `f64`; `None` for non-abelian groups.
    pub charge_bits: Option<u64>,
    /// Whether this is the conjugate representation.
    pub is_conjugate: bool,
    /// Dynkin labels of the highest weight.
    pub dynkin_labels: Vec<u32>,
    /// Display label.
    pub label: String,
}

fn copy_labels(v: &Vec<u32>) -> (r: Vec<u32>)
    ensures
        r@ == v@,
{
    let mut r: Vec<u32> = Vec::new();
    let mut i: usize = 0;
    while i < v.len()
        invariant
            i <= v.len(),
            r@ == v@.take(i as int),
        decreases v.len() - i,
    {
        r.push(v[i]);
        i = i + 1;
    }
    assert(r@ =~= v@);
    r
}

impl Clone for LieGroupRepresentation {
    fn clone(&self) -> (r: Self)
        ensures
            crate::ontology::same_rep(*self, r),
    {
        LieGroupRepresentation {
            group: self.group.clone(),
            dimension: self.dimension,
            charge_bits: self.charge_bits,
            is_conjugate: self.is_conjugate,
            dynkin_labels: copy_labels(&self.dynkin_labels),
            label: self.label.clone(),
        }
    }
}

/// The full gauge symmetry of a model as an ordered product of factors.
#[derive(Debug)]
pub struct GaugeSymmetry {
    /// Simple factors.
    pub groups: Vec<LieGroup>,
    /// Display label.
    pub label: String,
}

/// `g` is `SU(n)` with label `l`.
pub open spec fn is_su(g: LieGroup, n: u8, l: Seq<char>) -> bool {
    g matches LieGroup::SU { n: m, label } && m == n && label@ == l
}

/// `g` is `SO(n)` with label `l`.
pub open spec fn is_so(g: LieGroup, n: u8, l: Seq<char>) -> bool {
    g matches LieGroup::SO { n: m, label } && m == n && label@ == l
}

/// `g` is `U(1)` with label `l`.
pub open spec fn is_u1(g: LieGroup, l: Seq<char>) -> bool {
    g matches LieGroup::U1 { label } && label@ == l
}

impl GaugeSymmetry {
    /// SU(3)_C × SU(2)_L × U(1)_Y.
    pub fn standard_model() -> (g: Self)
        ensures
            g.groups@.len() == 3,
            is_su(g.groups@[0], 3, "C"@),
            is_su(g.groups@[1], 2, "L"@),
            is_u1(g.groups@[2], "Y"@),
            g.label@ == "SU(3)_C × SU(2)_L × U(1)_Y"@,
    {
        let mut groups: Vec<LieGroup> = Vec::new();
        groups.push(LieGroup::SU { n: 3, label: String::from_str("C") });
        groups.push(LieGroup::SU { n: 2, label: String::from_str("L") });
        groups.push(LieGroup::U1 { label: String::from_str("Y") });
        GaugeSymmetry { groups, label: String::from_str("SU(3)_C × SU(2)_L × U(1)_Y") }
    }

    /// The SU(5) grand-unified symmetry.
    pub fn su5_gut() -> (g: Self)
        ensures
            g.groups@.len() == 1,
            is_su(g.groups@[0], 5, "GUT"@),
            g.label@ == "SU(5)"@,
    {
        let mut groups: Vec<LieGroup> = Vec::new();
        groups.push(LieGroup::SU { n: 5, label: String::from_str("GUT") });
        GaugeSymmetry { groups, label: String::from_str("SU(5)") }
    }

    /// The SO(10) grand-unified symmetry.
    pub fn so10_gut() -> (g: Self)
        ensures
            g.groups@.len() == 1,
            is_so(g.groups@[0], 10, "GUT"@),
            g.label@ == "SO(10)"@,
    {
        let mut groups: Vec<LieGroup> = Vec::new();
        groups.push(LieGroup::SO { n: 10, label: String::from_str("GUT") });
        GaugeSymmetry { groups, label: String::from_str("SO(10)") }
    }

    /// A dark-sector U(1)'.
    pub fn dark_u1() -> (g: Self)
        ensures
            g.groups@.len() == 1,
            is_u1(g.groups@[0], "'"@),
            g.label@ == "U(1)'"@,
    {
        let mut groups: Vec<LieGroup> = Vec::new();
        groups.push(LieGroup::U1 { label: String::from_str("'") });
        GaugeSymmetry { groups, label: String::from_str("U(1)'") }
    }
}


// ---------------------------------------------------------------------------
// N-ality
// ---------------------------------------------------------------------------

/// Σ_k k·a_k over the Dynkin labels a_1, a_2, ... (k counted from 1).
pub open spec fn weighted_label_sum(labels: Seq<u32>) -> int
    decreases labels.len(),
{
    if labels.len() == 0 {
        0
    } else {
        weighted_label_sum(labels.drop_last()) + labels.len() * labels.last()
    }
}

/// Σ_k a_k over the Dynkin labels.
pub open spec fn label_sum(labels: Seq<u32>) -> int
    decreases labels.len(),
{
    if labels.len() == 0 {
        0
    } else {
        label_sum(labels.drop_last()) + labels.last()
    }
}

/// The N-ality of an SU(N) representation with the given Dynkin labels
/// (0 when N = 0).
pub open spec fn n_ality(n: u8, labels: Seq<u32>) -> int {
    if n == 0 { 0 } else { weighted_label_sum(labels) % (n as int) }
}

/// The N-ality of the conjugate of a representation of N-ality `k`.
pub open spec fn conjugate_n_ality_spec(n: u8, k: u32) -> int {
    if n == 0 || k == 0 { 0 } else { (n - k) % (n as int) }
}

/// The inputs on which computing an N-ality cannot overflow a `u32`.
pub open spec fn n_ality_computable(n: u8, labels: Seq<u32>) -> bool {
    n > 0 ==> labels.len() <= u32::MAX && weighted_label_sum(labels) <= u32::MAX
}

proof fn lemma_weighted_sum_monotone(labels: Seq<u32>, i: int, j: int)
    requires
        0 <= i <= j <= labels.len(),
    ensures
        0 <= weighted_label_sum(labels.take(i)) <= weighted_label_sum(labels.take(j)),
    decreases j - i,
{
    if i < j {
        lemma_weighted_sum_monotone(labels, i, j - 1);
        assert(labels.take(j).drop_last() =~= labels.take(j - 1));
        assert(j * labels[j - 1] >= 0) by (nonlinear_arith) requires j >= 0, labels[j - 1] >= 0;
    } else {
        lemma_weighted_sum_nonneg(labels.take(i));
    }
}

proof fn lemma_weighted_sum_nonneg(labels: Seq<u32>)
    ensures
        weighted_label_sum(labels) >= 0,
    decreases labels.len(),
{
    if labels.len() > 0 {
        lemma_weighted_sum_nonneg(labels.drop_last());
        assert(labels.len() * labels.last() >= 0) by (nonlinear_arith) requires labels.len() >= 0, labels.last() >= 0;
    }
}

/// Compute the N-ality `(Σ_k k·a_k) mod N` of an SU(N) representation from
/// its Dynkin labels; 0 for N = 0.
pub fn compute_n_ality(n: u8, dynkin_labels: &[u32]) -> (r: u32)
    requires
        n_ality_computable(n, dynkin_labels@),
    ensures
        r == n_ality(n, dynkin_labels@),
{
    let n = n as u32;
    if n == 0 {
        return 0;
    }
    let mut total: u32 = 0;
    let mut i: usize = 0;
    while i < dynkin_labels.len()
        invariant
            n > 0,
            dynkin_labels@.len() <= u32::MAX,
            weighted_label_sum(dynkin_labels@) <= u32::MAX,
            i <= dynkin_labels.len(),
            total == weighted_label_sum(dynkin_labels@.take(i as int)),
        decreases dynkin_labels.len() - i,
    {
        let a_k = dynkin_labels[i];
        let k = (i as u32) + 1;
        proof {
            lemma_weighted_sum_monotone(dynkin_labels@, i + 1, dynkin_labels@.len() as int);
            assert(dynkin_labels@.take(i + 1).drop_last() =~= dynkin_labels@.take(i as int));
            assert(dynkin_labels@.take(dynkin_labels@.len() as int) =~= dynkin_labels@);
        }
        total = total + k * a_k;
        i = i + 1;
    }
    assert(dynkin_labels@.take(dynkin_labels@.len() as int) =~= dynkin_labels@);
    total % n
}

/// N-ality of the conjugate representation: `(N - k) mod N` (0 when N = 0
/// or k = 0).
pub fn conjugate_n_ality(n: u8, n_ality: u32) -> (r: u32)
    requires
        n == 0 || n_ality == 0 || n_ality <= n,
    ensures
        r == conjugate_n_ality_spec(n, n_ality),
{
    let n = n as u32;
    if n == 0 || n_ality == 0 {
        return 0;
    }
    (n - n_ality) % n
}

proof fn lemma_label_sum_prepend(x: u32, t: Seq<u32>)
    ensures
        label_sum(seq![x] + t) == x + label_sum(t),
        weighted_label_sum(seq![x] + t) == x + weighted_label_sum(t) + label_sum(t),
    decreases t.len(),
{
    let s = seq![x] + t;
    if t.len() == 0 {
        assert(s.drop_last() =~= t);
        assert(s.last() == x);
        assert(weighted_label_sum(s) == weighted_label_sum(s.drop_last()) + 1 * x);
    } else {
        let u = t.drop_last();
        lemma_label_sum_prepend(x, u);
        assert(s.drop_last() =~= seq![x] + u);
        assert(s.last() == t.last());
        assert(s.len() == t.len() + 1);
        let l = t.len() as int;
        let y = t.last() as int;
        assert((l + 1) * y == l * y + y) by (nonlinear_arith);
        assert(weighted_label_sum(s) == weighted_label_sum(seq![x] + u) + (l + 1) * y);
        assert(weighted_label_sum(t) == weighted_label_sum(u) + l * y);
    }
}

proof fn lemma_label_sum_reverse(s: Seq<u32>)
    ensures
        label_sum(s.reverse()) == label_sum(s),
        weighted_label_sum(s.reverse()) + weighted_label_sum(s) == (s.len() + 1) * label_sum(s),
    decreases s.len(),
{
    if s.len() == 0 {
        assert(s.reverse() =~= s);
    } else {
        let t = s.drop_last();
        let x = s.last();
        lemma_label_sum_reverse(t);
        assert(s.reverse() =~= seq![x] + t.reverse());
        lemma_label_sum_prepend(x, t.reverse());
        let w = weighted_label_sum(t);
        let wr = weighted_label_sum(t.reverse());
        let st = label_sum(t);
        let l = s.len() as int;
        assert(t.len() == l - 1);
        assert(wr + w == l * st);
        assert(weighted_label_sum(s) == w + l * x);
        assert(label_sum(s) == st + x);
        assert(x + wr + st + w + l * x == (l + 1) * (st + x)) by (nonlinear_arith)
            requires wr + w == l * st;
    }
}

/// Reversing the Dynkin labels of an SU(N) representation (the conjugate
/// representation, see `ontology::conjugate_representations`) gives the
/// conjugate N-ality: `N-ality(rev(a)) == conjugate_n_ality(N, N-ality(a))`,
/// for labels of the full length N-1.
pub proof fn lemma_reversed_labels_conjugate_n_ality(n: u8, labels: Seq<u32>)
    requires
        n > 0,
        labels.len() == n - 1,
    ensures
        n_ality(n, labels.reverse()) == conjugate_n_ality_spec(n, n_ality(n, labels) as u32),
{
    lemma_label_sum_reverse(labels);
    lemma_weighted_sum_nonneg(labels);
    lemma_weighted_sum_nonneg(labels.reverse());
    let w = weighted_label_sum(labels);
    let wr = weighted_label_sum(labels.reverse());
    let sum = label_sum(labels);
    let d = n as int;
    assert(wr + w == d * sum);
    let q = w / d;
    let r = w % d;
    vstd::arithmetic::div_mod::lemma_fundamental_div_mod(w, d);
    assert(0 <= r < d);
    assert(w == d * q + r);
    if r == 0 {
        assert(wr == (sum - q) * d + 0) by (nonlinear_arith) requires wr + w == d * sum, w == d * q + r, r == 0;
        vstd::arithmetic::div_mod::lemma_fundamental_div_mod_converse(wr, d, sum - q, 0);
    } else {
        assert(wr == (sum - q - 1) * d + (d - r)) by (nonlinear_arith) requires wr + w == d * sum, w == d * q + r;
        vstd::arithmetic::div_mod::lemma_fundamental_div_mod_converse(wr, d, sum - q - 1, d - r);
        vstd::arithmetic::div_mod::lemma_fundamental_div_mod_converse(d - r, d, 0, d - r);
    }
}

/// Conjugating twice returns the N-ality it started from.
pub proof fn lemma_conjugate_n_ality_involution(n: u8, k: u32)
    requires
        n > 0,
        k < n,
    ensures
        conjugate_n_ality_spec(n, conjugate_n_ality_spec(n, k) as u32) == k,
{
    if k > 0 {
        assert((n - k) % (n as int) == n - k) by {
            vstd::arithmetic::div_mod::lemma_fundamental_div_mod_converse(n - k, n as int, 0, n - k);
        }
        assert((n - (n - k)) % (n as int) == k) by {
            vstd::arithmetic::div_mod::lemma_fundamental_div_mod_converse(k as int, n as int, 0, k as int);
        }
    }
}


// ---------------------------------------------------------------------------
// Results of conservation checks
// ---------------------------------------------------------------------------

/// Outcome of validating conservation laws for a process.
#[derive(Debug)]
pub struct ConservationResult {
    /// Whether every law holds.
    pub is_valid: bool,
    /// One human-readable diagnostic per violated law.
    pub violations: Vec<String>,
}

/// Outcome of a discrete-symmetry (C, P, T, CP) check.
#[derive(Debug)]
pub struct DiscreteSymmetryResult {
    /// C conservation.
    pub c_parity_conserved: Option<bool>,
    /// P conservation.
    pub p_parity_conserved: Option<bool>,
    /// T conservation.
    pub t_symmetry_conserved: Option<bool>,
    /// CP conservation.
    pub cp_conserved: Option<bool>,
    /// Diagnostics for violations.
    pub diagnostics: Vec<String>,
}

/// The character sequences of a list of strings.
pub open spec fn texts(v: Seq<String>) -> Seq<Seq<char>> {
    v.map_values(|s: String| s@)
}

// ---------------------------------------------------------------------------
// Colour singlets
// ---------------------------------------------------------------------------

/// A triplet label marks the anti-triplet when it contains `"bar"` or a
/// combining macron (U+0304).
pub open spec fn is_antitriplet_label(label: Seq<char>) -> bool {
    seq_contains_seq(label, "bar"@) || label.contains('\u{0304}')
}

/// Triality contributed by one representation: 1 for a triplet, 2 for an
/// anti-triplet, 0 otherwise.
pub open spec fn triality_of(r: GaugeRepresentation) -> int {
    if r.dimension == 3 {
        if is_antitriplet_label(r.label@) { 2 } else { 1 }
    } else {
        0
    }
}

/// Sum of the trialities of a list of representations.
pub open spec fn triality_sum(reps: Seq<GaugeRepresentation>) -> int
    decreases reps.len(),
{
    if reps.len() == 0 { 0 } else { triality_sum(reps.drop_last()) + triality_of(reps.last()) }
}

/// Dimensions of SU(3) representations that the colour check knows.
pub open spec fn supported_color_dimension(d: u8) -> bool {
    d == 1 || d == 3 || d == 8
}

/// Text of the error for an unknown SU(3) dimension.
pub open spec fn unsupported_dimension_text(d: u8) -> Seq<char> {
    "Unsupported SU(3) representation dimension: "@ + nat_decimal(d as nat)
}

fn label_is_antitriplet(label: &String) -> (r: bool)
    ensures
        r == is_antitriplet_label(label@),
{
    let chars = crate::text::to_chars(label.as_str());
    let bar = crate::text::to_chars("bar");
    if crate::text::chars_contain(&chars, &bar) {
        return true;
    }
    let mut i: usize = 0;
    while i < chars.len()
        invariant
            chars@ == label@,
            i <= chars.len(),
            forall|k: int| 0 <= k < i ==> chars@[k] != '\u{0304}',
        decreases chars.len() - i,
    {
        if chars[i] == '\u{0304}' {
            assert(label@.contains('\u{0304}')) by { assert(label@[i as int] == '\u{0304}'); }
            return true;
        }
        i = i + 1;
    }
    false
}

/// Whether the colour representations at a vertex combine to a singlet:
/// the total triality must vanish modulo 3.
///
/// The first representation whose dimension is not 1, 3 or 8 is refused
/// with a `GroupTheoryError`.
pub fn validate_color_singlet(representations: &[GaugeRepresentation]) -> (res: Result<bool, SpireError>)
    requires
        representations@.len() <= 0x3fff_ffff,
    ensures
        (forall|i: int| 0 <= i < representations@.len() ==> supported_color_dimension(#[trigger] representations@[i].dimension))
            <==> res is Ok,
        res matches Ok(b) ==> b == (triality_sum(representations@) % 3 == 0),
        res matches Err(e) ==> exists|i: int| #![trigger representations@[i]] {
            &&& 0 <= i < representations@.len()
            &&& !supported_color_dimension(representations@[i].dimension)
            &&& forall|k: int| 0 <= k < i ==> supported_color_dimension(#[trigger] representations@[k].dimension)
            &&& e == SpireError::GroupTheoryError(e->GroupTheoryError_0)
            &&& e->GroupTheoryError_0@ == unsupported_dimension_text(representations@[i].dimension)
        },
{
    let mut sum: i32 = 0;
    let mut i: usize = 0;
    while i < representations.len()
        invariant
            representations@.len() <= 0x3fff_ffff,
            i <= representations.len(),
            0 <= sum <= 2 * i,
            sum == triality_sum(representations@.take(i as int)),
            forall|k: int| 0 <= k < i ==> supported_color_dimension(#[trigger] representations@[k].dimension),
        decreases representations.len() - i,
    {
        let rep = &representations[i];
        assert(representations@.take(i + 1).drop_last() =~= representations@.take(i as int));
        if rep.dimension == 1 || rep.dimension == 8 {
        } else if rep.dimension == 3 {
            if label_is_antitriplet(&rep.label) {
                sum = sum + 2;
            } else {
                sum = sum + 1;
            }
        } else {
            let mut m = String::new();
            push_str(&mut m, "Unsupported SU(3) representation dimension: ");
            push_nat(&mut m, rep.dimension as u64);
            let e = SpireError::GroupTheoryError(m);
            assert(representations@[i as int] == *rep);
            return Err(e);
        }
        i = i + 1;
    }
    assert(representations@.take(i as int) =~= representations@);
    Ok(sum % 3 == 0)
}

// ---------------------------------------------------------------------------
// Poincaré invariance
// ---------------------------------------------------------------------------

/// The range `(J_min, J_max)` (in units of ½) of total angular momenta that
/// the first spins of a list can couple to, folding one spin at a time.
pub open spec fn coupled_spin_range(reps: Seq<PoincareRepresentation>) -> (int, int)
    decreases reps.len(),
{
    if reps.len() == 0 {
        (0, 0)
    } else if reps.len() == 1 {
        (reps[0].twice_spin as int, reps[0].twice_spin as int)
    } else {
        let (lo, hi) = coupled_spin_range(reps.drop_last());
        let s = reps.last().twice_spin as int;
        let new_lo = if lo > s { lo - s } else if s - hi > 0 { s - hi } else { 0 };
        (new_lo, hi + s)
    }
}

/// Sum of the doubled spins.
pub open spec fn spin_total(reps: Seq<PoincareRepresentation>) -> int
    decreases reps.len(),
{
    if reps.len() == 0 { 0 } else { spin_total(reps.drop_last()) + reps.last().twice_spin }
}

proof fn lemma_spin_range_bounds(reps: Seq<PoincareRepresentation>)
    ensures
        0 <= coupled_spin_range(reps).0,
        coupled_spin_range(reps).1 == spin_total(reps),
    decreases reps.len(),
{
    if reps.len() > 1 {
        lemma_spin_range_bounds(reps.drop_last());
        let (lo, hi) = coupled_spin_range(reps.drop_last());
        assert(coupled_spin_range(reps).1 == hi + reps.last().twice_spin);
        assert(spin_total(reps) == spin_total(reps.drop_last()) + reps.last().twice_spin);
    } else if reps.len() == 1 {
        assert(reps.drop_last().len() == 0);
        assert(spin_total(reps.drop_last()) == 0);
        assert(reps.last() == reps[0]);
        assert(spin_total(reps) == spin_total(reps.drop_last()) + reps.last().twice_spin);
    }
}

proof fn lemma_spin_total_prefix(reps: Seq<PoincareRepresentation>, i: int)
    requires
        0 <= i <= reps.len(),
    ensures
        0 <= spin_total(reps.take(i)) <= spin_total(reps),
    decreases reps.len() - i,
{
    if i < reps.len() {
        lemma_spin_total_prefix(reps, i + 1);
        assert(reps.take(i + 1).drop_last() =~= reps.take(i));
        lemma_spin_total_nonneg(reps.take(i));
        assert(spin_total(reps.take(i + 1)) == spin_total(reps.take(i + 1).drop_last()) + reps.take(i + 1).last().twice_spin);
    } else {
        assert(reps.take(i) =~= reps);
        lemma_spin_total_nonneg(reps);
    }
}

proof fn lemma_spin_total_nonneg(reps: Seq<PoincareRepresentation>)
    ensures
        spin_total(reps) >= 0,
    decreases reps.len(),
{
    if reps.len() > 0 {
        lemma_spin_total_nonneg(reps.drop_last());
    }
}

/// Whether the spins of an interaction term can couple to a Lorentz scalar
/// (J = 0): true for no representations, otherwise when the smallest
/// reachable J is 0.
pub fn validate_poincare_invariance(representations: &[PoincareRepresentation]) -> (res: Result<bool, SpireError>)
    requires
        spin_total(representations@) <= u32::MAX,
    ensures
        res matches Ok(b) && b == (representations@.len() == 0 || coupled_spin_range(representations@).0 == 0),
{
    if representations.len() == 0 {
        return Ok(true);
    }
    let mut j_min: u32 = 0;
    let mut j_max: u32 = 0;
    let mut i: usize = 0;
    while i < representations.len()
        invariant
            spin_total(representations@) <= u32::MAX,
            i <= representations.len(),
            (j_min as int, j_max as int) == coupled_spin_range(representations@.take(i as int)),
        decreases representations.len() - i,
    {
        let s = representations[i].twice_spin as u32;
        proof {
            assert(representations@.take(i + 1).drop_last() =~= representations@.take(i as int));
            lemma_spin_range_bounds(representations@.take(i as int));
            lemma_spin_total_prefix(representations@, i + 1);
        }
        if i == 0 {
            j_min = s;
            j_max = s;
        } else {
            let new_max = j_max + s;
            let new_min = if j_min > s { j_min - s } else { s.saturating_sub(j_max) };
            j_min = new_min;
            j_max = new_max;
        }
        i = i + 1;
    }
    assert(representations@.take(i as int) =~= representations@);
    Ok(j_min == 0)
}

// ---------------------------------------------------------------------------
// Hypercharge
// ---------------------------------------------------------------------------

/// Hypercharge from the Gell-Mann–Nishijima relation `Q = T3 + Y/2`, in the
/// scaled units of the quantum-number types: `Y = 2·Q - 3·T3`, wrapped to `i8`.
pub fn derive_hypercharge(electric_charge: i8, weak_isospin_t3: i8) -> (y: i8)
    ensures
        y == (2 * electric_charge - 3 * weak_isospin_t3) as i8,
        -128 <= 2 * electric_charge - 3 * weak_isospin_t3 <= 127 ==> y == 2 * electric_charge - 3 * weak_isospin_t3,
{
    let q = electric_charge as i16;
    let t3 = weak_isospin_t3 as i16;
    (2 * q - 3 * t3) as i8
}

/// The derived hypercharge satisfies the Gell-Mann–Nishijima relation
/// `2·(3Q) = 3·(2T3) + 3Y` whenever it fits in the scaled `i8` range.
pub proof fn lemma_hypercharge_relation(q: i8, t3: i8, y: i8)
    requires
        y == (2 * q - 3 * t3) as i8,
        -128 <= 2 * q - 3 * t3 <= 127,
    ensures
        2 * q == 3 * t3 + y,
{
}

// ---------------------------------------------------------------------------
// Discrete symmetries
// ---------------------------------------------------------------------------

/// The diagnostics of a weak process.
pub open spec fn weak_cpt_diagnostics() -> Seq<Seq<char>> {
    seq!["P is maximally violated in weak interactions."@, "C is violated in weak interactions."@]
}

/// Discrete-symmetry expectations of a process with the given interaction:
/// weak processes violate C and P but conserve T and (approximately) CP;
/// every other interaction conserves all four.
pub fn check_cpt(
    initial: &[crate::ontology::QuantumState],
    final_states: &[crate::ontology::QuantumState],
    interaction: crate::ontology::InteractionType,
) -> (res: Result<DiscreteSymmetryResult, SpireError>)
    ensures
        res matches Ok(r) && {
            let weak = interaction == crate::ontology::InteractionType::WeakCC
                || interaction == crate::ontology::InteractionType::WeakNC;
            &&& r.c_parity_conserved == Some(!weak)
            &&& r.p_parity_conserved == Some(!weak)
            &&& r.t_symmetry_conserved == Some(true)
            &&& r.cp_conserved == Some(true)
            &&& texts(r.diagnostics@) == if weak { weak_cpt_diagnostics() } else { Seq::<Seq<char>>::empty() }
        },
{
    let weak = match interaction {
        crate::ontology::InteractionType::WeakCC | crate::ontology::InteractionType::WeakNC => true,
        _ => false,
    };
    let mut diagnostics: Vec<String> = Vec::new();
    if weak {
        diagnostics.push(String::from_str("P is maximally violated in weak interactions."));
        diagnostics.push(String::from_str("C is violated in weak interactions."));
        assert(texts(diagnostics@) =~= weak_cpt_diagnostics());
    } else {
        assert(texts(diagnostics@) =~= Seq::<Seq<char>>::empty());
    }
    Ok(DiscreteSymmetryResult {
        c_parity_conserved: Some(!weak),
        p_parity_conserved: Some(!weak),
        t_symmetry_conserved: Some(true),
        cp_conserved: Some(true),
        diagnostics,
    })
}


// ---------------------------------------------------------------------------
// Additive conservation laws
// ---------------------------------------------------------------------------

/// The additive quantum numbers checked by [`validate_conservation_laws`].
#[derive(Clone, Copy)]
pub enum Additive {
    /// Electric charge (3Q).

    Charge,
    Baryon,
    ElectronNumber,
    MuonNumber,
    TauNumber,
    Isospin,
    Hyper,
}

spec fn additive_value(q: crate::ontology::QuantumNumbers, a: Additive) -> int {
    match a {
        Additive::Charge => q.electric_charge.0 as int,
        Additive::Baryon => q.baryon_number.0 as int,
        Additive::ElectronNumber => q.lepton_numbers.electron as int,
        Additive::MuonNumber => q.lepton_numbers.muon as int,
        Additive::TauNumber => q.lepton_numbers.tau as int,
        Additive::Isospin => q.weak_isospin.0 as int,
        Additive::Hyper => q.hypercharge.0 as int,
    }
}

/// Sum of `3Q` over a list of states.
pub open spec fn total_charge(s: Seq<crate::ontology::QuantumState>) -> int
    decreases s.len(),
{
    if s.len() == 0 { 0 } else { total_charge(s.drop_last()) + s.last().particle.field.quantum_numbers.electric_charge.0 }
}

/// Sum of `3B` over a list of states.
pub open spec fn total_baryon(s: Seq<crate::ontology::QuantumState>) -> int
    decreases s.len(),
{
    if s.len() == 0 { 0 } else { total_baryon(s.drop_last()) + s.last().particle.field.quantum_numbers.baryon_number.0 }
}

/// Sum of `L_e` over a list of states.
pub open spec fn total_le(s: Seq<crate::ontology::QuantumState>) -> int
    decreases s.len(),
{
    if s.len() == 0 { 0 } else { total_le(s.drop_last()) + s.last().particle.field.quantum_numbers.lepton_numbers.electron }
}

/// Sum of `L_μ` over a list of states.
pub open spec fn total_lmu(s: Seq<crate::ontology::QuantumState>) -> int
    decreases s.len(),
{
    if s.len() == 0 { 0 } else { total_lmu(s.drop_last()) + s.last().particle.field.quantum_numbers.lepton_numbers.muon }
}

/// Sum of `L_τ` over a list of states.
pub open spec fn total_ltau(s: Seq<crate::ontology::QuantumState>) -> int
    decreases s.len(),
{
    if s.len() == 0 { 0 } else { total_ltau(s.drop_last()) + s.last().particle.field.quantum_numbers.lepton_numbers.tau }
}

/// Sum of `2T3` over a list of states.
pub open spec fn total_t3(s: Seq<crate::ontology::QuantumState>) -> int
    decreases s.len(),
{
    if s.len() == 0 { 0 } else { total_t3(s.drop_last()) + s.last().particle.field.quantum_numbers.weak_isospin.0 }
}

/// Sum of `3Y` over a list of states.
pub open spec fn total_y(s: Seq<crate::ontology::QuantumState>) -> int
    decreases s.len(),
{
    if s.len() == 0 { 0 } else { total_y(s.drop_last()) + s.last().particle.field.quantum_numbers.hypercharge.0 }
}

/// Total of one additive quantum number over the states.
pub open spec fn additive_total(s: Seq<crate::ontology::QuantumState>, a: Additive) -> int {
    match a {
        Additive::Charge => total_charge(s),
        Additive::Baryon => total_baryon(s),
        Additive::ElectronNumber => total_le(s),
        Additive::MuonNumber => total_lmu(s),
        Additive::TauNumber => total_ltau(s),
        Additive::Isospin => total_t3(s),
        Additive::Hyper => total_y(s),
    }
}

/// The diagnostic list for one law: empty when the totals agree, otherwise
/// `pre + initial + mid + final`.
pub open spec fn law_violation(initial: int, fin: int, pre: Seq<char>, mid: Seq<char>) -> Seq<Seq<char>> {
    if initial != fin {
        seq![pre + int_decimal(initial) + mid + int_decimal(fin)]
    } else {
        Seq::<Seq<char>>::empty()
    }
}

/// Weak isospin and hypercharge are conserved in electromagnetic and strong
/// processes only.
pub open spec fn conserves_isospin(it: crate::ontology::InteractionType) -> bool {
    it == crate::ontology::InteractionType::Electromagnetic || it == crate::ontology::InteractionType::Strong
}

/// The diagnostics of [`validate_conservation_laws`], in order: electric
/// charge, baryon number, the three lepton numbers, and, for
/// electromagnetic and strong processes, T3 and Y.
pub open spec fn conservation_violations(
    i: Seq<crate::ontology::QuantumState>,
    f: Seq<crate::ontology::QuantumState>,
    it: crate::ontology::InteractionType,
) -> Seq<Seq<char>> {
    law_violation(total_charge(i), total_charge(f), "Electric charge violated: initial 3Q="@, ", final 3Q="@)
    + law_violation(total_baryon(i), total_baryon(f), "Baryon number violated: initial 3B="@, ", final 3B="@)
    + law_violation(total_le(i), total_le(f), "Electron lepton number Le violated: initial="@, ", final="@)
    + law_violation(total_lmu(i), total_lmu(f), "Muon lepton number Lmu violated: initial="@, ", final="@)
    + law_violation(total_ltau(i), total_ltau(f), "Tau lepton number Ltau violated: initial="@, ", final="@)
    + if conserves_isospin(it) {
        law_violation(total_t3(i), total_t3(f), "Weak isospin T3 violated: initial 2T3="@, ", final 2T3="@)
        + law_violation(total_y(i), total_y(f), "Hypercharge Y violated: initial 3Y="@, ", final 3Y="@)
    } else {
        Seq::<Seq<char>>::empty()
    }
}

/// Every running total of `a` over `s`, summed from the front as the
/// check sums it, lies in the `i32` range.
pub open spec fn sums_fit(s: Seq<crate::ontology::QuantumState>, a: Additive) -> bool {
    forall|k: int| 0 <= k <= s.len() ==> i32::MIN <= #[trigger] additive_total(s.take(k), a) <= i32::MAX
}

/// The sums that [`validate_conservation_laws`] forms over `s` fit in
/// `i32`: charge, baryon and the three lepton numbers always, weak isospin
/// and hypercharge for electromagnetic and strong interactions.
pub open spec fn conservation_sums_fit(s: Seq<crate::ontology::QuantumState>, interaction: crate::ontology::InteractionType) -> bool {
    &&& sums_fit(s, Additive::Charge)
    &&& sums_fit(s, Additive::Baryon)
    &&& sums_fit(s, Additive::ElectronNumber)
    &&& sums_fit(s, Additive::MuonNumber)
    &&& sums_fit(s, Additive::TauNumber)
    &&& (interaction is Electromagnetic || interaction is Strong) ==> {
        &&& sums_fit(s, Additive::Isospin)
        &&& sums_fit(s, Additive::Hyper)
    }
}

fn additive_of(q: &crate::ontology::QuantumNumbers, a: Additive) -> (v: i8)
    ensures
        v as int == additive_value(*q, a),
{
    match a {
        Additive::Charge => q.electric_charge.0,
        Additive::Baryon => q.baryon_number.0,
        Additive::ElectronNumber => q.lepton_numbers.electron,
        Additive::MuonNumber => q.lepton_numbers.muon,
        Additive::TauNumber => q.lepton_numbers.tau,
        Additive::Isospin => q.weak_isospin.0,
        Additive::Hyper => q.hypercharge.0,
    }
}

proof fn lemma_additive_total_step(s: Seq<crate::ontology::QuantumState>, a: Additive)
    requires
        s.len() > 0,
    ensures
        additive_total(s, a) == additive_total(s.drop_last(), a) + additive_value(s.last().particle.field.quantum_numbers, a),
{
}

fn sum_additive(states: &[crate::ontology::QuantumState], a: Additive) -> (total: i32)
    requires
        sums_fit(states@, a),
    ensures
        total == additive_total(states@, a),
{
    let mut total: i32 = 0;
    let mut i: usize = 0;
    while i < states.len()
        invariant
            sums_fit(states@, a),
            i <= states.len(),
            total == additive_total(states@.take(i as int), a),
        decreases states.len() - i,
    {
        let v = additive_of(&states[i].particle.field.quantum_numbers, a);
        proof {
            assert(states@.take(i + 1).drop_last() =~= states@.take(i as int));
            lemma_additive_total_step(states@.take(i + 1), a);
            assert(states@.take(i + 1).last() == states@[i as int]);
            assert(i32::MIN <= additive_total(states@.take(i + 1), a) <= i32::MAX);
        }
        total = total + v as i32;
        i = i + 1;
    }
    assert(states@.take(i as int) =~= states@);
    total
}

fn push_law_violation(violations: &mut Vec<String>, initial: i32, fin: i32, pre: &str, mid: &str)
    ensures
        texts(final(violations)@) == texts(old(violations)@) + law_violation(initial as int, fin as int, pre@, mid@),
{
    if initial != fin {
        let mut m = String::new();
        push_str(&mut m, pre);
        push_int(&mut m, initial as i64);
        push_str(&mut m, mid);
        push_int(&mut m, fin as i64);
        let ghost before = violations@;
        violations.push(m);
        assert(texts(violations@) =~= texts(before) + law_violation(initial as int, fin as int, pre@, mid@));
    } else {
        assert(texts(violations@) =~= texts(violations@) + law_violation(initial as int, fin as int, pre@, mid@));
    }
}

/// Validate the additive conservation laws of a proposed reaction.
///
/// Electric charge, baryon number and the three lepton family numbers are
/// always checked; weak isospin T3 and hypercharge Y only for
/// electromagnetic and strong processes. Each violated law contributes one
/// diagnostic, and the process is valid when there is none.
pub fn validate_conservation_laws(
    initial: &[crate::ontology::QuantumState],
    final_states: &[crate::ontology::QuantumState],
    interaction: crate::ontology::InteractionType,
) -> (res: Result<ConservationResult, SpireError>)
    requires
        conservation_sums_fit(initial@, interaction),
        conservation_sums_fit(final_states@, interaction),
    ensures
        res matches Ok(r) && {
            &&& texts(r.violations@) == conservation_violations(initial@, final_states@, interaction)
            &&& r.is_valid == (conservation_violations(initial@, final_states@, interaction).len() == 0)
        },
{
    let mut violations: Vec<String> = Vec::new();
    assert(texts(violations@) =~= Seq::<Seq<char>>::empty());
    push_law_violation(&mut violations, sum_additive(initial, Additive::Charge), sum_additive(final_states, Additive::Charge),
        "Electric charge violated: initial 3Q=", ", final 3Q=");
    push_law_violation(&mut violations, sum_additive(initial, Additive::Baryon), sum_additive(final_states, Additive::Baryon),
        "Baryon number violated: initial 3B=", ", final 3B=");
    push_law_violation(&mut violations, sum_additive(initial, Additive::ElectronNumber), sum_additive(final_states, Additive::ElectronNumber),
        "Electron lepton number Le violated: initial=", ", final=");
    push_law_violation(&mut violations, sum_additive(initial, Additive::MuonNumber), sum_additive(final_states, Additive::MuonNumber),
        "Muon lepton number Lmu violated: initial=", ", final=");
    push_law_violation(&mut violations, sum_additive(initial, Additive::TauNumber), sum_additive(final_states, Additive::TauNumber),
        "Tau lepton number Ltau violated: initial=", ", final=");
    match interaction {
        crate::ontology::InteractionType::Electromagnetic | crate::ontology::InteractionType::Strong => {
            push_law_violation(&mut violations, sum_additive(initial, Additive::Isospin), sum_additive(final_states, Additive::Isospin),
                "Weak isospin T3 violated: initial 2T3=", ", final 2T3=");
            push_law_violation(&mut violations, sum_additive(initial, Additive::Hyper), sum_additive(final_states, Additive::Hyper),
                "Hypercharge Y violated: initial 3Y=", ", final 3Y=");
        },
        _ => {},
    }
    assert(texts(violations@) =~= conservation_violations(initial@, final_states@, interaction));
    let is_valid = violations.len() == 0;
    Ok(ConservationResult { is_valid, violations })
}


// ---------------------------------------------------------------------------
// Generalised gauge conservation
// ---------------------------------------------------------------------------

/// Sum of the N-alities of the representations under `g` (an SU(N) factor).
pub open spec fn n_ality_total(n: u8, g: LieGroup, reps: Seq<LieGroupRepresentation>) -> int
    decreases reps.len(),
{
    if reps.len() == 0 {
        0
    } else {
        n_ality_total(n, g, reps.drop_last())
            + if same_group(reps.last().group, g) { n_ality(n, reps.last().dynkin_labels@) } else { 0 }
    }
}

/// Number of representations under `g` whose dimension is `dim`.
pub open spec fn dimension_count(g: LieGroup, dim: int, reps: Seq<LieGroupRepresentation>) -> int
    decreases reps.len(),
{
    if reps.len() == 0 {
        0
    } else {
        dimension_count(g, dim, reps.drop_last())
            + if same_group(reps.last().group, g) && reps.last().dimension == dim { 1int } else { 0 }
    }
}

/// Some representation of the list is under `g`.
pub open spec fn has_group(g: LieGroup, reps: Seq<LieGroupRepresentation>) -> bool {
    exists|i: int| 0 <= i < reps.len() && same_group(#[trigger] reps[i].group, g)
}

/// Dimension of the spinor representation of SO(n) (2^(n/2 - 1)).
pub open spec fn spinor_dimension(n: u8) -> int {
    vstd::arithmetic::power2::pow2((n / 2 - 1) as nat) as int
}

/// Every representation under `g` has N-ality labels that fit a `u32`
/// computation, and the list is short enough for the totals to fit.
pub open spec fn n_ality_inputs_ok(n: u8, g: LieGroup, reps: Seq<LieGroupRepresentation>) -> bool {
    &&& reps.len() <= 0x00ff_ffff
    &&& forall|i: int| 0 <= i < reps.len() && same_group(#[trigger] reps[i].group, g)
        ==> n_ality_computable(n, reps[i].dynkin_labels@)
}

/// The outcome of a conservation check under one gauge factor.
#[derive(Debug)]
pub enum GroupBalance {
    /// The charge under this factor is conserved.
    Conserved,
    /// The charge is violated; the diagnostic explains how.
    Violated(String),
    /// A U(1) factor: conservation is decided by summing real-valued charges.
    AbelianCharges,
}

proof fn lemma_n_ality_total_bounds(n: u8, g: LieGroup, reps: Seq<LieGroupRepresentation>)
    requires
        n > 0,
    ensures
        0 <= n_ality_total(n, g, reps) <= reps.len() * (n - 1),
    decreases reps.len(),
{
    if reps.len() > 0 {
        lemma_n_ality_total_bounds(n, g, reps.drop_last());
        let l = reps.last().dynkin_labels@;
        lemma_weighted_sum_nonneg(l);
        vstd::arithmetic::div_mod::lemma_fundamental_div_mod(weighted_label_sum(l), n as int);
        assert((reps.len() - 1) * (n - 1) + (n - 1) == reps.len() * (n - 1)) by (nonlinear_arith);
    }
}

proof fn lemma_dimension_count_bounds(g: LieGroup, dim: int, reps: Seq<LieGroupRepresentation>)
    ensures
        0 <= dimension_count(g, dim, reps) <= reps.len(),
    decreases reps.len(),
{
    if reps.len() > 0 {
        lemma_dimension_count_bounds(g, dim, reps.drop_last());
    }
}

fn n_ality_sum(n: u8, group: &LieGroup, reps: &[LieGroupRepresentation]) -> (total: u32)
    requires
        n > 0,
        n_ality_inputs_ok(n, *group, reps@),
    ensures
        total == n_ality_total(n, *group, reps@),
{
    let mut total: u32 = 0;
    let mut i: usize = 0;
    while i < reps.len()
        invariant
            n > 0,
            n_ality_inputs_ok(n, *group, reps@),
            i <= reps.len(),
            total == n_ality_total(n, *group, reps@.take(i as int)),
        decreases reps.len() - i,
    {
        proof {
            assert(reps@.take(i + 1).drop_last() =~= reps@.take(i as int));
            lemma_n_ality_total_bounds(n, *group, reps@.take(i + 1));
            assert((i + 1) * (n - 1) <= 0x00ff_ffff * 255) by (nonlinear_arith) requires i + 1 <= 0x00ff_ffff, n <= 255;
        }
        if reps[i].group == *group {
            let k = compute_n_ality(n, reps[i].dynkin_labels.as_slice());
            total = total + k;
        }
        i = i + 1;
    }
    assert(reps@.take(i as int) =~= reps@);
    total
}

fn count_dimension(group: &LieGroup, dim: u32, reps: &[LieGroupRepresentation]) -> (count: u32)
    requires
        reps@.len() <= 0x00ff_ffff,
    ensures
        count == dimension_count(*group, dim as int, reps@),
        count <= reps@.len(),
{
    let mut count: u32 = 0;
    let mut i: usize = 0;
    while i < reps.len()
        invariant
            reps@.len() <= 0x00ff_ffff,
            i <= reps.len(),
            count == dimension_count(*group, dim as int, reps@.take(i as int)),
        decreases reps.len() - i,
    {
        proof {
            assert(reps@.take(i + 1).drop_last() =~= reps@.take(i as int));
            lemma_dimension_count_bounds(*group, dim as int, reps@.take(i + 1));
        }
        if reps[i].group == *group && reps[i].dimension == dim {
            count = count + 1;
        }
        i = i + 1;
    }
    assert(reps@.take(i as int) =~= reps@);
    proof { lemma_dimension_count_bounds(*group, dim as int, reps@); }
    count
}

fn spinor_dim_of(n: u8) -> (d: u32)
    requires
        2 <= n <= 65,
    ensures
        d == spinor_dimension(n),
{
    let shift = (n as u32) / 2 - 1;
    assert(shift < 32);
    assert(1u32 << shift == vstd::arithmetic::power2::pow2(shift as nat)) by {
        vstd::arithmetic::power2::lemma2_to64();
        if shift < 31 {
            vstd::arithmetic::power2::lemma_pow2_strictly_increases(shift as nat, 31);
        }
        vstd::bits::lemma_u32_shl_is_mul(1u32, shift);
    }
    1u32 << shift
}

/// Inputs that every gauge factor of a conservation check needs: SU(N) with
/// N > 0 and computable N-alities, SO(N) with 2 ≤ N ≤ 65.
pub open spec fn group_check_inputs_ok(
    group: LieGroup,
    initial: Seq<LieGroupRepresentation>,
    fin: Seq<LieGroupRepresentation>,
) -> bool {
    &&& initial.len() <= 0x00ff_ffff
    &&& fin.len() <= 0x00ff_ffff
    &&& match group {
        LieGroup::U1 { .. } => true,
        LieGroup::SU { n, .. } => n > 0 && n_ality_inputs_ok(n, group, initial) && n_ality_inputs_ok(n, group, fin),
        LieGroup::SO { n, .. } => 2 <= n <= 65,
    }
}

/// The outcome of [`check_group_conservation`].
pub open spec fn group_balance_spec(
    group: LieGroup,
    initial: Seq<LieGroupRepresentation>,
    fin: Seq<LieGroupRepresentation>,
) -> Option<Seq<char>> {
    match group {
        LieGroup::U1 { .. } => None,
        LieGroup::SU { n, label } => {
            let a = n_ality_total(n, group, initial) % (n as int);
            let b = n_ality_total(n, group, fin) % (n as int);
            if a != b {
                Some("SU("@ + nat_decimal(n as nat) + ")_"@ + label@ + " "@ + nat_decimal(n as nat)
                    + "-ality violated: initial="@ + nat_decimal(a as nat) + ", final="@ + nat_decimal(b as nat))
            } else {
                Some(Seq::<char>::empty())
            }
        },
        LieGroup::SO { n, label } => {
            let si = dimension_count(group, spinor_dimension(n), initial);
            let sf = dimension_count(group, spinor_dimension(n), fin);
            if (si + sf) % 2 != 0 {
                Some("SO("@ + nat_decimal(n as nat) + ")_"@ + label@ + " spinorial parity violated: initial spinors="@
                    + nat_decimal(si as nat) + ", final spinors="@ + nat_decimal(sf as nat))
            } else {
                Some(Seq::<char>::empty())
            }
        },
    }
}

/// Check the conservation of the charge of one gauge factor between the
/// initial and final representations.
///
/// For SU(N) the total N-ality (mod N) must agree; for SO(N) the total
/// number of spinor representations must be even. A U(1) factor is left to
/// a comparison of the real-valued charges (`AbelianCharges`).
pub fn check_group_conservation(
    group: &LieGroup,
    initial: &[LieGroupRepresentation],
    final_reps: &[LieGroupRepresentation],
) -> (res: GroupBalance)
    requires
        group_check_inputs_ok(*group, initial@, final_reps@),
    ensures
        match group_balance_spec(*group, initial@, final_reps@) {
            None => res is AbelianCharges,
            Some(m) => if m.len() == 0 { res is Conserved } else { res matches GroupBalance::Violated(t) && t@ == m },
        },
{
    match group {
        LieGroup::U1 { .. } => GroupBalance::AbelianCharges,
        LieGroup::SU { n, label } => {
            let na_i = n_ality_sum(*n, group, initial);
            let na_f = n_ality_sum(*n, group, final_reps);
            let nn = *n as u32;
            if na_i % nn != na_f % nn {
                let mut m = String::new();
                push_str(&mut m, "SU(");
                push_nat(&mut m, *n as u64);
                push_str(&mut m, ")_");
                push_str(&mut m, label.as_str());
                push_str(&mut m, " ");
                push_nat(&mut m, *n as u64);
                push_str(&mut m, "-ality violated: initial=");
                push_nat(&mut m, (na_i % nn) as u64);
                push_str(&mut m, ", final=");
                push_nat(&mut m, (na_f % nn) as u64);
                GroupBalance::Violated(m)
            } else {
                GroupBalance::Conserved
            }
        },
        LieGroup::SO { n, label } => {
            let spinor = spinor_dim_of(*n);
            let sp_i = count_dimension(group, spinor, initial);
            let sp_f = count_dimension(group, spinor, final_reps);
            if (sp_i + sp_f) % 2 != 0 {
                let mut m = String::new();
                push_str(&mut m, "SO(");
                push_nat(&mut m, *n as u64);
                push_str(&mut m, ")_");
                push_str(&mut m, label.as_str());
                push_str(&mut m, " spinorial parity violated: initial spinors=");
                push_nat(&mut m, sp_i as u64);
                push_str(&mut m, ", final spinors=");
                push_nat(&mut m, sp_f as u64);
                assert(m@.len() > 0);
                GroupBalance::Violated(m)
            } else {
                GroupBalance::Conserved
            }
        },
    }
}

/// Gauge invariance of a vertex under one factor, where it is decided by
/// integer data: `Some(true)` when no representation is under `group`;
/// for SU(N) whether the total N-ality vanishes mod N; for SO(N) whether
/// the number of spinors is even. `None` for U(1) factors with
/// representations, which are decided by their real-valued charges.
pub fn nonabelian_gauge_invariance(group: &LieGroup, representations: &[LieGroupRepresentation]) -> (res: Option<bool>)
    requires
        representations@.len() <= 0x00ff_ffff,
        has_group(*group, representations@) ==> match *group {
            LieGroup::U1 { .. } => true,
            LieGroup::SU { n, .. } => n_ality_inputs_ok(n, *group, representations@),
            LieGroup::SO { n, .. } => 2 <= n <= 65,
        },
    ensures
        !has_group(*group, representations@) ==> res == Some(true),
        has_group(*group, representations@) ==> res == match *group {
            LieGroup::U1 { .. } => None,
            LieGroup::SU { n, .. } => Some(if n == 0 { true } else { n_ality_total(n, *group, representations@) % (n as int) == 0 }),
            LieGroup::SO { n, .. } => Some(dimension_count(*group, spinor_dimension(n), representations@) % 2 == 0),
        },
{
    let mut any = false;
    let mut i: usize = 0;
    while i < representations.len()
        invariant
            i <= representations.len(),
            any == exists|k: int| 0 <= k < i && same_group(#[trigger] representations@[k].group, *group),
        decreases representations.len() - i,
    {
        if representations[i].group == *group {
            any = true;
        }
        i = i + 1;
    }
    if !any {
        return Some(true);
    }
    match group {
        LieGroup::U1 { .. } => None,
        LieGroup::SU { n, .. } => {
            if *n == 0 {
                return Some(true);
            }
            let total = n_ality_sum(*n, group, representations);
            Some(total % (*n as u32) == 0)
        },
        LieGroup::SO { n, .. } => {
            let spinor = spinor_dim_of(*n);
            let count = count_dimension(group, spinor, representations);
            Some(count % 2 == 0)
        },
    }
}


// ---------------------------------------------------------------------------
// Laws of the conservation check
// ---------------------------------------------------------------------------

proof fn lemma_law_violation_len(a: int, b: int, pre: Seq<char>, mid: Seq<char>)
    ensures
        law_violation(a, b, pre, mid).len() == if a == b { 0int } else { 1int },
{
}

proof fn lemma_violations_empty_iff(
    i: Seq<crate::ontology::QuantumState>,
    f: Seq<crate::ontology::QuantumState>,
    it: crate::ontology::InteractionType,
)
    ensures
        (conservation_violations(i, f, it).len() == 0) <==> {
            &&& total_charge(i) == total_charge(f)
            &&& total_baryon(i) == total_baryon(f)
            &&& total_le(i) == total_le(f)
            &&& total_lmu(i) == total_lmu(f)
            &&& total_ltau(i) == total_ltau(f)
            &&& conserves_isospin(it) ==> total_t3(i) == total_t3(f) && total_y(i) == total_y(f)
        },
{
    lemma_law_violation_len(total_charge(i), total_charge(f), "Electric charge violated: initial 3Q="@, ", final 3Q="@);
    lemma_law_violation_len(total_baryon(i), total_baryon(f), "Baryon number violated: initial 3B="@, ", final 3B="@);
    lemma_law_violation_len(total_le(i), total_le(f), "Electron lepton number Le violated: initial="@, ", final="@);
    lemma_law_violation_len(total_lmu(i), total_lmu(f), "Muon lepton number Lmu violated: initial="@, ", final="@);
    lemma_law_violation_len(total_ltau(i), total_ltau(f), "Tau lepton number Ltau violated: initial="@, ", final="@);
    lemma_law_violation_len(total_t3(i), total_t3(f), "Weak isospin T3 violated: initial 2T3="@, ", final 2T3="@);
    lemma_law_violation_len(total_y(i), total_y(f), "Hypercharge Y violated: initial 3Y="@, ", final 3Y="@);
}

/// Conservation is symmetric: a reaction passes the additive conservation
/// laws exactly when the reversed reaction (final ↔ initial) passes them.
pub proof fn lemma_conservation_symmetric(
    i: Seq<crate::ontology::QuantumState>,
    f: Seq<crate::ontology::QuantumState>,
    it: crate::ontology::InteractionType,
)
    ensures
        (conservation_violations(i, f, it).len() == 0) <==> (conservation_violations(f, i, it).len() == 0),
{
    lemma_violations_empty_iff(i, f, it);
    lemma_violations_empty_iff(f, i, it);
}

/// A process whose final state is its initial state violates no law.
pub proof fn lemma_conservation_reflexive(s: Seq<crate::ontology::QuantumState>, it: crate::ontology::InteractionType)
    ensures
        conservation_violations(s, s, it).len() == 0,
{
    lemma_violations_empty_iff(s, s, it);
}

/// `cs` is `s` with every particle replaced by its charge conjugate.
pub open spec fn conjugated_states(s: Seq<crate::ontology::QuantumState>, cs: Seq<crate::ontology::QuantumState>) -> bool {
    &&& cs.len() == s.len()
    &&& forall|k: int| 0 <= k < s.len() ==> #[trigger] crate::ontology::conjugate_qn_matches(
        s[k].particle.field.quantum_numbers, cs[k].particle.field.quantum_numbers)
}

proof fn lemma_conjugated_totals(s: Seq<crate::ontology::QuantumState>, cs: Seq<crate::ontology::QuantumState>)
    requires
        conjugated_states(s, cs),
    ensures
        total_charge(cs) == -total_charge(s),
        total_baryon(cs) == -total_baryon(s),
        total_le(cs) == -total_le(s),
        total_lmu(cs) == -total_lmu(s),
        total_ltau(cs) == -total_ltau(s),
        total_t3(cs) == -total_t3(s),
        total_y(cs) == -total_y(s),
    decreases s.len(),
{
    if s.len() > 0 {
        assert(conjugated_states(s.drop_last(), cs.drop_last())) by {
            assert forall|k: int| 0 <= k < s.drop_last().len() implies #[trigger] crate::ontology::conjugate_qn_matches(
                s.drop_last()[k].particle.field.quantum_numbers, cs.drop_last()[k].particle.field.quantum_numbers) by {
                assert(crate::ontology::conjugate_qn_matches(s[k].particle.field.quantum_numbers, cs[k].particle.field.quantum_numbers));
            }
        }
        lemma_conjugated_totals(s.drop_last(), cs.drop_last());
        assert(crate::ontology::conjugate_qn_matches(s[s.len() - 1].particle.field.quantum_numbers, cs[s.len() - 1].particle.field.quantum_numbers));
    }
}

/// C symmetry of the selection rules: conjugating every particle of both the
/// initial and the final state neither creates nor removes a violation.
pub proof fn lemma_conservation_conjugation(
    i: Seq<crate::ontology::QuantumState>,
    f: Seq<crate::ontology::QuantumState>,
    ci: Seq<crate::ontology::QuantumState>,
    cf: Seq<crate::ontology::QuantumState>,
    it: crate::ontology::InteractionType,
)
    requires
        conjugated_states(i, ci),
        conjugated_states(f, cf),
    ensures
        (conservation_violations(i, f, it).len() == 0) <==> (conservation_violations(ci, cf, it).len() == 0),
{
    lemma_conjugated_totals(i, ci);
    lemma_conjugated_totals(f, cf);
    lemma_violations_empty_iff(i, f, it);
    lemma_violations_empty_iff(ci, cf, it);
}

/// Crossing symmetry of the selection rules: moving a particle from the
/// initial state to the final state as its antiparticle neither creates nor
/// removes a violation.
pub proof fn lemma_conservation_crossing(
    i: Seq<crate::ontology::QuantumState>,
    f: Seq<crate::ontology::QuantumState>,
    x: crate::ontology::QuantumState,
    cx: crate::ontology::QuantumState,
    it: crate::ontology::InteractionType,
)
    requires
        crate::ontology::conjugate_qn_matches(x.particle.field.quantum_numbers, cx.particle.field.quantum_numbers),
    ensures
        (conservation_violations(i.push(x), f, it).len() == 0) <==> (conservation_violations(i, f.push(cx), it).len() == 0),
{
    assert(i.push(x).drop_last() =~= i);
    assert(f.push(cx).drop_last() =~= f);
    lemma_violations_empty_iff(i.push(x), f, it);
    lemma_violations_empty_iff(i, f.push(cx), it);
}


/// A reaction passes the conservation check exactly when electric charge,
/// baryon number and the three lepton numbers balance between the initial
/// and final states, and, for electromagnetic and strong interactions,
/// weak isospin T3 and hypercharge Y balance too. Weak, Yukawa and scalar
/// self-interactions are not held to T3 and Y.
pub proof fn lemma_check_passes_iff_conserved(
    i: Seq<crate::ontology::QuantumState>,
    f: Seq<crate::ontology::QuantumState>,
    it: crate::ontology::InteractionType,
)
    ensures
        conservation_violations(i, f, it).len() == 0 <==> {
            &&& total_charge(i) == total_charge(f)
            &&& total_baryon(i) == total_baryon(f)
            &&& total_le(i) == total_le(f)
            &&& total_lmu(i) == total_lmu(f)
            &&& total_ltau(i) == total_ltau(f)
            &&& (it == crate::ontology::InteractionType::Electromagnetic || it == crate::ontology::InteractionType::Strong)
                ==> total_t3(i) == total_t3(f) && total_y(i) == total_y(f)
        },
{
}

} // verus!
