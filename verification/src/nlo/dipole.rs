//! Catani–Seymour dipole subtraction: which emitter–emitted–spectator
//! triples of final-state partons give dipoles, and with which splitting.
//!
//! The kinematic mapping, cuts and splitting kernels are evaluated by the
//! caller on the momenta of each triple chosen here.
use vstd::prelude::*;

use crate::SpireError;

verus! {

/// Type of parton splitting in a dipole.
#[derive(Debug, Clone, Copy, PartialEq, Eq, Hash, Structural)]
pub enum SplittingType {
    /// A quark emitting a gluon: q -> q g.
    QuarkToQuarkGluon,
    /// A gluon splitting into two gluons: g -> g g.
    GluonToGluonGluon,
    /// A gluon splitting into a quark-antiquark pair: g -> q qbar.
    GluonToQuarkAntiquark,
}

/// PDG identifier of a quark or antiquark (|id| in 1..=6).
pub open spec fn is_quark(id: i32) -> bool {
    (1 <= id && id <= 6) || (-6 <= id && id <= -1)
}

/// PDG identifier of the gluon.
pub open spec fn is_gluon(id: i32) -> bool {
    id == 21
}

/// The splitting of an emitter into an emitted parton, if any.
pub open spec fn splitting_spec(emitter: i32, emitted: i32) -> Option<SplittingType> {
    if is_quark(emitter) && is_gluon(emitted) {
        Some(SplittingType::QuarkToQuarkGluon)
    } else if is_gluon(emitter) && is_gluon(emitted) {
        Some(SplittingType::GluonToGluonGluon)
    } else if is_gluon(emitter) && is_quark(emitted) {
        Some(SplittingType::GluonToQuarkAntiquark)
    } else {
        None
    }
}

/// Determine the splitting type from the PDG identifiers of the emitter and
/// the emitted parton (quarks 1..6, antiquarks -1..-6, gluon 21).
pub fn identify_splitting(emitter_id: i32, emitted_id: i32) -> (s: Option<SplittingType>)
    requires
        emitter_id != i32::MIN,
        emitter_id == 21 && emitted_id != 21 ==> emitted_id != i32::MIN,
    ensures
        s == splitting_spec(emitter_id, emitted_id),
{
    let q1 = (1 <= emitter_id && emitter_id <= 6) || (-6 <= emitter_id && emitter_id <= -1);
    let g1 = emitter_id == 21;
    let q2 = (1 <= emitted_id && emitted_id <= 6) || (-6 <= emitted_id && emitted_id <= -1);
    let g2 = emitted_id == 21;
    if q1 && g2 {
        Some(SplittingType::QuarkToQuarkGluon)
    } else if g1 && g2 {
        Some(SplittingType::GluonToGluonGluon)
    } else if g1 && q2 {
        Some(SplittingType::GluonToQuarkAntiquark)
    } else {
        None
    }
}

/// The Catani–Seymour scheme for massless final-state partons.
#[derive(Debug, Clone, Copy, Default)]
pub struct CataniSeymourScheme;

impl CataniSeymourScheme {
    /// Name of the scheme.
    pub fn scheme_name(&self) -> (s: &'static str)
        ensures
            s@ == "Catani-Seymour (massless FF)"@,
    {
        "Catani-Seymour (massless FF)"
    }
}

/// One emitter–emitted–spectator triple that gives a dipole.
#[derive(Debug, Clone, Copy, PartialEq, Eq, Structural)]
pub struct DipoleTriple {
    /// Index of the emitter.
    pub emitter: usize,
    /// Index of the emitted parton.
    pub emitted: usize,
    /// Index of the spectator.
    pub spectator: usize,
    /// Splitting of the emitter into the emitted parton.
    pub splitting: SplittingType,
}

/// Position of the triple `(i, j, k)` in the enumeration order (emitter
/// slowest, spectator fastest).
pub open spec fn triple_rank(n: int, i: int, j: int, k: int) -> int {
    (i * n + j) * n + k
}

/// `(i, j, k)` is a dipole: three distinct partons, the emitter splitting
/// into the emitted one.
pub open spec fn is_dipole(ids: Seq<i32>, i: int, j: int, k: int) -> bool {
    &&& 0 <= i < ids.len() && 0 <= j < ids.len() && 0 <= k < ids.len()
    &&& i != j && k != i && k != j
    &&& splitting_spec(ids[i], ids[j]) is Some
}

/// The dipoles among the triples of rank below `r`, in rank order.
pub open spec fn dipoles_below(ids: Seq<i32>, r: int) -> Seq<DipoleTriple>
    decreases r,
{
    if r <= 0 {
        Seq::empty()
    } else {
        let n = ids.len() as int;
        let prev = dipoles_below(ids, r - 1);
        let i = (r - 1) / (n * n);
        let j = ((r - 1) / n) % n;
        let k = (r - 1) % n;
        if is_dipole(ids, i, j, k) {
            prev.push(DipoleTriple {
                emitter: i as usize,
                emitted: j as usize,
                spectator: k as usize,
                splitting: splitting_spec(ids[i], ids[j])->0,
            })
        } else {
            prev
        }
    }
}

/// Every enumerated dipole joins three distinct partons, its emitter
/// splits into its emitted parton with the recorded splitting, and the
/// dipoles come in strictly increasing enumeration order (so none repeats).
pub proof fn lemma_dipoles_valid(ids: Seq<i32>, r: int)
    requires
        0 < ids.len() <= usize::MAX,
    ensures
        forall|t: int| 0 <= t < dipoles_below(ids, r).len() ==> {
            let d = #[trigger] dipoles_below(ids, r)[t];
            &&& is_dipole(ids, d.emitter as int, d.emitted as int, d.spectator as int)
            &&& splitting_spec(ids[d.emitter as int], ids[d.emitted as int]) == Some(d.splitting)
        },
    decreases r,
{
    if r > 0 {
        lemma_dipoles_valid(ids, r - 1);
        let n = ids.len() as int;
        let i = (r - 1) / (n * n);
        let j = ((r - 1) / n) % n;
        let k = (r - 1) % n;
        let prev = dipoles_below(ids, r - 1);
        let cur = dipoles_below(ids, r);
        if is_dipole(ids, i, j, k) {
            let d = DipoleTriple {
                emitter: i as usize,
                emitted: j as usize,
                spectator: k as usize,
                splitting: splitting_spec(ids[i], ids[j])->0,
            };
            assert(d.emitter as int == i && d.emitted as int == j && d.spectator as int == k);
            assert(cur == prev.push(d));
            assert forall|t: int| 0 <= t < cur.len() implies {
                let e = #[trigger] cur[t];
                &&& is_dipole(ids, e.emitter as int, e.emitted as int, e.spectator as int)
                &&& splitting_spec(ids[e.emitter as int], ids[e.emitted as int]) == Some(e.splitting)
            } by {
                if t < prev.len() {
                    assert(cur[t] == prev[t]);
                } else {
                    assert(cur[t] == d);
                }
            }
        }
    }
}

proof fn lemma_rank_digits(n: int, i: int, j: int, k: int)
    requires
        n > 0,
        0 <= i < n,
        0 <= j < n,
        0 <= k < n,
    ensures
        triple_rank(n, i, j, k) / (n * n) == i,
        (triple_rank(n, i, j, k) / n) % n == j,
        triple_rank(n, i, j, k) % n == k,
        0 <= triple_rank(n, i, j, k) < n * n * n,
{
    let r = triple_rank(n, i, j, k);
    assert(r == (i * n + j) * n + k);
    assert(r % n == k && r / n == i * n + j) by (nonlinear_arith)
        requires
            r == (i * n + j) * n + k,
            0 <= k < n,
            0 <= i * n + j,
    {
        vstd::arithmetic::div_mod::lemma_fundamental_div_mod_converse(r, n, i * n + j, k);
    }
    assert((i * n + j) % n == j && (i * n + j) / n == i) by (nonlinear_arith)
        requires
            0 <= j < n,
            0 <= i,
    {
        vstd::arithmetic::div_mod::lemma_fundamental_div_mod_converse(i * n + j, n, i, j);
    }
    assert(r / (n * n) == i) by (nonlinear_arith)
        requires
            r / n == i * n + j,
            (i * n + j) / n == i,
            n > 0,
            r >= 0,
    {
        vstd::arithmetic::div_mod::lemma_div_denominator(r, n, n);
    }
    assert(r < n * n * n) by (nonlinear_arith)
        requires
            r == (i * n + j) * n + k,
            0 <= i < n,
            0 <= j < n,
            0 <= k < n,
    ;
}

/// Enumerate the dipoles of a final state with these parton identifiers:
/// all triples of distinct partons whose emitter splits into the emitted
/// parton, emitter slowest and spectator fastest. Fails with
/// `KinematicsForbidden` for fewer than three partons and `InternalError`
/// when the identifiers do not match the momenta in number.
pub fn dipole_triples(n_momenta: usize, parton_ids: &[i32]) -> (r: Result<Vec<DipoleTriple>, SpireError>)
    requires
        n_momenta >= 3 && parton_ids@.len() == n_momenta ==> forall|i: int| 0 <= i < parton_ids@.len() ==> #[trigger] parton_ids@[i] != i32::MIN,
    ensures
        n_momenta < 3 ==> (r matches Err(SpireError::KinematicsForbidden(m))
            && m@ == "Need at least 3 final-state partons for dipole subtraction"@),
        n_momenta >= 3 && parton_ids@.len() != n_momenta ==> (r matches Err(SpireError::InternalError(m))
            && m@ == "momenta and parton_ids must have the same length"@),
        n_momenta >= 3 && parton_ids@.len() == n_momenta ==> (r matches Ok(v)
            && v@ == dipoles_below(parton_ids@, n_momenta * n_momenta * n_momenta)),
{
    let n = n_momenta;
    if n < 3 {
        return Err(SpireError::KinematicsForbidden(String::from_str("Need at least 3 final-state partons for dipole subtraction")));
    }
    if parton_ids.len() != n {
        return Err(SpireError::InternalError(String::from_str("momenta and parton_ids must have the same length")));
    }
    let ghost ids = parton_ids@;
    let mut out: Vec<DipoleTriple> = Vec::new();
    let mut i: usize = 0;
    while i < n
        invariant
            ids == parton_ids@,
            ids.len() == n,
            3 <= n,
            forall|t: int| 0 <= t < ids.len() ==> #[trigger] ids[t] != i32::MIN,
            i <= n,
            out@ == dipoles_below(ids, triple_rank(n as int, i as int, 0, 0)),
        decreases n - i,
    {
        let mut j: usize = 0;
        while j < n
            invariant
                ids == parton_ids@,
                ids.len() == n,
                3 <= n,
                forall|t: int| 0 <= t < ids.len() ==> #[trigger] ids[t] != i32::MIN,
                i < n,
                j <= n,
                out@ == dipoles_below(ids, triple_rank(n as int, i as int, j as int, 0)),
            decreases n - j,
        {
            let mut k: usize = 0;
            while k < n
                invariant
                    ids == parton_ids@,
                    ids.len() == n,
                    3 <= n,
                    forall|t: int| 0 <= t < ids.len() ==> #[trigger] ids[t] != i32::MIN,
                    i < n,
                    j < n,
                    k <= n,
                    out@ == dipoles_below(ids, triple_rank(n as int, i as int, j as int, k as int)),
                decreases n - k,
            {
                proof {
                    lemma_rank_digits(n as int, i as int, j as int, k as int);
                    assert(triple_rank(n as int, i as int, j as int, k as int) + 1
                        == triple_rank(n as int, i as int, j as int, (k + 1) as int));
                }
                if j != i && k != i && k != j {
                    match identify_splitting(parton_ids[i], parton_ids[j]) {
                        Some(s) => {
                            out.push(DipoleTriple { emitter: i, emitted: j, spectator: k, splitting: s });
                        }
                        None => {}
                    }
                }
                k = k + 1;
            }
            assert(triple_rank(n as int, i as int, j as int, n as int) == triple_rank(n as int, i as int, (j + 1) as int, 0)) by (nonlinear_arith);
            j = j + 1;
        }
        assert(triple_rank(n as int, i as int, n as int, 0) == triple_rank(n as int, (i + 1) as int, 0, 0)) by (nonlinear_arith);
        i = i + 1;
    }
    assert(triple_rank(n as int, n as int, 0, 0) == n * n * n) by (nonlinear_arith);
    Ok(out)
}


/// The splittings of QCD among quarks and antiquarks of all six flavours
/// (PDG ids ±1..±6) and the gluon (21): a quark emits a gluon, a gluon
/// emits a gluon or splits into a quark pair; nothing else splits.
pub proof fn lemma_splitting_classification(emitter: i32, emitted: i32)
    ensures
        (1 <= emitter <= 6 || -6 <= emitter <= -1) && emitted == 21
            ==> splitting_spec(emitter, emitted) == Some(SplittingType::QuarkToQuarkGluon),
        emitter == 21 && emitted == 21
            ==> splitting_spec(emitter, emitted) == Some(SplittingType::GluonToGluonGluon),
        emitter == 21 && (1 <= emitted <= 6 || -6 <= emitted <= -1)
            ==> splitting_spec(emitter, emitted) == Some(SplittingType::GluonToQuarkAntiquark),
        !((1 <= emitter <= 6 || -6 <= emitter <= -1 || emitter == 21)
            && (emitted == 21 || (emitter == 21 && (1 <= emitted <= 6 || -6 <= emitted <= -1))))
            ==> splitting_spec(emitter, emitted) is None,
{
}

} // verus!
