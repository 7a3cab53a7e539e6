//! Hadrons and the partons they contribute to hard scattering.
use vstd::prelude::*;

use crate::text::push_str;

verus! {

/// PDG code of the down quark.
pub const PDG_D: i32 = 1;
/// PDG code of the anti-down quark.
pub const PDG_DBAR: i32 = -1;
/// PDG code of the up quark.
pub const PDG_U: i32 = 2;
/// PDG code of the anti-up quark.
pub const PDG_UBAR: i32 = -2;
/// PDG code of the strange quark.
pub const PDG_S: i32 = 3;
/// PDG code of the anti-strange quark.
pub const PDG_SBAR: i32 = -3;
/// PDG code of the gluon.
pub const PDG_GLUON: i32 = 21;

/// A beam hadron.
#[derive(Debug, Clone, Copy, PartialEq, Eq, Structural)]
pub enum Hadron {
    /// Proton (uud).
    Proton,
    /// Antiproton.
    AntiProton,
    /// Positive pion (u dbar).
    PionPlus,
    /// Negative pion (ubar d).
    PionMinus,
}

/// PDF uncertainty model.
#[derive(Debug, Clone, Copy, PartialEq, Eq, Structural)]
pub enum PdfUncertaintyMode {
    /// Monte-Carlo replica sets (e.g. NNPDF).
    MonteCarloReplicas,
    /// Hessian eigenvector sets (e.g. CT-style sets).
    Hessian,
}

/// Active parton PDG codes of a hadron: light quarks, their antiquarks and
/// the gluon (without strange quarks for pions).
pub open spec fn parton_content_spec(h: Hadron) -> Seq<i32> {
    match h {
        Hadron::Proton | Hadron::AntiProton => seq![PDG_U, PDG_UBAR, PDG_D, PDG_DBAR, PDG_S, PDG_SBAR, PDG_GLUON],
        Hadron::PionPlus | Hadron::PionMinus => seq![PDG_U, PDG_UBAR, PDG_D, PDG_DBAR, PDG_GLUON],
    }
}

/// Display label of a hadron.
pub open spec fn label_spec(h: Hadron) -> Seq<char> {
    match h {
        Hadron::Proton => "p"@,
        Hadron::AntiProton => "p-bar"@,
        Hadron::PionPlus => "pi+"@,
        Hadron::PionMinus => "pi-"@,
    }
}

impl Hadron {
    /// The PDG codes of the partons summed over in the hadronic convolution.
    pub fn parton_content(&self) -> (v: Vec<i32>)
        ensures
            v@ == parton_content_spec(*self),
    {
        let v = match self {
            Hadron::Proton | Hadron::AntiProton => vec![PDG_U, PDG_UBAR, PDG_D, PDG_DBAR, PDG_S, PDG_SBAR, PDG_GLUON],
            Hadron::PionPlus | Hadron::PionMinus => vec![PDG_U, PDG_UBAR, PDG_D, PDG_DBAR, PDG_GLUON],
        };
        assert(v@ =~= parton_content_spec(*self));
        v
    }

    /// Human-readable name.
    pub fn label(&self) -> (s: &'static str)
        ensures
            s@ == label_spec(*self),
    {
        match self {
            Hadron::Proton => "p",
            Hadron::AntiProton => "p-bar",
            Hadron::PionPlus => "pi+",
            Hadron::PionMinus => "pi-",
        }
    }
}

/// The parton channels summed over for two beams: the given channels when
/// there are any, otherwise every pair of a parton of the first beam with a
/// parton of the second, the first beam's parton varying slowest.
pub open spec fn channels_spec(beam1: Hadron, beam2: Hadron, given: Seq<(i32, i32)>) -> Seq<(i32, i32)> {
    if given.len() > 0 {
        given
    } else {
        let p1 = parton_content_spec(beam1);
        let p2 = parton_content_spec(beam2);
        Seq::new(p1.len() * p2.len(), |k: int| (p1[k / (p2.len() as int)], p2[k % (p2.len() as int)]))
    }
}

/// Determine the parton channels of a hadronic process (see [`channels_spec`]).
pub fn parton_channels(beam1: Hadron, beam2: Hadron, given: &[(i32, i32)]) -> (ch: Vec<(i32, i32)>)
    ensures
        ch@ == channels_spec(beam1, beam2, given@),
{
    if given.len() > 0 {
        let mut out: Vec<(i32, i32)> = Vec::new();
        let mut i: usize = 0;
        while i < given.len()
            invariant
                i <= given@.len(),
                out@ == given@.take(i as int),
            decreases given@.len() - i,
        {
            out.push(given[i]);
            assert(given@.take(i + 1) =~= given@.take(i as int).push(given@[i as int]));
            i = i + 1;
        }
        assert(given@.take(given@.len() as int) =~= given@);
        return out;
    }
    let p1 = beam1.parton_content();
    let p2 = beam2.parton_content();
    let ghost n2 = p2@.len() as int;
    assert(p1@.len() <= 7 && p2@.len() <= 7 && n2 >= 5);
    let mut ch: Vec<(i32, i32)> = Vec::new();
    let mut a: usize = 0;
    while a < p1.len()
        invariant
            p1@ == parton_content_spec(beam1),
            p2@ == parton_content_spec(beam2),
            n2 == p2@.len(),
            5 <= n2 <= 7,
            a <= p1@.len() <= 7,
            ch@.len() == a * n2,
            forall|k: int| 0 <= k < ch@.len() ==> #[trigger] ch@[k] == (p1@[k / n2], p2@[k % n2]),
        decreases p1@.len() - a,
    {
        let mut b: usize = 0;
        while b < p2.len()
            invariant
                p1@ == parton_content_spec(beam1),
                p2@ == parton_content_spec(beam2),
                n2 == p2@.len(),
                5 <= n2 <= 7,
                a < p1@.len() <= 7,
                b <= n2,
                ch@.len() == a * n2 + b,
                forall|k: int| 0 <= k < ch@.len() ==> #[trigger] ch@[k] == (p1@[k / n2], p2@[k % n2]),
            decreases n2 - b,
        {
            proof {
                let k = a * n2 + b;
                assert(k / n2 == a && k % n2 == b) by (nonlinear_arith)
                    requires
                        k == a * n2 + b,
                        0 <= b < n2,
                        0 <= a,
                {
                    vstd::arithmetic::div_mod::lemma_fundamental_div_mod_converse(k, n2, a as int, b as int);
                }
            }
            ch.push((p1[a], p2[b]));
            b = b + 1;
        }
        assert((a + 1) * n2 == a * n2 + n2) by (nonlinear_arith);
        a = a + 1;
    }
    assert(ch@ =~= channels_spec(beam1, beam2, given@));
    ch
}

/// Description of a hadronic process: both beam labels and `→ X`.
pub open spec fn beam_description_spec(beam1: Hadron, beam2: Hadron) -> Seq<char> {
    label_spec(beam1) + " "@ + label_spec(beam2) + " → X"@
}

/// Describe the beams of a hadronic process (e.g. `"p p-bar → X"`).
pub fn beam_description(beam1: Hadron, beam2: Hadron) -> (s: String)
    ensures
        s@ == beam_description_spec(beam1, beam2),
{
    let mut s = String::from_str(beam1.label());
    push_str(&mut s, " ");
    push_str(&mut s, beam2.label());
    push_str(&mut s, " → X");
    s
}

} // verus!
