//! Tree-level Feynman topology planning.
//!
//! For `1 -> 2`, `2 -> 1` and `2 -> 2` processes this module decides which
//! diagrams exist under a theoretical model: which vertex factors join the
//! external legs, which fields can mediate an s-, t- or u-channel exchange,
//! and which candidate diagrams are duplicates. The decisions are returned as
//! [`TopologyPlan`]s (indices into the model), from which the diagram graphs
//! are built. It also holds the loop-order classification and the counting
//! behind symmetry factors.
use vstd::prelude::*;

use crate::lagrangian::{
    find_propagator_index, find_vertex_index, first_propagator_for, first_vertex_match, same_legs,
    string_views, TheoreticalModel,
};
use crate::ontology::Field;
use crate::text::{push_char, push_str, str_eq};

verus! {

/// The Mandelstam channel of a diagram.
#[derive(Debug, Clone, Copy, PartialEq, Eq, Hash, Structural)]
pub enum Channel {
    /// s-channel: the total energy flows through one propagator.
    S,
    /// t-channel: momentum transfer between non-annihilating particles.
    T,
    /// u-channel: crossed exchange.
    U,
}

/// The loop order of a diagram.
#[derive(Debug, Clone, Copy, PartialEq, Eq, Hash, Structural)]
pub enum LoopOrder {
    /// Tree level.
    Tree,
    /// One loop.
    OneLoop,
    /// Two loops.
    TwoLoop,
    /// `n` loops.
    NLoop(u32),
}

/// One planned tree-level diagram, by indices into the model.
#[derive(Debug, Clone, Copy, PartialEq, Eq, Structural)]
pub enum TopologyPlan {
    /// A single vertex joins all external legs (`1 -> 2` or `2 -> 1`).
    SingleVertex {
        /// Index of the vertex factor.
        vertex: usize,
    },
    /// Two vertices joined by one internal line (`2 -> 2`).
    TwoVertex {
        /// Channel of the diagram.
        channel: Channel,
        /// Index of the field on the internal line.
        mediator: usize,
        /// Index of the vertex factor at the first vertex.
        vertex1: usize,
        /// Index of the vertex factor at the second vertex.
        vertex2: usize,
        /// Index of the propagator of the internal line, if the model has one.
        propagator: Option<usize>,
    },
}

// ---------------------------------------------------------------------------
// Keys, factorials, multiplicities, loop order
// ---------------------------------------------------------------------------

/// Name of a channel as `Debug` prints it.
pub open spec fn channel_name(c: Channel) -> Seq<char> {
    match c {
        Channel::S => "S"@,
        Channel::T => "T"@,
        Channel::U => "U"@,
    }
}

/// Deduplication key of a diagram: channel, mediator and the two vertex
/// term identifiers, separated by `|`.
pub open spec fn diagram_key_spec(channel: Channel, mediator: Seq<char>, vf1: Seq<char>, vf2: Seq<char>) -> Seq<char> {
    channel_name(channel) + "|"@ + mediator + "|"@ + vf1 + "|"@ + vf2
}

/// Create the deduplication key of a diagram.
pub fn diagram_key(channel: Channel, mediator_id: &str, vf1_id: &str, vf2_id: &str) -> (k: String)
    ensures
        k@ == diagram_key_spec(channel, mediator_id@, vf1_id@, vf2_id@),
{
    let mut k = match channel {
        Channel::S => String::from_str("S"),
        Channel::T => String::from_str("T"),
        Channel::U => String::from_str("U"),
    };
    push_char(&mut k, '|');
    push_str(&mut k, mediator_id);
    push_char(&mut k, '|');
    push_str(&mut k, vf1_id);
    push_char(&mut k, '|');
    push_str(&mut k, vf2_id);
    proof { reveal_strlit("|"); }
    k
}

/// `n!`.
pub open spec fn factorial_spec(n: nat) -> nat
    decreases n,
{
    if n == 0 { 1 } else { n * factorial_spec((n - 1) as nat) }
}

pub proof fn lemma_factorial_monotone(m: nat, n: nat)
    requires
        m <= n,
    ensures
        1 <= factorial_spec(m) <= factorial_spec(n),
    decreases n,
{
    if n > 0 {
        if m < n {
            lemma_factorial_monotone(m, (n - 1) as nat);
        } else {
            lemma_factorial_monotone((n - 1) as nat, (n - 1) as nat);
        }
        assert(factorial_spec((n - 1) as nat) <= n * factorial_spec((n - 1) as nat)) by (nonlinear_arith)
            requires
                n >= 1,
                factorial_spec((n - 1) as nat) >= 1,
        ;
    }
}

proof fn lemma_factorial_twelve()
    ensures
        factorial_spec(12) == 479001600,
{
    assert(factorial_spec(0) == 1);
    assert(factorial_spec(1) == 1);
    assert(factorial_spec(2) == 2);
    assert(factorial_spec(3) == 6);
    assert(factorial_spec(4) == 24);
    assert(factorial_spec(5) == 120);
    assert(factorial_spec(6) == 720);
    assert(factorial_spec(7) == 5040);
    assert(factorial_spec(8) == 40320);
    assert(factorial_spec(9) == 362880);
    assert(factorial_spec(10) == 3628800);
    assert(factorial_spec(11) == 39916800);
    assert(factorial_spec(12) == 479001600);
}

/// `20! = 2432902008176640000`, the largest factorial below `2^64`.
pub proof fn lemma_factorial_twenty()
    ensures
        factorial_spec(20) == 2432902008176640000,
{
    lemma_factorial_twelve();
    assert(factorial_spec(13) == 6227020800);
    assert(factorial_spec(14) == 87178291200);
    assert(factorial_spec(15) == 1307674368000);
    assert(factorial_spec(16) == 20922789888000);
    assert(factorial_spec(17) == 355687428096000);
    assert(factorial_spec(18) == 6402373705728000);
    assert(factorial_spec(19) == 121645100408832000);
    assert(factorial_spec(20) == 2432902008176640000);
}

/// Compute `n!` for small `n` (the result must fit in a `u32`: `n <= 12`).
pub fn factorial(n: u32) -> (f: u32)
    requires
        n <= 12,
    ensures
        f == factorial_spec(n as nat),
{
    let mut f: u32 = 1;
    let mut k: u32 = 1;
    while k <= n
        invariant
            1 <= k <= n + 1,
            n <= 12,
            f == factorial_spec((k - 1) as nat),
        decreases n + 1 - k,
    {
        proof {
            lemma_factorial_monotone(k as nat, 12);
            lemma_factorial_twelve();
            assert(factorial_spec(k as nat) == k * factorial_spec((k - 1) as nat));
            assert(k * f <= 479001600);
        }
        f = k * f;
        k = k + 1;
    }
    f
}

/// The distinct entries of `s`, in order of first occurrence.
pub open spec fn distinct_in_order(s: Seq<Seq<char>>) -> Seq<Seq<char>>
    decreases s.len(),
{
    if s.len() == 0 {
        Seq::empty()
    } else {
        let d = distinct_in_order(s.drop_last());
        if d.contains(s.last()) { d } else { d.push(s.last()) }
    }
}

/// For each distinct identifier of `ids` (in order of first occurrence),
/// how many times it occurs: the multiplicities `n` whose `1/n!` make up the
/// final-state symmetry factor.
pub fn multiplicities(ids: &Vec<String>) -> (m: Vec<usize>)
    ensures
        m@.len() == distinct_in_order(string_views(ids@)).len(),
        forall|k: int| 0 <= k < m@.len() ==>
            #[trigger] m@[k] == crate::lagrangian::occurrences(string_views(ids@), distinct_in_order(string_views(ids@))[k]),
{
    let ghost sv = string_views(ids@);
    let mut distinct: Vec<String> = Vec::new();
    let mut i: usize = 0;
    while i < ids.len()
        invariant
            sv == string_views(ids@),
            i <= ids@.len(),
            string_views(distinct@) == distinct_in_order(sv.take(i as int)),
        decreases ids@.len() - i,
    {
        assert(sv.take(i + 1).drop_last() =~= sv.take(i as int));
        assert(sv.take(i + 1).last() == ids@[i as int]@);
        let mut found = false;
        let mut j: usize = 0;
        while j < distinct.len()
            invariant
                i < ids@.len(),
                j <= distinct@.len(),
                found == exists|t: int| 0 <= t < j && distinct@[t]@ == ids@[i as int]@,
            decreases distinct@.len() - j,
        {
            if str_eq(distinct[j].as_str(), ids[i].as_str()) {
                found = true;
            }
            j = j + 1;
        }
        proof {
            let d = distinct_in_order(sv.take(i as int));
            if found {
                let t = choose|t: int| 0 <= t < distinct@.len() && distinct@[t]@ == ids@[i as int]@;
                assert(d[t] == ids@[i as int]@);
            } else {
                assert(!d.contains(ids@[i as int]@)) by {
                    if d.contains(ids@[i as int]@) {
                        let t = choose|t: int| 0 <= t < d.len() && d[t] == ids@[i as int]@;
                        assert(distinct@[t]@ == ids@[i as int]@);
                    }
                }
            }
        }
        if !found {
            distinct.push(ids[i].clone());
            assert(string_views(distinct@) =~= distinct_in_order(sv.take(i as int)).push(ids@[i as int]@));
        }
        i = i + 1;
    }
    assert(sv.take(ids@.len() as int) =~= sv);
    let mut m: Vec<usize> = Vec::new();
    let mut k: usize = 0;
    while k < distinct.len()
        invariant
            sv == string_views(ids@),
            string_views(distinct@) == distinct_in_order(sv),
            k <= distinct@.len(),
            m@.len() == k,
            forall|t: int| 0 <= t < k ==>
                #[trigger] m@[t] == crate::lagrangian::occurrences(sv, distinct_in_order(sv)[t]),
        decreases distinct@.len() - k,
    {
        let c = count_strings(ids, &distinct[k]);
        assert(distinct_in_order(sv)[k as int] == distinct@[k as int]@);
        m.push(c);
        k = k + 1;
    }
    m
}

fn count_strings(v: &Vec<String>, x: &String) -> (n: usize)
    ensures
        n == crate::lagrangian::occurrences(string_views(v@), x@),
{
    let ghost sv = string_views(v@);
    let mut n: usize = 0;
    let mut i: usize = 0;
    while i < v.len()
        invariant
            sv == string_views(v@),
            i <= v@.len(),
            n <= i,
            n == crate::lagrangian::occurrences(sv.take(i as int), x@),
        decreases v@.len() - i,
    {
        assert(sv.take(i + 1).drop_last() =~= sv.take(i as int));
        if str_eq(v[i].as_str(), x.as_str()) {
            n = n + 1;
        }
        i = i + 1;
    }
    assert(sv.take(v@.len() as int) =~= sv);
    n
}

/// Loop order of a connected diagram: `L = E_internal - V_internal + 1`
/// (tree level when there is no internal vertex or `L <= 0`).
pub open spec fn loop_order_spec(internal_edges: int, internal_vertices: int) -> LoopOrder {
    let l = internal_edges - internal_vertices + 1;
    if internal_vertices == 0 || l <= 0 {
        LoopOrder::Tree
    } else if l == 1 {
        LoopOrder::OneLoop
    } else if l == 2 {
        LoopOrder::TwoLoop
    } else {
        LoopOrder::NLoop(l as u32)
    }
}

/// Classify the loop order from the numbers of internal edges (propagators)
/// and internal vertices of a diagram.
pub fn loop_order_from_counts(internal_edges: u32, internal_vertices: u32) -> (o: LoopOrder)
    ensures
        o == loop_order_spec(internal_edges as int, internal_vertices as int),
{
    if internal_vertices == 0 || internal_edges < internal_vertices {
        return LoopOrder::Tree;
    }
    let l: u32 = internal_edges - internal_vertices;
    if l == 0 {
        LoopOrder::OneLoop
    } else if l == 1 {
        LoopOrder::TwoLoop
    } else {
        LoopOrder::NLoop(l + 1)
    }
}

// ---------------------------------------------------------------------------
// Topology planning
// ---------------------------------------------------------------------------

/// Index of the first field, at or after `from`, with identifier `id`.
pub open spec fn first_field_for(fields: Seq<Field>, id: Seq<char>, from: int) -> Option<int>
    decreases fields.len() - from,
{
    if from < 0 || from >= fields.len() {
        None
    } else if fields[from].id@ == id {
        Some(from)
    } else {
        first_field_for(fields, id, from + 1)
    }
}

proof fn lemma_first_field_bounds(fields: Seq<Field>, id: Seq<char>, from: int)
    ensures
        first_field_for(fields, id, from) matches Some(i) ==> from <= i < fields.len() && fields[i].id@ == id,
    decreases fields.len() - from,
{
    if 0 <= from < fields.len() {
        lemma_first_field_bounds(fields, id, from + 1);
    }
}

/// Electric charge (in units of e/3) of the first field with identifier
/// `id`, or 0 when the model has no such field.
pub open spec fn field_charge_spec(fields: Seq<Field>, id: Seq<char>) -> int {
    match first_field_for(fields, id, 0) {
        Some(i) => fields[i].quantum_numbers.electric_charge.0 as int,
        None => 0,
    }
}

/// Electric charge (in units of e/3) of a field of the model by its
/// identifier; 0 for an unknown field.
pub fn field_charge(model: &TheoreticalModel, id: &str) -> (q: i32)
    ensures
        q == field_charge_spec(model.fields@, id@),
{
    proof { lemma_first_field_bounds(model.fields@, id@, 0); }
    let mut i: usize = 0;
    while i < model.fields.len()
        invariant
            i <= model.fields@.len(),
            first_field_for(model.fields@, id@, 0) == first_field_for(model.fields@, id@, i as int),
        decreases model.fields@.len() - i,
    {
        if str_eq(model.fields[i].id.as_str(), id) {
            return model.fields[i].quantum_numbers.electric_charge.0 as i32;
        }
        i = i + 1;
    }
    0
}

/// The vertex factor (by index) whose legs are a reordering of `q`.
pub open spec fn vertex_for(model: TheoreticalModel, q: Seq<Seq<char>>) -> Option<int> {
    first_vertex_match(model.vertex_factors@, q, 0)
}

/// The four external legs of a `2 -> 2` process: `in1 + in2 -> out1 + out2`.
pub struct Legs {
    /// First incoming field identifier.
    pub in1: Seq<char>,
    /// Second incoming field identifier.
    pub in2: Seq<char>,
    /// First outgoing field identifier.
    pub out1: Seq<char>,
    /// Second outgoing field identifier.
    pub out2: Seq<char>,
}

/// The legs meeting at the two vertices of a channel-`ch` diagram with
/// internal field `x`.
pub open spec fn channel_legs(l: Legs, ch: Channel, x: Seq<char>) -> (Seq<Seq<char>>, Seq<Seq<char>>) {
    match ch {
        Channel::S => (seq![l.in1, l.in2, x], seq![x, l.out1, l.out2]),
        Channel::T => (seq![l.in1, l.out1, x], seq![l.in2, l.out2, x]),
        Channel::U => (seq![l.in1, l.out2, x], seq![l.in2, l.out1, x]),
    }
}

/// The candidate diagram of channel `ch` mediated by the field at index `k`:
/// `(channel, mediator, first vertex, second vertex)`.
///
/// - s-channel: the mediator carries the total incoming charge, and the
///   vertices `[in1, in2, X]` and `[X, out1, out2]` exist;
/// - t-channel: the vertices `[in1, out1, X]` and `[in2, out2, X]` exist;
/// - u-channel: the vertices `[in1, out2, X]` and `[in2, out1, X]` exist.
pub open spec fn candidate(model: TheoreticalModel, l: Legs, ch: Channel, k: int) -> Option<(Channel, int, int, int)> {
    let x = model.fields@[k].id@;
    let (q1, q2) = channel_legs(l, ch, x);
    let charge_ok = ch != Channel::S || model.fields@[k].quantum_numbers.electric_charge.0 as int
        == field_charge_spec(model.fields@, l.in1) + field_charge_spec(model.fields@, l.in2);
    if charge_ok && vertex_for(model, q1) is Some && vertex_for(model, q2) is Some {
        Some((ch, k, vertex_for(model, q1)->0, vertex_for(model, q2)->0))
    } else {
        None
    }
}

/// The candidates of channel `ch` over the first `n` fields, in field order.
pub open spec fn candidates(model: TheoreticalModel, l: Legs, ch: Channel, n: int) -> Seq<(Channel, int, int, int)>
    decreases n,
{
    if n <= 0 {
        Seq::empty()
    } else {
        let prev = candidates(model, l, ch, n - 1);
        match candidate(model, l, ch, n - 1) {
            Some(c) => prev.push(c),
            None => prev,
        }
    }
}

/// `{a, b}` and `{c, d}` are the same pair of identifiers.
pub open spec fn same_pair(a: Seq<char>, b: Seq<char>, c: Seq<char>, d: Seq<char>) -> bool {
    (a == c && b == d) || (a == d && b == c)
}

/// Whether u-channel diagrams are generated: not when the u-channel vertex
/// legs coincide with the s-channel ones (Bhabha-like processes), unless
/// they also coincide with the t-channel ones.
pub open spec fn u_channel_allowed(l: Legs) -> bool {
    let u_as_s = (same_pair(l.in1, l.out2, l.in1, l.in2) && same_pair(l.in2, l.out1, l.out1, l.out2))
        || (same_pair(l.in1, l.out2, l.out1, l.out2) && same_pair(l.in2, l.out1, l.in1, l.in2));
    let u_as_t = (same_pair(l.in1, l.out2, l.in1, l.out1) && same_pair(l.in2, l.out1, l.in2, l.out2))
        || (same_pair(l.in1, l.out2, l.in2, l.out2) && same_pair(l.in2, l.out1, l.in1, l.out1));
    !u_as_s || u_as_t
}

/// All candidate diagrams of a `2 -> 2` process: s-channel, then t-channel,
/// then (when allowed) u-channel, each in field order.
pub open spec fn all_candidates(model: TheoreticalModel, l: Legs) -> Seq<(Channel, int, int, int)> {
    let n = model.fields@.len() as int;
    candidates(model, l, Channel::S, n) + candidates(model, l, Channel::T, n)
        + if u_channel_allowed(l) { candidates(model, l, Channel::U, n) } else { Seq::empty() }
}

/// Deduplication key of a candidate.
pub open spec fn candidate_key(model: TheoreticalModel, c: (Channel, int, int, int)) -> Seq<char> {
    diagram_key_spec(c.0, model.fields@[c.1].id@, model.vertex_factors@[c.2].term_id@, model.vertex_factors@[c.3].term_id@)
}

/// The candidates of `cs` whose key has not occurred before, in order.
pub open spec fn dedup_candidates(model: TheoreticalModel, cs: Seq<(Channel, int, int, int)>) -> Seq<(Channel, int, int, int)>
    decreases cs.len(),
{
    if cs.len() == 0 {
        Seq::empty()
    } else {
        let d = dedup_candidates(model, cs.drop_last());
        if key_in(model, d, cs.last()) {
            d
        } else {
            d.push(cs.last())
        }
    }
}

/// The planned `2 -> 2` diagrams: all candidates, without duplicates.
pub open spec fn planned_two_to_two(model: TheoreticalModel, l: Legs) -> Seq<(Channel, int, int, int)> {
    dedup_candidates(model, all_candidates(model, l))
}

/// The plan `p` is the two-vertex diagram `c`, with the first propagator of
/// its mediator.
pub open spec fn plan_is(model: TheoreticalModel, p: TopologyPlan, c: (Channel, int, int, int)) -> bool {
    &&& p matches TopologyPlan::TwoVertex { channel, mediator, vertex1, vertex2, propagator }
    &&& p->channel == c.0
    &&& p->mediator as int == c.1
    &&& p->vertex1 as int == c.2
    &&& p->vertex2 as int == c.3
    &&& (p->propagator matches Some(pi) ==> first_propagator_for(model.propagators@, model.fields@[c.1].id@, 0) == Some(pi as int))
    &&& (p->propagator is None ==> first_propagator_for(model.propagators@, model.fields@[c.1].id@, 0) is None)
}

/// `plans` is the single-vertex plan for the legs `q` when a vertex factor
/// joins them, and empty otherwise.
pub open spec fn single_vertex_plan(model: TheoreticalModel, q: Seq<Seq<char>>, plans: Seq<TopologyPlan>) -> bool {
    &&& vertex_for(model, q) is None ==> plans.len() == 0
    &&& vertex_for(model, q) matches Some(v) ==> plans.len() == 1
            && (plans[0] matches TopologyPlan::SingleVertex { vertex } && vertex as int == v)
}

/// `c` is a physically admissible diagram of the process: its mediator is
/// a field of the model, each of its vertex factors joins exactly the legs
/// of its vertex (in some order), and an s-channel mediator carries the total
/// incoming charge.
pub open spec fn admissible(model: TheoreticalModel, l: Legs, c: (Channel, int, int, int)) -> bool {
    &&& 0 <= c.1 < model.fields@.len()
    &&& 0 <= c.2 < model.vertex_factors@.len()
    &&& 0 <= c.3 < model.vertex_factors@.len()
    &&& same_legs(string_views(model.vertex_factors@[c.2].field_ids@), channel_legs(l, c.0, model.fields@[c.1].id@).0)
    &&& same_legs(string_views(model.vertex_factors@[c.3].field_ids@), channel_legs(l, c.0, model.fields@[c.1].id@).1)
    &&& c.0 == Channel::S ==> model.fields@[c.1].quantum_numbers.electric_charge.0 as int
            == field_charge_spec(model.fields@, l.in1) + field_charge_spec(model.fields@, l.in2)
}

proof fn lemma_candidates_admissible(model: TheoreticalModel, l: Legs, ch: Channel, n: int)
    requires
        n <= model.fields@.len(),
    ensures
        forall|j: int| 0 <= j < candidates(model, l, ch, n).len() ==> #[trigger] admissible(model, l, candidates(model, l, ch, n)[j]),
        forall|j: int| 0 <= j < candidates(model, l, ch, n).len() ==> (#[trigger] candidates(model, l, ch, n)[j]).0 == ch,
    decreases n,
{
    if n > 0 {
        lemma_candidates_admissible(model, l, ch, n - 1);
        let x = model.fields@[n - 1].id@;
        let (q1, q2) = channel_legs(l, ch, x);
        crate::lagrangian::lemma_lookup_vertex_sound(model.vertex_factors@, q1, 0);
        crate::lagrangian::lemma_lookup_vertex_sound(model.vertex_factors@, q2, 0);
    }
}

proof fn lemma_dedup_subset(model: TheoreticalModel, cs: Seq<(Channel, int, int, int)>)
    ensures
        forall|j: int| 0 <= j < dedup_candidates(model, cs).len() ==> cs.contains(#[trigger] dedup_candidates(model, cs)[j]),
    decreases cs.len(),
{
    if cs.len() > 0 {
        let pre = cs.drop_last();
        lemma_dedup_subset(model, pre);
        let d = dedup_candidates(model, pre);
        assert forall|j: int| 0 <= j < dedup_candidates(model, cs).len() implies cs.contains(#[trigger] dedup_candidates(model, cs)[j]) by {
            if j < d.len() {
                assert(pre.contains(d[j]));
                let t = choose|t: int| 0 <= t < pre.len() && pre[t] == d[j];
                assert(cs[t] == d[j]);
            } else {
                assert(cs[cs.len() - 1] == dedup_candidates(model, cs)[j]);
            }
        }
    }
}

proof fn lemma_dedup_distinct(model: TheoreticalModel, cs: Seq<(Channel, int, int, int)>)
    ensures
        forall|i: int, j: int| 0 <= i < j < dedup_candidates(model, cs).len() ==>
            candidate_key(model, #[trigger] dedup_candidates(model, cs)[i]) != candidate_key(model, #[trigger] dedup_candidates(model, cs)[j]),
    decreases cs.len(),
{
    if cs.len() > 0 {
        let pre = cs.drop_last();
        lemma_dedup_distinct(model, pre);
        let d = dedup_candidates(model, pre);
        let dd = dedup_candidates(model, cs);
        assert forall|i: int, j: int| 0 <= i < j < dd.len() implies
            candidate_key(model, #[trigger] dd[i]) != candidate_key(model, #[trigger] dd[j]) by {
            if j < d.len() {
                assert(dd[i] == d[i] && dd[j] == d[j]);
            } else {
                assert(!key_in(model, d, cs.last()));
                assert(dd[j] == cs.last());
                assert(dd[i] == d[i]);
                if candidate_key(model, d[i]) == candidate_key(model, cs.last()) {
                    assert(key_in(model, d, cs.last()));
                }
            }
        }
    }
}

proof fn lemma_dedup_covers(model: TheoreticalModel, cs: Seq<(Channel, int, int, int)>)
    ensures
        forall|i: int| 0 <= i < cs.len() ==> #[trigger] key_in(model, dedup_candidates(model, cs), cs[i]),
    decreases cs.len(),
{
    if cs.len() > 0 {
        let pre = cs.drop_last();
        lemma_dedup_covers(model, pre);
        let d = dedup_candidates(model, pre);
        let dd = dedup_candidates(model, cs);
        assert forall|i: int| 0 <= i < cs.len() implies #[trigger] key_in(model, dd, cs[i]) by {
            if i < pre.len() {
                assert(pre[i] == cs[i]);
                assert(key_in(model, d, pre[i]));
                let j = choose|j: int| 0 <= j < d.len() && candidate_key(model, #[trigger] d[j]) == candidate_key(model, pre[i]);
                assert(dd[j] == d[j]);
            } else if key_in(model, d, cs.last()) {
                let j = choose|j: int| 0 <= j < d.len() && candidate_key(model, #[trigger] d[j]) == candidate_key(model, cs.last());
                assert(dd[j] == d[j]);
            } else {
                assert(dd[d.len() as int] == cs.last());
            }
        }
    }
}

/// Some candidate of `d` has the key of `c`.
pub open spec fn key_in(model: TheoreticalModel, d: Seq<(Channel, int, int, int)>, c: (Channel, int, int, int)) -> bool {
    exists|j: int| 0 <= j < d.len() && candidate_key(model, #[trigger] d[j]) == candidate_key(model, c)
}

/// The planned `2 -> 2` diagrams are topologically distinct: no two of them
/// share a deduplication key.
pub proof fn lemma_planned_diagrams_distinct(model: TheoreticalModel, l: Legs)
    ensures
        forall|i: int, j: int| 0 <= i < j < planned_two_to_two(model, l).len() ==>
            candidate_key(model, #[trigger] planned_two_to_two(model, l)[i])
                != candidate_key(model, #[trigger] planned_two_to_two(model, l)[j]),
{
    lemma_dedup_distinct(model, all_candidates(model, l));
}

/// Every planned `2 -> 2` diagram is admissible: its vertices exist in the
/// model for exactly the legs they join, and an s-channel mediator conserves
/// charge.
pub proof fn lemma_planned_diagrams_admissible(model: TheoreticalModel, l: Legs)
    ensures
        forall|j: int| 0 <= j < planned_two_to_two(model, l).len() ==>
            #[trigger] admissible(model, l, planned_two_to_two(model, l)[j]),
{
    let n = model.fields@.len() as int;
    let cs = all_candidates(model, l);
    lemma_dedup_subset(model, cs);
    lemma_candidates_admissible(model, l, Channel::S, n);
    lemma_candidates_admissible(model, l, Channel::T, n);
    lemma_candidates_admissible(model, l, Channel::U, n);
    let s = candidates(model, l, Channel::S, n);
    let t = candidates(model, l, Channel::T, n);
    let u = if u_channel_allowed(l) { candidates(model, l, Channel::U, n) } else { Seq::empty() };
    assert forall|i: int| 0 <= i < cs.len() implies #[trigger] admissible(model, l, cs[i]) by {
        if i < s.len() {
            assert(cs[i] == s[i]);
        } else if i < s.len() + t.len() {
            assert(cs[i] == t[i - s.len()]);
        } else {
            assert(cs[i] == u[i - s.len() - t.len()]);
        }
    }
    assert forall|j: int| 0 <= j < planned_two_to_two(model, l).len() implies
        #[trigger] admissible(model, l, planned_two_to_two(model, l)[j]) by {
        let x = planned_two_to_two(model, l)[j];
        assert(cs.contains(x));
        let t2 = choose|t2: int| 0 <= t2 < cs.len() && cs[t2] == x;
        assert(admissible(model, l, cs[t2]));
    }
}

/// No candidate diagram is lost: every candidate of the process is planned,
/// up to a duplicate with the same key.
pub proof fn lemma_planned_diagrams_complete(model: TheoreticalModel, l: Legs)
    ensures
        forall|i: int| 0 <= i < all_candidates(model, l).len() ==>
            #[trigger] key_in(model, planned_two_to_two(model, l), all_candidates(model, l)[i]),
{
    lemma_dedup_covers(model, all_candidates(model, l));
}

/// Three identifiers as owned strings.
fn triple(a: &str, b: &str, c: &str) -> (v: Vec<String>)
    ensures
        string_views(v@) == seq![a@, b@, c@],
{
    let mut v: Vec<String> = Vec::new();
    v.push(String::from_str(a));
    v.push(String::from_str(b));
    v.push(String::from_str(c));
    assert(string_views(v@) =~= seq![a@, b@, c@]);
    v
}

/// The vertex indices of the candidate of channel `ch` at field `k`.
fn candidate_at(model: &TheoreticalModel, in1: &str, in2: &str, out1: &str, out2: &str, ch: Channel, k: usize, q_total: i32)
    -> (r: Option<(usize, usize)>)
    requires
        k < model.fields@.len(),
        q_total == field_charge_spec(model.fields@, in1@) + field_charge_spec(model.fields@, in2@),
    ensures
        candidate(*model, Legs { in1: in1@, in2: in2@, out1: out1@, out2: out2@ }, ch, k as int) is None <==> r is None,
        r matches Some((v1, v2)) ==> v1 < model.vertex_factors@.len() && v2 < model.vertex_factors@.len()
            && candidate(*model, Legs { in1: in1@, in2: in2@, out1: out1@, out2: out2@ }, ch, k as int)
                == Some((ch, k as int, v1 as int, v2 as int)),
{
    let x = model.fields[k].id.as_str();
    if let Channel::S = ch {
        if model.fields[k].quantum_numbers.electric_charge.0 as i32 != q_total {
            return None;
        }
    }
    let (q1, q2) = match ch {
        Channel::S => (triple(in1, in2, x), triple(x, out1, out2)),
        Channel::T => (triple(in1, out1, x), triple(in2, out2, x)),
        Channel::U => (triple(in1, out2, x), triple(in2, out1, x)),
    };
    let v1 = find_vertex_index(model, &q1);
    let v2 = find_vertex_index(model, &q2);
    match (v1, v2) {
        (Some(a), Some(b)) => Some((a, b)),
        _ => None,
    }
}

/// Whether `key` is among `seen`.
fn key_seen(seen: &Vec<String>, key: &String) -> (r: bool)
    ensures
        r == exists|j: int| 0 <= j < seen@.len() && #[trigger] seen@[j]@ == key@,
{
    let mut j: usize = 0;
    while j < seen.len()
        invariant
            j <= seen@.len(),
            forall|t: int| 0 <= t < j ==> #[trigger] seen@[t]@ != key@,
        decreases seen@.len() - j,
    {
        if str_eq(seen[j].as_str(), key.as_str()) {
            return true;
        }
        j = j + 1;
    }
    false
}

/// Append the new candidates of one channel to `plans` (see
/// [`plan_tree_topologies`]).
fn plan_channel(
    model: &TheoreticalModel,
    in1: &str,
    in2: &str,
    out1: &str,
    out2: &str,
    ch: Channel,
    q_total: i32,
    plans: &mut Vec<TopologyPlan>,
    seen: &mut Vec<String>,
    Ghost(before): Ghost<Seq<(Channel, int, int, int)>>,
)
    requires
        q_total == field_charge_spec(model.fields@, in1@) + field_charge_spec(model.fields@, in2@),
        old(plans)@.len() == dedup_candidates(*model, before).len(),
        old(seen)@.len() == old(plans)@.len(),
        forall|j: int| 0 <= j < old(plans)@.len() ==> #[trigger] plan_is(*model, old(plans)@[j], dedup_candidates(*model, before)[j]),
        forall|j: int| 0 <= j < old(seen)@.len() ==> #[trigger] old(seen)@[j]@ == candidate_key(*model, dedup_candidates(*model, before)[j]),
    ensures
        ({
            let l = Legs { in1: in1@, in2: in2@, out1: out1@, out2: out2@ };
            let after = before + candidates(*model, l, ch, model.fields@.len() as int);
            &&& final(plans)@.len() == dedup_candidates(*model, after).len()
            &&& final(seen)@.len() == final(plans)@.len()
            &&& forall|j: int| 0 <= j < final(plans)@.len() ==> #[trigger] plan_is(*model, final(plans)@[j], dedup_candidates(*model, after)[j])
            &&& forall|j: int| 0 <= j < final(seen)@.len() ==> #[trigger] final(seen)@[j]@ == candidate_key(*model, dedup_candidates(*model, after)[j])
        }),
{
    let ghost l = Legs { in1: in1@, in2: in2@, out1: out1@, out2: out2@ };
    let mut k: usize = 0;
    while k < model.fields.len()
        invariant
            k <= model.fields@.len(),
            l == (Legs { in1: in1@, in2: in2@, out1: out1@, out2: out2@ }),
            q_total == field_charge_spec(model.fields@, in1@) + field_charge_spec(model.fields@, in2@),
            plans@.len() == dedup_candidates(*model, before + candidates(*model, l, ch, k as int)).len(),
            seen@.len() == plans@.len(),
            forall|j: int| 0 <= j < plans@.len() ==>
                #[trigger] plan_is(*model, plans@[j], dedup_candidates(*model, before + candidates(*model, l, ch, k as int))[j]),
            forall|j: int| 0 <= j < seen@.len() ==>
                #[trigger] seen@[j]@ == candidate_key(*model, dedup_candidates(*model, before + candidates(*model, l, ch, k as int))[j]),
        decreases model.fields@.len() - k,
    {
        let ghost prefix = before + candidates(*model, l, ch, k as int);
        let ghost d = dedup_candidates(*model, prefix);
        match candidate_at(model, in1, in2, out1, out2, ch, k, q_total) {
            Some((v1, v2)) => {
                let ghost c = candidate(*model, l, ch, k as int)->0;
                assert(before + candidates(*model, l, ch, k + 1) =~= prefix.push(c));
                assert(prefix.push(c).drop_last() =~= prefix);
                let med = model.fields[k].id.as_str();
                let key = diagram_key(ch, med, model.vertex_factors[v1].term_id.as_str(), model.vertex_factors[v2].term_id.as_str());
                assert(key@ == candidate_key(*model, c));
                let dup = key_seen(seen, &key);
                if dup {
                    proof {
                        let j = choose|j: int| 0 <= j < seen@.len() && #[trigger] seen@[j]@ == key@;
                        assert(candidate_key(*model, d[j]) == candidate_key(*model, c));
                        assert(dedup_candidates(*model, prefix.push(c)) == d);
                    }
                } else {
                    proof {
                        assert(!key_in(*model, d, c)) by {
                            if key_in(*model, d, c) {
                                let j = choose|j: int| 0 <= j < d.len() && candidate_key(*model, #[trigger] d[j]) == candidate_key(*model, c);
                                assert(seen@[j]@ == key@);
                            }
                        }
                        assert(dedup_candidates(*model, prefix.push(c)) == d.push(c));
                    }
                    let propagator = find_propagator_index(model, med);
                    let plan = TopologyPlan::TwoVertex { channel: ch, mediator: k, vertex1: v1, vertex2: v2, propagator };
                    plans.push(plan);
                    seen.push(key);
                    proof {
                        assert(plan_is(*model, plans@[plans@.len() - 1], d.push(c)[d.len() as int]));
                    }
                }
            }
            None => {
                assert(before + candidates(*model, l, ch, k + 1) =~= prefix);
            }
        }
        k = k + 1;
    }
}

/// Plan all tree-level diagrams of a process with the given incoming and
/// outgoing field identifiers.
///
/// - `1 -> 2` and `2 -> 1`: one single-vertex diagram when a vertex factor
///   joins the three legs (in any order), none otherwise;
/// - `2 -> 2`: the s-, t- and u-channel candidates (see [`candidate`] and
///   [`u_channel_allowed`]) in that order, each channel in field order,
///   keeping only the first diagram of each deduplication key;
/// - any other multiplicity: no diagram.
pub fn plan_tree_topologies(model: &TheoreticalModel, incoming: &[&str], outgoing: &[&str]) -> (r: Vec<TopologyPlan>)
    ensures
        incoming@.len() == 1 && outgoing@.len() == 2 ==>
            single_vertex_plan(*model, seq![incoming@[0]@, outgoing@[0]@, outgoing@[1]@], r@),
        incoming@.len() == 2 && outgoing@.len() == 1 ==>
            single_vertex_plan(*model, seq![incoming@[0]@, incoming@[1]@, outgoing@[0]@], r@),
        incoming@.len() == 2 && outgoing@.len() == 2 ==> ({
            let l = Legs { in1: incoming@[0]@, in2: incoming@[1]@, out1: outgoing@[0]@, out2: outgoing@[1]@ };
            &&& r@.len() == planned_two_to_two(*model, l).len()
            &&& forall|j: int| 0 <= j < r@.len() ==> #[trigger] plan_is(*model, r@[j], planned_two_to_two(*model, l)[j])
        }),
        !((incoming@.len() == 1 && outgoing@.len() == 2) || (incoming@.len() == 2 && outgoing@.len() == 1)
            || (incoming@.len() == 2 && outgoing@.len() == 2)) ==> r@.len() == 0,
        forall|j: int| 0 <= j < r@.len() ==>
            crate::diagram::layout_shape_ok(#[trigger] r@[j], incoming@.len() as int, outgoing@.len() as int),
{
    let mut plans: Vec<TopologyPlan> = Vec::new();
    if incoming.len() == 1 && outgoing.len() == 2 {
        let q = triple(incoming[0], outgoing[0], outgoing[1]);
        if let Some(v) = find_vertex_index(model, &q) {
            plans.push(TopologyPlan::SingleVertex { vertex: v });
        }
    } else if incoming.len() == 2 && outgoing.len() == 1 {
        let q = triple(incoming[0], incoming[1], outgoing[0]);
        if let Some(v) = find_vertex_index(model, &q) {
            plans.push(TopologyPlan::SingleVertex { vertex: v });
        }
    } else if incoming.len() == 2 && outgoing.len() == 2 {
        let in1 = incoming[0];
        let in2 = incoming[1];
        let out1 = outgoing[0];
        let out2 = outgoing[1];
        let ghost l = Legs { in1: in1@, in2: in2@, out1: out1@, out2: out2@ };
        let ghost n = model.fields@.len() as int;
        let q_total = field_charge(model, in1) + field_charge(model, in2);
        let mut seen: Vec<String> = Vec::new();
        let ghost empty: Seq<(Channel, int, int, int)> = Seq::empty();
        plan_channel(model, in1, in2, out1, out2, Channel::S, q_total, &mut plans, &mut seen, Ghost(empty));
        let ghost after_s = empty + candidates(*model, l, Channel::S, n);
        plan_channel(model, in1, in2, out1, out2, Channel::T, q_total, &mut plans, &mut seen, Ghost(after_s));
        let ghost after_t = after_s + candidates(*model, l, Channel::T, n);
        let u_as_s = (same_pair_exec(in1, out2, in1, in2) && same_pair_exec(in2, out1, out1, out2))
            || (same_pair_exec(in1, out2, out1, out2) && same_pair_exec(in2, out1, in1, in2));
        let u_as_t = (same_pair_exec(in1, out2, in1, out1) && same_pair_exec(in2, out1, in2, out2))
            || (same_pair_exec(in1, out2, in2, out2) && same_pair_exec(in2, out1, in1, out1));
        if !u_as_s || u_as_t {
            plan_channel(model, in1, in2, out1, out2, Channel::U, q_total, &mut plans, &mut seen, Ghost(after_t));
            assert(after_t + candidates(*model, l, Channel::U, n) =~= all_candidates(*model, l));
        } else {
            assert(after_t =~= all_candidates(*model, l));
        }
        assert forall|j: int| 0 <= j < plans@.len() implies
            crate::diagram::layout_shape_ok(#[trigger] plans@[j], 2, 2) by {
            assert(plan_is(*model, plans@[j], planned_two_to_two(*model, l)[j]));
        }
    }
    plans
}

/// Whether `{a, b}` and `{c, d}` are the same pair of identifiers.
fn same_pair_exec(a: &str, b: &str, c: &str, d: &str) -> (r: bool)
    ensures
        r == same_pair(a@, b@, c@, d@),
{
    (str_eq(a, c) && str_eq(b, d)) || (str_eq(a, d) && str_eq(b, c))
}

/// The identifiers of `ids` joined by `" + "`.
pub open spec fn plus_join(ids: Seq<Seq<char>>) -> Seq<char>
    decreases ids.len(),
{
    if ids.len() == 0 {
        Seq::empty()
    } else if ids.len() == 1 {
        ids[0]
    } else {
        plus_join(ids.drop_last()) + " + "@ + ids.last()
    }
}

fn push_plus_join(out: &mut String, ids: &[&str])
    ensures
        final(out)@ == old(out)@ + plus_join(crate::lagrangian::str_views(ids@)),
{
    let ghost v = crate::lagrangian::str_views(ids@);
    let ghost start = out@;
    let mut i: usize = 0;
    while i < ids.len()
        invariant
            v == crate::lagrangian::str_views(ids@),
            i <= ids@.len(),
            out@ == start + plus_join(v.take(i as int)),
        decreases ids@.len() - i,
    {
        assert(v.take(i + 1).drop_last() =~= v.take(i as int));
        if i > 0 {
            push_str(out, " + ");
        } else {
            assert(v.take(1) =~= seq![v[0]]);
        }
        push_str(out, ids[i]);
        i = i + 1;
    }
    assert(v.take(ids@.len() as int) =~= v);
}

/// Label of a reaction: incoming identifiers joined by `" + "`, an arrow,
/// and the outgoing identifiers joined by `" + "`.
pub open spec fn reaction_label_spec(incoming: Seq<Seq<char>>, outgoing: Seq<Seq<char>>) -> Seq<char> {
    plus_join(incoming) + " → "@ + plus_join(outgoing)
}

/// Build the label of a reaction (e.g. `"e- + e+ → mu- + mu+"`).
pub fn reaction_label(incoming: &[&str], outgoing: &[&str]) -> (s: String)
    ensures
        s@ == reaction_label_spec(crate::lagrangian::str_views(incoming@), crate::lagrangian::str_views(outgoing@)),
{
    let mut s = String::new();
    push_plus_join(&mut s, incoming);
    push_str(&mut s, " → ");
    push_plus_join(&mut s, outgoing);
    s
}

} // verus!
