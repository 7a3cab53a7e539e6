//! Feynman diagrams as plain data: the nodes (external legs and vertices)
//! and lines of each planned diagram, laid out for drawing, with the
//! channel, loop order and connectivity flags; and the selections made
//! over a set of diagrams (one channel, the connected ones).
//!
//! Nodes and lines refer to the reaction by index: external leg `k` is the
//! `k`-th incoming particle for `k < n_in` and outgoing particle
//! `k - n_in` otherwise; vertices and mediators are indices into the
//! model's vertex factors and fields. Drawing positions are `f64` bit
//! patterns.
use vstd::prelude::*;

use crate::graph::{loop_order_from_counts, loop_order_spec, Channel, LoopOrder, TopologyPlan};
use crate::text::{nat_decimal, push_nat};

verus! {

/// Bit pattern of the `f64` value `0.0`.
pub const ZERO_BITS: u64 = 0;
/// Bit pattern of the `f64` value `1.0`.
pub const ONE_BITS: u64 = 0x3FF0_0000_0000_0000;
/// Bit pattern of the `f64` value `-1.0`.
pub const MINUS_ONE_BITS: u64 = 0xBFF0_0000_0000_0000;
/// Bit pattern of the `f64` value `2.0`.
pub const TWO_BITS: u64 = 0x4000_0000_0000_0000;
/// Bit pattern of the `f64` value `-2.0`.
pub const MINUS_TWO_BITS: u64 = 0xC000_0000_0000_0000;

/// What a node of a diagram stands for.
#[derive(Debug, Clone, Copy, PartialEq, Eq, Structural)]
pub enum NodeRole {
    /// Incoming external particle number `i` of the reaction.
    Incoming(usize),
    /// Outgoing external particle number `j` of the reaction.
    Outgoing(usize),
    /// An interaction vertex with the model's vertex factor `v`.
    Vertex(usize),
}

/// A node with its drawing position (`f64` bit patterns).
#[derive(Debug, Clone, Copy, PartialEq, Eq, Structural)]
pub struct DiagramNode {
    /// What the node stands for.
    pub role: NodeRole,
    /// Horizontal position.
    pub x_bits: u64,
    /// Vertical position.
    pub y_bits: u64,
}

/// What a line of a diagram carries.
#[derive(Debug, Clone, Copy, PartialEq, Eq, Structural)]
pub enum LineRole {
    /// The on-shell line of external leg `k` (incoming legs first).
    External(usize),
    /// An internal line of the model's field `mediator`, with the model's
    /// propagator for it if there is one.
    Internal {
        /// Index of the field on the line.
        mediator: usize,
        /// Index of its propagator.
        propagator: Option<usize>,
    },
}

/// A line from node `source` to node `target`.
#[derive(Debug, Clone)]
pub struct DiagramLine {
    /// Index of the node the line leaves.
    pub source: usize,
    /// Index of the node the line enters.
    pub target: usize,
    /// What the line carries.
    pub role: LineRole,
    /// Momentum label (`p1`, `p2`, …, `q`).
    pub momentum_label: String,
}

/// One diagram.
#[derive(Debug, Clone)]
pub struct DiagramLayout {
    /// The nodes.
    pub nodes: Vec<DiagramNode>,
    /// The lines, between node indices.
    pub lines: Vec<DiagramLine>,
    /// Mandelstam channel of the diagram.
    pub channel: Channel,
    /// Loop order.
    pub loop_order: LoopOrder,
    /// Whether the diagram is connected.
    pub is_connected: bool,
}

/// A line as plain values.
pub open spec fn line_view(l: DiagramLine) -> (usize, usize, LineRole, Seq<char>) {
    (l.source, l.target, l.role, l.momentum_label@)
}

/// Momentum label `p<k>`.
pub open spec fn leg_label(k: nat) -> Seq<char> {
    "p"@ + nat_decimal(k)
}

/// Number of internal lines.
pub open spec fn internal_count(ls: Seq<DiagramLine>) -> nat
    decreases ls.len(),
{
    if ls.len() == 0 {
        0
    } else {
        internal_count(ls.drop_last()) + if ls.last().role is Internal { 1nat } else { 0nat }
    }
}

/// Number of vertex nodes.
pub open spec fn vertex_count(ns: Seq<DiagramNode>) -> nat
    decreases ns.len(),
{
    if ns.len() == 0 {
        0
    } else {
        vertex_count(ns.drop_last()) + if ns.last().role is Vertex { 1nat } else { 0nat }
    }
}

/// Position `i` (0 or 1) as an `f64` bit pattern.
pub open spec fn index_bits(i: int) -> u64 {
    if i == 0 { ZERO_BITS } else { ONE_BITS }
}

/// Nodes of the single-vertex diagram: the incoming legs at x = -2, the
/// vertex at the origin, the outgoing legs at x = 2, each leg at y = its
/// index.
pub open spec fn single_vertex_nodes(vertex: usize, n_in: int, n_out: int) -> Seq<DiagramNode> {
    Seq::new((n_in + 1 + n_out) as nat, |k: int|
        if k < n_in {
            DiagramNode { role: NodeRole::Incoming(k as usize), x_bits: MINUS_TWO_BITS, y_bits: index_bits(k) }
        } else if k == n_in {
            DiagramNode { role: NodeRole::Vertex(vertex), x_bits: ZERO_BITS, y_bits: ZERO_BITS }
        } else {
            DiagramNode { role: NodeRole::Outgoing((k - n_in - 1) as usize), x_bits: TWO_BITS, y_bits: index_bits(k - n_in - 1) }
        })
}

/// Lines of the single-vertex diagram: each incoming leg into the vertex,
/// then the vertex out to each outgoing leg, labelled `p1`, `p2`, … in
/// that order.
pub open spec fn single_vertex_lines(n_in: int, n_out: int) -> Seq<(usize, usize, LineRole, Seq<char>)> {
    Seq::new((n_in + n_out) as nat, |k: int|
        if k < n_in {
            (k as usize, n_in as usize, LineRole::External(k as usize), leg_label((k + 1) as nat))
        } else {
            (n_in as usize, (k + 1) as usize, LineRole::External(k as usize), leg_label((k + 1) as nat))
        })
}

/// Outgoing leg drawn at the top right: the second one in the u-channel,
/// where the outgoing legs are crossed.
pub open spec fn first_out(channel: Channel) -> usize {
    if channel == Channel::U { 1 } else { 0 }
}

/// Outgoing leg drawn at the bottom right.
pub open spec fn second_out(channel: Channel) -> usize {
    if channel == Channel::U { 0 } else { 1 }
}

/// Nodes of the two-vertex diagram: incoming legs at (-2, ±1), the
/// vertices side by side at (∓1, 0) in the s-channel and stacked at
/// (0, ±1) otherwise, the outgoing legs at (2, ±1).
pub open spec fn two_vertex_nodes(channel: Channel, vertex1: usize, vertex2: usize) -> Seq<DiagramNode> {
    let s = channel == Channel::S;
    seq![
        DiagramNode { role: NodeRole::Incoming(0), x_bits: MINUS_TWO_BITS, y_bits: ONE_BITS },
        DiagramNode { role: NodeRole::Incoming(1), x_bits: MINUS_TWO_BITS, y_bits: MINUS_ONE_BITS },
        DiagramNode { role: NodeRole::Vertex(vertex1), x_bits: if s { MINUS_ONE_BITS } else { ZERO_BITS }, y_bits: if s { ZERO_BITS } else { ONE_BITS } },
        DiagramNode { role: NodeRole::Vertex(vertex2), x_bits: if s { ONE_BITS } else { ZERO_BITS }, y_bits: if s { ZERO_BITS } else { MINUS_ONE_BITS } },
        DiagramNode { role: NodeRole::Outgoing(first_out(channel)), x_bits: TWO_BITS, y_bits: ONE_BITS },
        DiagramNode { role: NodeRole::Outgoing(second_out(channel)), x_bits: TWO_BITS, y_bits: MINUS_ONE_BITS },
    ]
}

/// Lines of the two-vertex diagram. In the s-channel both incoming legs
/// meet at the first vertex and both outgoing legs leave the second; in
/// the t- and u-channels each vertex has one incoming and one outgoing
/// leg. The mediator runs from the first vertex to the second.
pub open spec fn two_vertex_lines(channel: Channel, mediator: usize, propagator: Option<usize>) -> Seq<(usize, usize, LineRole, Seq<char>)> {
    let s = channel == Channel::S;
    seq![
        (0usize, 2usize, LineRole::External(0), leg_label(1)),
        (1usize, if s { 2usize } else { 3usize }, LineRole::External(1), leg_label(2)),
        (2usize, 3usize, LineRole::Internal { mediator, propagator }, "q"@),
        (if s { 3usize } else { 2usize }, 4usize, LineRole::External((2 + first_out(channel)) as usize), leg_label(3)),
        (3usize, 5usize, LineRole::External((2 + second_out(channel)) as usize), leg_label(4)),
    ]
}

/// `g` has exactly the nodes `ns`, the lines `ls` and the channel `c`.
pub open spec fn layout_is(g: DiagramLayout, ns: Seq<DiagramNode>, ls: Seq<(usize, usize, LineRole, Seq<char>)>, c: Channel) -> bool {
    &&& g.nodes@ == ns
    &&& g.lines@.len() == ls.len()
    &&& forall|k: int| 0 <= k < ls.len() ==> #[trigger] line_view(g.lines@[k]) == ls[k]
    &&& g.channel == c
}

/// Plans and reaction sizes that have a layout: a single vertex for
/// `1 -> 2` or `2 -> 1`, two vertices for `2 -> 2`.
pub open spec fn layout_shape_ok(plan: TopologyPlan, n_in: int, n_out: int) -> bool {
    match plan {
        TopologyPlan::SingleVertex { .. } => (n_in == 1 && n_out == 2) || (n_in == 2 && n_out == 1),
        TopologyPlan::TwoVertex { .. } => n_in == 2 && n_out == 2,
    }
}

/// The layout of a plan.
pub open spec fn plan_layout(g: DiagramLayout, plan: TopologyPlan, n_in: int, n_out: int) -> bool {
    match plan {
        TopologyPlan::SingleVertex { vertex } =>
            layout_is(g, single_vertex_nodes(vertex, n_in, n_out), single_vertex_lines(n_in, n_out), Channel::S),
        TopologyPlan::TwoVertex { channel, mediator, vertex1, vertex2, propagator } =>
            layout_is(g, two_vertex_nodes(channel, vertex1, vertex2), two_vertex_lines(channel, mediator, propagator), channel),
    }
}

fn leg_label_string(k: u64) -> (s: String)
    ensures
        s@ == leg_label(k as nat),
{
    let mut s = String::from_str("p");
    push_nat(&mut s, k);
    s
}

fn line(source: usize, target: usize, role: LineRole, label: String) -> (l: DiagramLine)
    ensures
        line_view(l) == (source, target, role, label@),
{
    DiagramLine { source, target, role, momentum_label: label }
}

fn index_bits_exec(i: usize) -> (b: u64)
    requires
        i <= 1,
    ensures
        b == index_bits(i as int),
{
    if i == 0 { ZERO_BITS } else { ONE_BITS }
}

proof fn lemma_single_counts(vertex: usize, n_in: int, n_out: int, ls: Seq<DiagramLine>)
    requires
        0 <= n_in,
        0 <= n_out,
        ls.len() == n_in + n_out,
        forall|k: int| 0 <= k < ls.len() ==> #[trigger] line_view(ls[k]) == single_vertex_lines(n_in, n_out)[k],
    ensures
        internal_count(ls) == 0,
        vertex_count(single_vertex_nodes(vertex, n_in, n_out)) == 1,
{
    let spec_ls = single_vertex_lines(n_in, n_out);
    assert forall|k: int| 0 <= k < ls.len() implies (#[trigger] ls[k]).role is External by {
        assert(line_view(ls[k]) == spec_ls[k]);
    }
    lemma_no_internal(ls);
    let ns = single_vertex_nodes(vertex, n_in, n_out);
    lemma_single_vertex_count(vertex, n_in, n_out, n_in + 1 + n_out);
    assert(ns.take(n_in + 1 + n_out) =~= ns);
}

proof fn lemma_no_internal(ls: Seq<DiagramLine>)
    requires
        forall|k: int| 0 <= k < ls.len() ==> (#[trigger] ls[k]).role is External,
    ensures
        internal_count(ls) == 0,
    decreases ls.len(),
{
    if ls.len() > 0 {
        let p = ls.drop_last();
        assert forall|k: int| 0 <= k < p.len() implies (#[trigger] p[k]).role is External by {
            assert(p[k] == ls[k]);
        }
        assert(ls.last() == ls[ls.len() - 1]);
        lemma_no_internal(p);
    }
}

proof fn lemma_single_vertex_count(vertex: usize, n_in: int, n_out: int, m: int)
    requires
        0 <= n_in,
        0 <= n_out,
        0 <= m <= n_in + 1 + n_out,
    ensures
        vertex_count(single_vertex_nodes(vertex, n_in, n_out).take(m)) == if m > n_in { 1nat } else { 0nat },
    decreases m,
{
    let ns = single_vertex_nodes(vertex, n_in, n_out);
    if m > 0 {
        lemma_single_vertex_count(vertex, n_in, n_out, m - 1);
        assert(ns.take(m).drop_last() =~= ns.take(m - 1));
        assert(ns.take(m).last() == ns[m - 1]);
    } else {
        assert(ns.take(m) =~= Seq::<DiagramNode>::empty());
    }
    if m == n_in + 1 + n_out {
        assert(ns.take(m) =~= ns);
    }
}

proof fn lemma_two_vertex_counts(channel: Channel, mediator: usize, propagator: Option<usize>, vertex1: usize, vertex2: usize, ls: Seq<DiagramLine>)
    requires
        ls.len() == 5,
        forall|k: int| 0 <= k < 5 ==> #[trigger] line_view(ls[k]) == two_vertex_lines(channel, mediator, propagator)[k],
    ensures
        internal_count(ls) == 1,
        vertex_count(two_vertex_nodes(channel, vertex1, vertex2)) == 2,
{
    let spec_ls = two_vertex_lines(channel, mediator, propagator);
    assert(line_view(ls[0]) == spec_ls[0]);
    assert(line_view(ls[1]) == spec_ls[1]);
    assert(line_view(ls[2]) == spec_ls[2]);
    assert(line_view(ls[3]) == spec_ls[3]);
    assert(line_view(ls[4]) == spec_ls[4]);
    assert(ls.drop_last().drop_last().drop_last().drop_last().drop_last() =~= Seq::<DiagramLine>::empty());
    reveal_with_fuel(internal_count, 6);
    let ns = two_vertex_nodes(channel, vertex1, vertex2);
    assert(ns.drop_last().drop_last().drop_last().drop_last().drop_last().drop_last() =~= Seq::<DiagramNode>::empty());
    reveal_with_fuel(vertex_count, 7);
}

/// Lay out a planned diagram for a reaction with `n_in` incoming and
/// `n_out` outgoing particles. Every diagram is a connected tree: a
/// two-vertex diagram has six nodes and five lines, one of them internal.
pub fn layout_plan(plan: &TopologyPlan, n_in: usize, n_out: usize) -> (g: DiagramLayout)
    requires
        layout_shape_ok(*plan, n_in as int, n_out as int),
    ensures
        plan_layout(g, *plan, n_in as int, n_out as int),
        g.loop_order == loop_order_spec(internal_count(g.lines@) as int, vertex_count(g.nodes@) as int),
        g.loop_order == LoopOrder::Tree,
        g.is_connected,
        plan is TwoVertex ==> g.nodes@.len() == 6 && g.lines@.len() == 5 && internal_count(g.lines@) == 1,
        plan is SingleVertex ==> g.nodes@.len() == n_in + n_out + 1 && g.lines@.len() == n_in + n_out
            && internal_count(g.lines@) == 0,
{
    match *plan {
        TopologyPlan::SingleVertex { vertex } => {
            let mut nodes: Vec<DiagramNode> = Vec::new();
            let ghost ns = single_vertex_nodes(vertex, n_in as int, n_out as int);
            let mut i: usize = 0;
            while i < n_in
                invariant
                    n_in <= 2,
                    n_out <= 2,
                    i <= n_in,
                    ns == single_vertex_nodes(vertex, n_in as int, n_out as int),
                    nodes@ == ns.take(i as int),
                decreases n_in - i,
            {
                nodes.push(DiagramNode { role: NodeRole::Incoming(i), x_bits: MINUS_TWO_BITS, y_bits: index_bits_exec(i) });
                assert(nodes@ =~= ns.take(i + 1));
                i = i + 1;
            }
            nodes.push(DiagramNode { role: NodeRole::Vertex(vertex), x_bits: ZERO_BITS, y_bits: ZERO_BITS });
            assert(nodes@ =~= ns.take(n_in + 1));
            let mut j: usize = 0;
            while j < n_out
                invariant
                    n_in <= 2,
                    n_out <= 2,
                    j <= n_out,
                    ns == single_vertex_nodes(vertex, n_in as int, n_out as int),
                    nodes@ == ns.take(n_in + 1 + j),
                decreases n_out - j,
            {
                nodes.push(DiagramNode { role: NodeRole::Outgoing(j), x_bits: TWO_BITS, y_bits: index_bits_exec(j) });
                assert(nodes@ =~= ns.take(n_in + 1 + j + 1));
                j = j + 1;
            }
            assert(nodes@ =~= ns);
            let ghost ls = single_vertex_lines(n_in as int, n_out as int);
            let mut lines: Vec<DiagramLine> = Vec::new();
            let mut k: usize = 0;
            while k < n_in + n_out
                invariant
                    n_in <= 2,
                    n_out <= 2,
                    k <= n_in + n_out,
                    ls == single_vertex_lines(n_in as int, n_out as int),
                    lines@.len() == k,
                    forall|q: int| 0 <= q < k ==> #[trigger] line_view(lines@[q]) == ls[q],
                decreases n_in + n_out - k,
            {
                let label = leg_label_string((k + 1) as u64);
                if k < n_in {
                    lines.push(line(k, n_in, LineRole::External(k), label));
                } else {
                    lines.push(line(n_in, k + 1, LineRole::External(k), label));
                }
                k = k + 1;
            }
            proof {
                lemma_single_counts(vertex, n_in as int, n_out as int, lines@);
            }
            DiagramLayout { nodes, lines, channel: Channel::S, loop_order: loop_order_from_counts(0, 1), is_connected: true }
        }
        TopologyPlan::TwoVertex { channel, mediator, vertex1, vertex2, propagator } => {
            let s = match channel { Channel::S => true, _ => false };
            let u = match channel { Channel::U => true, _ => false };
            let a: usize = if u { 1 } else { 0 };
            let b: usize = if u { 0 } else { 1 };
            let mut nodes: Vec<DiagramNode> = Vec::new();
            nodes.push(DiagramNode { role: NodeRole::Incoming(0), x_bits: MINUS_TWO_BITS, y_bits: ONE_BITS });
            nodes.push(DiagramNode { role: NodeRole::Incoming(1), x_bits: MINUS_TWO_BITS, y_bits: MINUS_ONE_BITS });
            nodes.push(DiagramNode { role: NodeRole::Vertex(vertex1), x_bits: if s { MINUS_ONE_BITS } else { ZERO_BITS }, y_bits: if s { ZERO_BITS } else { ONE_BITS } });
            nodes.push(DiagramNode { role: NodeRole::Vertex(vertex2), x_bits: if s { ONE_BITS } else { ZERO_BITS }, y_bits: if s { ZERO_BITS } else { MINUS_ONE_BITS } });
            nodes.push(DiagramNode { role: NodeRole::Outgoing(a), x_bits: TWO_BITS, y_bits: ONE_BITS });
            nodes.push(DiagramNode { role: NodeRole::Outgoing(b), x_bits: TWO_BITS, y_bits: MINUS_ONE_BITS });
            assert(nodes@ =~= two_vertex_nodes(channel, vertex1, vertex2));
            let mut lines: Vec<DiagramLine> = Vec::new();
            lines.push(line(0, 2, LineRole::External(0), leg_label_string(1)));
            lines.push(line(1, if s { 2 } else { 3 }, LineRole::External(1), leg_label_string(2)));
            lines.push(line(2, 3, LineRole::Internal { mediator, propagator }, String::from_str("q")));
            lines.push(line(if s { 3 } else { 2 }, 4, LineRole::External(2 + a), leg_label_string(3)));
            lines.push(line(3, 5, LineRole::External(2 + b), leg_label_string(4)));
            proof {
                let ls = two_vertex_lines(channel, mediator, propagator);
                assert forall|k: int| 0 <= k < 5 implies #[trigger] line_view(lines@[k]) == ls[k] by {}
                lemma_two_vertex_counts(channel, mediator, propagator, vertex1, vertex2, lines@);
            }
            DiagramLayout { nodes, lines, channel, loop_order: loop_order_from_counts(1, 2), is_connected: true }
        }
    }
}

/// The loop order of a diagram from its counts of internal lines and
/// vertices (`L = E - V + 1`).
pub fn layout_loop_order(g: &DiagramLayout) -> (o: LoopOrder)
    requires
        g.lines@.len() <= u32::MAX,
        g.nodes@.len() <= u32::MAX,
    ensures
        o == loop_order_spec(internal_count(g.lines@) as int, vertex_count(g.nodes@) as int),
{
    let mut e: u32 = 0;
    let mut k: usize = 0;
    while k < g.lines.len()
        invariant
            k <= g.lines@.len() <= u32::MAX,
            e == internal_count(g.lines@.take(k as int)),
            e <= k,
        decreases g.lines@.len() - k,
    {
        assert(g.lines@.take(k + 1).drop_last() =~= g.lines@.take(k as int));
        assert(g.lines@.take(k + 1).last() == g.lines@[k as int]);
        if let LineRole::Internal { .. } = g.lines[k].role {
            e = e + 1;
        }
        k = k + 1;
    }
    assert(g.lines@.take(k as int) =~= g.lines@);
    let mut v: u32 = 0;
    let mut i: usize = 0;
    while i < g.nodes.len()
        invariant
            i <= g.nodes@.len() <= u32::MAX,
            v == vertex_count(g.nodes@.take(i as int)),
            v <= i,
        decreases g.nodes@.len() - i,
    {
        assert(g.nodes@.take(i + 1).drop_last() =~= g.nodes@.take(i as int));
        assert(g.nodes@.take(i + 1).last() == g.nodes@[i as int]);
        if let NodeRole::Vertex(_) = g.nodes[i].role {
            v = v + 1;
        }
        i = i + 1;
    }
    assert(g.nodes@.take(i as int) =~= g.nodes@);
    loop_order_from_counts(e, v)
}

/// Indices, in order, of the diagrams among `ds` whose channel is `c`.
pub open spec fn channel_indices(ds: Seq<DiagramLayout>, c: Channel) -> Seq<usize>
    decreases ds.len(),
{
    if ds.len() == 0 {
        Seq::empty()
    } else {
        let r = channel_indices(ds.drop_last(), c);
        if ds.last().channel == c { r.push((ds.len() - 1) as usize) } else { r }
    }
}

/// Indices, in order, of the connected diagrams among `ds`.
pub open spec fn connected_indices(ds: Seq<DiagramLayout>) -> Seq<usize>
    decreases ds.len(),
{
    if ds.len() == 0 {
        Seq::empty()
    } else {
        let r = connected_indices(ds.drop_last());
        if ds.last().is_connected { r.push((ds.len() - 1) as usize) } else { r }
    }
}

/// The diagrams of one channel: the indices of those among `ds` whose
/// channel is `c`, in order.
pub fn isolate_channel(ds: &[DiagramLayout], c: Channel) -> (idx: Vec<usize>)
    ensures
        idx@ == channel_indices(ds@, c),
{
    let mut idx: Vec<usize> = Vec::new();
    let mut i: usize = 0;
    while i < ds.len()
        invariant
            i <= ds@.len(),
            idx@ == channel_indices(ds@.take(i as int), c),
        decreases ds@.len() - i,
    {
        assert(ds@.take(i + 1).drop_last() =~= ds@.take(i as int));
        assert(ds@.take(i + 1).last() == ds@[i as int]);
        if ds[i].channel == c {
            idx.push(i);
        }
        i = i + 1;
    }
    assert(ds@.take(i as int) =~= ds@);
    idx
}

/// The diagrams kept once vacuum bubbles (disconnected diagrams) are
/// removed: the indices of the connected ones among `ds`, in order.
pub fn connected_diagrams(ds: &[DiagramLayout]) -> (idx: Vec<usize>)
    ensures
        idx@ == connected_indices(ds@),
{
    let mut idx: Vec<usize> = Vec::new();
    let mut i: usize = 0;
    while i < ds.len()
        invariant
            i <= ds@.len(),
            idx@ == connected_indices(ds@.take(i as int)),
        decreases ds@.len() - i,
    {
        assert(ds@.take(i + 1).drop_last() =~= ds@.take(i as int));
        assert(ds@.take(i + 1).last() == ds@[i as int]);
        if ds[i].is_connected {
            idx.push(i);
        }
        i = i + 1;
    }
    assert(ds@.take(i as int) =~= ds@);
    idx
}

} // verus!
