//! Control-flow reconstruction: an instruction sequence is cut into basic
//! blocks, which become the vertices of a directed graph whose edges carry
//! one boolean, `true` for the taken or default edge and `false` for the
//! negated one.

use vstd::prelude::*;

use petgraph::graph::{Graph, NodeIndex, EdgeIndex};
use petgraph::Directed;

use crate::error::LunirError;
use crate::il::{IlChunk, Instruction, JumpBranch};

verus! {

/// `petgraph::graph::Graph`, an adjacency list that holds its nodes and its
/// edges in two vectors. Nothing inside it is visible to the verifier.
#[verifier::external_type_specification]
#[verifier::external_body]
#[verifier::reject_recursive_types(N)]
#[verifier::reject_recursive_types(E)]
#[verifier::reject_recursive_types(Ty)]
#[verifier::reject_recursive_types(Ix)]
pub struct ExGraph<N, E, Ty, Ix>(Graph<N, E, Ty, Ix>);

/// `petgraph::Directed`, the marker of graphs with directed edges.
#[verifier::external_type_specification]
#[verifier::external_body]
pub struct ExDirected(Directed);

/// The node weights of a graph, by node index: each block as its
/// instructions.
pub uninterp spec fn graph_nodes(g: Graph<IlChunk, bool, Directed, usize>) -> Seq<Seq<Instruction>>;

/// The edges of a graph, by edge index: source node index, target node
/// index and label.
pub uninterp spec fn graph_edges(g: Graph<IlChunk, bool, Directed, usize>) -> Seq<(int, int, bool)>;

/// `Graph::default`: a graph without nodes and edges.
#[verifier::external_body]
fn graph_empty() -> (g: Graph<IlChunk, bool, Directed, usize>)
    ensures
        graph_nodes(g) == Seq::<Seq<Instruction>>::empty(),
        graph_edges(g) == Seq::<(int, int, bool)>::empty(),
{
    Graph::default()
}

/// `Graph::node_count`: the number of nodes.
#[verifier::external_body]
fn graph_node_count(g: &Graph<IlChunk, bool, Directed, usize>) -> (r: usize)
    ensures
        r == graph_nodes(*g).len(),
{
    g.node_count()
}

/// `Graph::edge_count`: the number of edges.
#[verifier::external_body]
fn graph_edge_count(g: &Graph<IlChunk, bool, Directed, usize>) -> (r: usize)
    ensures
        r == graph_edges(*g).len(),
{
    g.edge_count()
}

/// `Graph::node_weight`: the weight of the node with the given index, or
/// nothing when the graph has no such node.
#[verifier::external_body]
fn graph_node_weight(g: &Graph<IlChunk, bool, Directed, usize>, index: usize) -> (r: Option<&IlChunk>)
    ensures
        match r {
            Some(w) => index < graph_nodes(*g).len() && w@ == graph_nodes(*g)[index as int],
            None => index >= graph_nodes(*g).len(),
        },
{
    g.node_weight(NodeIndex::new(index))
}

/// `Graph::edge_endpoints`: source and target of the edge with the given
/// index, or nothing when the graph has no such edge.
#[verifier::external_body]
fn graph_edge_endpoints(g: &Graph<IlChunk, bool, Directed, usize>, index: usize) -> (r: Option<(usize, usize)>)
    ensures
        match r {
            Some(ends) => index < graph_edges(*g).len()
                && ends.0 == graph_edges(*g)[index as int].0
                && ends.1 == graph_edges(*g)[index as int].1,
            None => index >= graph_edges(*g).len(),
        },
{
    match g.edge_endpoints(EdgeIndex::new(index)) {
        Some((source, target)) => Some((source.index(), target.index())),
        None => None,
    }
}

/// `Graph::edge_weight`: the label of the edge with the given index, or
/// nothing when the graph has no such edge.
#[verifier::external_body]
fn graph_edge_weight(g: &Graph<IlChunk, bool, Directed, usize>, index: usize) -> (r: Option<bool>)
    ensures
        match r {
            Some(label) => index < graph_edges(*g).len() && label == graph_edges(*g)[index as int].2,
            None => index >= graph_edges(*g).len(),
        },
{
    g.edge_weight(EdgeIndex::new(index)).copied()
}

/// `Graph::add_node`: appends a node with the given weight and returns its
/// index, the number of nodes before the call. Edges stay as they are.
#[verifier::external_body]
fn graph_add_node(g: &mut Graph<IlChunk, bool, Directed, usize>, weight: IlChunk) -> (r: usize)
    ensures
        graph_nodes(*final(g)) == graph_nodes(*old(g)).push(weight@),
        graph_edges(*final(g)) == graph_edges(*old(g)),
        r == graph_nodes(*old(g)).len(),
{
    g.add_node(weight).index()
}

/// `Graph::add_edge`: appends an edge between two nodes of the graph and
/// returns its index, the number of edges before the call. Parallel edges
/// are kept. The call panics when either node is missing, so both must
/// exist.
#[verifier::external_body]
fn graph_add_edge(g: &mut Graph<IlChunk, bool, Directed, usize>, source: usize, target: usize, label: bool) -> (r: usize)
    requires
        source < graph_nodes(*old(g)).len(),
        target < graph_nodes(*old(g)).len(),
    ensures
        graph_nodes(*final(g)) == graph_nodes(*old(g)),
        graph_edges(*final(g)) == graph_edges(*old(g)).push((source as int, target as int, label)),
        r == graph_edges(*old(g)).len(),
{
    g.add_edge(NodeIndex::new(source), NodeIndex::new(target), label).index()
}

/// Whether `index` is where `weight` first stands among `nodes`, or their
/// number when it stands nowhere.
pub open spec fn is_first_index(nodes: Seq<Seq<Instruction>>, weight: Seq<Instruction>, index: int) -> bool {
    &&& 0 <= index <= nodes.len()
    &&& forall|k: int| 0 <= k < index ==> nodes[k] != weight
    &&& index < nodes.len() ==> nodes[index] == weight
}

/// The index at which `weight` first stands among `nodes`, or their number.
pub open spec fn node_index(nodes: Seq<Seq<Instruction>>, weight: Seq<Instruction>) -> int {
    choose|index: int| is_first_index(nodes, weight, index)
}

/// `nodes` with `weight` appended, unless it stands among them already.
pub open spec fn with_node(nodes: Seq<Seq<Instruction>>, weight: Seq<Instruction>) -> Seq<Seq<Instruction>> {
    if node_index(nodes, weight) < nodes.len() {
        nodes
    } else {
        nodes.push(weight)
    }
}

/// Only one index is the first at which a weight stands.
pub proof fn lemma_first_index_unique(nodes: Seq<Seq<Instruction>>, weight: Seq<Instruction>, a: int, b: int)
    requires
        is_first_index(nodes, weight, a),
        is_first_index(nodes, weight, b),
    ensures
        a == b,
        node_index(nodes, weight) == a,
{
    if a < b {
        assert(nodes[a] == weight);
    }
    if b < a {
        assert(nodes[b] == weight);
    }
    let c = node_index(nodes, weight);
    assert(is_first_index(nodes, weight, c));
    if a < c {
        assert(nodes[a] == weight);
    }
    if c < a {
        assert(nodes[c] == weight);
    }
}

/// Where a weight first stands is where it stands once it has been added.
pub proof fn lemma_node_index_kept(nodes: Seq<Seq<Instruction>>, weight: Seq<Instruction>, index: int)
    requires
        is_first_index(nodes, weight, index),
    ensures
        node_index(nodes, weight) == index,
        node_index(with_node(nodes, weight), weight) == index,
        index < with_node(nodes, weight).len(),
        with_node(nodes, weight)[index] == weight,
{
    lemma_first_index_unique(nodes, weight, index, index);
    lemma_first_index_unique(with_node(nodes, weight), weight, index, index);
}

/// The index of the vertex that holds `weight`: that of the first vertex
/// with these instructions, or of a new vertex appended for them.
pub fn graph_get_or_insert(graph: &mut Graph<IlChunk, bool, Directed, usize>, weight: IlChunk) -> (index: usize)
    ensures
        is_first_index(graph_nodes(*old(graph)), weight@, index as int),
        index == node_index(graph_nodes(*old(graph)), weight@),
        graph_nodes(*final(graph)) == with_node(graph_nodes(*old(graph)), weight@),
        graph_edges(*final(graph)) == graph_edges(*old(graph)),
        index < graph_nodes(*final(graph)).len(),
        graph_nodes(*final(graph))[index as int] == weight@,
{
    let count = graph_node_count(graph);
    let mut i: usize = 0;
    while i < count
        invariant
            i <= count,
            count == graph_nodes(*graph).len(),
            *graph == *old(graph),
            forall|k: int| 0 <= k < i ==> graph_nodes(*graph)[k] != weight@,
        decreases count - i,
    {
        match graph_node_weight(graph, i) {
            Some(w) => {
                if w.same(&weight) {
                    proof {
                        lemma_first_index_unique(graph_nodes(*graph), weight@, i as int, i as int);
                    }
                    return i;
                }
            },
            None => {},
        }
        i += 1;
    }
    proof {
        lemma_first_index_unique(graph_nodes(*graph), weight@, count as int, count as int);
    }
    graph_add_node(graph, weight)
}

/// Whether a block of the first partition begins at `pc`: at position 0 and
/// right after every control transfer.
pub open spec fn is_block_start(code: Seq<Instruction>, pc: int) -> bool {
    pc == 0 || (0 < pc <= code.len() && code[pc - 1].is_transfer())
}

/// Whether a control transfer before position `upto` targets `t`.
pub open spec fn targeted(code: Seq<Instruction>, t: int, upto: int) -> bool {
    exists|q: int|
        0 <= q < upto && q < code.len() && #[trigger] code[q].is_transfer() && code[q].branch().end
            == t
}

/// Whether a block begins at `t` once the jumps before `upto` have split the
/// blocks that they enter.
pub open spec fn refined_mark(code: Seq<Instruction>, t: int, upto: int) -> bool {
    is_block_start(code, t) || (0 < t < code.len() && targeted(code, t, upto))
}

/// Whether `t` lies strictly inside a block of the first partition and is
/// the target of a jump: the block is split there.
pub open spec fn is_split_point(code: Seq<Instruction>, t: int) -> bool {
    0 < t < code.len() && !is_block_start(code, t) && targeted(code, t, code.len() as int)
}

/// Whether a block of the final partition begins at `t`.
pub open spec fn is_boundary(code: Seq<Instruction>, t: int) -> bool {
    is_block_start(code, t) || is_split_point(code, t)
}

/// For each position from 0 to the length, whether a block of the first
/// partition begins there.
pub open spec fn start_mask(code: Seq<Instruction>) -> Seq<bool> {
    Seq::new(code.len() + 1, |t: int| is_block_start(code, t))
}

/// For each position from 0 to the length, whether a block of the final
/// partition begins there.
pub open spec fn boundary_mask(code: Seq<Instruction>) -> Seq<bool> {
    Seq::new(code.len() + 1, |t: int| is_boundary(code, t))
}

/// The end of the span that holds position `pc`: the first marked position
/// after it, or the last position of the mask.
pub open spec fn span_end(mask: Seq<bool>, pc: int) -> int
    decreases mask.len() - pc,
{
    if pc + 2 >= mask.len() {
        mask.len() - 1
    } else if mask[pc + 1] {
        pc + 1
    } else {
        span_end(mask, pc + 1)
    }
}

/// The spans into which the marks cut the positions from `s` on, in
/// ascending order; a mark on the last position adds an empty span there.
pub open spec fn spans_from(mask: Seq<bool>, s: int) -> Seq<(int, int)>
    decreases mask.len() - s,
{
    let n = mask.len() - 1;
    if 0 <= s < n {
        let e = span_end(mask, s);
        if s < e <= n {
            seq![(s, e)].add(spans_from(mask, e))
        } else {
            Seq::empty()
        }
    } else if n >= 0 && mask[n] {
        seq![(n, n)]
    } else {
        Seq::empty()
    }
}

/// The first partition: a block begins at position 0 and after every control
/// transfer, and ends with the next control transfer or with the sequence.
/// When the sequence is empty or ends in a control transfer, an empty block
/// stands at its end.
pub open spec fn partition(code: Seq<Instruction>) -> Seq<(int, int)> {
    spans_from(start_mask(code), 0)
}

/// The final partition: the first one, with every block split at each jump
/// target strictly inside it.
pub open spec fn cir_blocks(code: Seq<Instruction>) -> Seq<(int, int)> {
    spans_from(boundary_mask(code), 0)
}

/// The instructions of the final block that begins at `s`; none when `s` is
/// not a position of the sequence.
pub open spec fn cir_block(code: Seq<Instruction>, s: int) -> Seq<Instruction> {
    if 0 <= s < code.len() {
        code.subrange(s, span_end(boundary_mask(code), s))
    } else {
        Seq::empty()
    }
}

/// The position after a jump, where control goes when the jump is not
/// taken, held to the largest index of the machine.
pub open spec fn fall_through(start: usize) -> usize {
    if start < usize::MAX {
        (start + 1) as usize
    } else {
        usize::MAX
    }
}

/// The position that makes the instruction at `p` invalid, if any: a jump
/// target that is neither inside the sequence nor the start of a block, or,
/// for a conditional jump, a fall-through that is not the start of a block
/// of the first partition.
pub open spec fn invalid_at(code: Seq<Instruction>, p: int) -> Option<usize> {
    let i = code[p];
    let b = i.branch();
    if !i.is_transfer() {
        None
    } else if !(b.end < code.len() || is_block_start(code, b.end as int)) {
        Some(b.end)
    } else if !(i is Jump) && !is_block_start(code, fall_through(b.start) as int) {
        Some(fall_through(b.start))
    } else {
        None
    }
}

/// The invalid position of the first invalid instruction from `p` on.
pub open spec fn first_invalid(code: Seq<Instruction>, p: int) -> Option<usize>
    decreases code.len() - p,
{
    if p < 0 || p >= code.len() {
        None
    } else if invalid_at(code, p) is Some {
        invalid_at(code, p)
    } else {
        first_invalid(code, p + 1)
    }
}

/// The edges that leave a block, each as the start of its source block, the
/// start of its target block and its label. A jump gives one `true` edge to
/// its target. A conditional jump gives a `true` edge to its target and a
/// `false` edge to its fall-through. A jump on a false register gives a
/// `false` edge to its target and a `true` edge to its fall-through. A block
/// that ends where another block was split gives a `true` edge to the block
/// that follows. Any other block gives none.
pub open spec fn block_edges(code: Seq<Instruction>, span: (int, int)) -> Seq<(int, int, bool)> {
    let (s, e) = span;
    if !(0 <= s < e <= code.len()) {
        Seq::empty()
    } else {
        match code[e - 1] {
            Instruction::Jump(j) => seq![(s, j.branch.end as int, true)],
            Instruction::ConditionalJump(j) => seq![
                (s, j.branch.end as int, true),
                (s, fall_through(j.branch.start) as int, false),
            ],
            Instruction::JumpNot(j) => seq![
                (s, j.branch.end as int, false),
                (s, fall_through(j.branch.start) as int, true),
            ],
            _ => if e < code.len() {
                seq![(s, e, true)]
            } else {
                Seq::empty()
            },
        }
    }
}

/// The edges of the given blocks, block after block.
pub open spec fn edges_of(code: Seq<Instruction>, blocks: Seq<(int, int)>) -> Seq<(int, int, bool)>
    decreases blocks.len(),
{
    if blocks.len() == 0 {
        Seq::empty()
    } else {
        edges_of(code, blocks.drop_last()).add(block_edges(code, blocks.last()))
    }
}

/// The edges of the control-flow graph, in ascending order of their source
/// blocks.
pub open spec fn cir_edges(code: Seq<Instruction>) -> Seq<(int, int, bool)> {
    edges_of(code, cir_blocks(code))
}

/// The graph with one more edge: the vertex of the source block and then
/// that of the target block is looked up by its instructions, and appended
/// when it is new; then the edge is appended.
pub open spec fn graph_step(
    code: Seq<Instruction>,
    graph: (Seq<Seq<Instruction>>, Seq<(int, int, bool)>),
    edge: (int, int, bool),
) -> (Seq<Seq<Instruction>>, Seq<(int, int, bool)>) {
    let source = cir_block(code, edge.0);
    let target = cir_block(code, edge.1);
    let with_source = with_node(graph.0, source);
    let with_both = with_node(with_source, target);
    (
        with_both,
        graph.1.push((node_index(with_source, source), node_index(with_both, target), edge.2)),
    )
}

/// The graph that the edges build, one after the other, from the empty
/// graph: its vertices and its edges, each by index.
pub open spec fn graph_of(code: Seq<Instruction>, edges: Seq<(int, int, bool)>) -> (
    Seq<Seq<Instruction>>,
    Seq<(int, int, bool)>,
)
    decreases edges.len(),
{
    if edges.len() == 0 {
        (Seq::empty(), Seq::empty())
    } else {
        graph_step(code, graph_of(code, edges.drop_last()), edges.last())
    }
}

/// Whether a span holds a position.
pub open spec fn in_span(span: (int, int), pc: int) -> bool {
    span.0 <= pc < span.1
}

/// Whether one of the spans holds a position.
pub open spec fn covered(spans: Seq<(int, int)>, pc: int) -> bool {
    exists|k: int| 0 <= k < spans.len() && in_span(#[trigger] spans[k], pc)
}

/// Spans as pairs of mathematical integers.
pub open spec fn spans_view(spans: Seq<(usize, usize)>) -> Seq<(int, int)> {
    Seq::new(spans.len(), |k: int| (spans[k].0 as int, spans[k].1 as int))
}

/// The end of a span lies after the position, within the mask, on a mark or
/// on the last position, and no mark lies between.
pub proof fn lemma_span_end(mask: Seq<bool>, pc: int)
    requires
        0 <= pc < mask.len() - 1,
    ensures
        pc < span_end(mask, pc) <= mask.len() - 1,
        span_end(mask, pc) == mask.len() - 1 || mask[span_end(mask, pc)],
        forall|t: int| pc < t < span_end(mask, pc) ==> !mask[t],
    decreases mask.len() - pc,
{
    if pc + 2 >= mask.len() {
    } else if mask[pc + 1] {
    } else {
        lemma_span_end(mask, pc + 1);
    }
}

/// What holds of the spans from `s` on: they lie within the mask in
/// ascending order without overlap, each begins at `s` or on a mark and ends
/// where `span_end` says, and every position from `s` on lies in one of
/// them.
pub proof fn lemma_spans(mask: Seq<bool>, s: int)
    requires
        mask.len() >= 1,
        0 <= s <= mask.len() - 1,
    ensures
        forall|k: int|
            0 <= k < spans_from(mask, s).len() ==> {
                let sp = #[trigger] spans_from(mask, s)[k];
                &&& s <= sp.0 <= sp.1 <= mask.len() - 1
                &&& (sp.0 == s || mask[sp.0])
                &&& (sp.0 < mask.len() - 1 ==> sp.0 < sp.1 && sp.1 == span_end(mask, sp.0))
            },
        forall|j: int, k: int|
            0 <= j < k < spans_from(mask, s).len() ==> (#[trigger] spans_from(mask, s)[j]).1 <= (
            #[trigger] spans_from(mask, s)[k]).0,
        forall|pc: int| s <= pc < mask.len() - 1 ==> #[trigger] covered(spans_from(mask, s), pc),
    decreases mask.len() - s,
{
    let n = mask.len() - 1;
    let all = spans_from(mask, s);
    if s < n {
        let e = span_end(mask, s);
        lemma_span_end(mask, s);
        lemma_spans(mask, e);
        let rest = spans_from(mask, e);
        assert(all == seq![(s, e)].add(rest));
        assert(all[0] == (s, e));
        assert forall|k: int| 1 <= k < all.len() implies all[k] == rest[k - 1] by {}
        assert forall|k: int| 0 <= k < all.len() implies {
            let sp = #[trigger] all[k];
            &&& s <= sp.0 <= sp.1 <= n
            &&& (sp.0 == s || mask[sp.0])
            &&& (sp.0 < n ==> sp.0 < sp.1 && sp.1 == span_end(mask, sp.0))
        } by {
            if k > 0 {
                assert(all[k] == rest[k - 1]);
            }
        }
        assert forall|j: int, k: int| 0 <= j < k < all.len() implies (#[trigger] all[j]).1 <= (
        #[trigger] all[k]).0 by {
            assert(all[k] == rest[k - 1]);
            if j > 0 {
                assert(all[j] == rest[j - 1]);
            }
        }
        assert forall|pc: int| s <= pc < n implies #[trigger] covered(all, pc) by {
            if pc < e {
                assert(in_span(all[0], pc));
            } else {
                assert(covered(rest, pc));
                let k = choose|k: int| 0 <= k < rest.len() && in_span(#[trigger] rest[k], pc);
                assert(all[k + 1] == rest[k]);
                assert(in_span(all[k + 1], pc));
            }
        }
    } else {
        if mask[n] {
            assert(all == seq![(n, n)]);
        }
    }
}

/// Whether one of the spans begins at a position.
pub open spec fn starts_at(spans: Seq<(int, int)>, t: int) -> bool {
    exists|k: int| 0 <= k < spans.len() && (#[trigger] spans[k]).0 == t
}

/// A span begins at `s`, when `s` is a position before the last or the
/// last position is marked, and at every marked position after `s`.
pub proof fn lemma_marks_are_starts(mask: Seq<bool>, s: int, t: int)
    requires
        mask.len() >= 1,
        0 <= s <= t <= mask.len() - 1,
        t == s || mask[t],
        s < mask.len() - 1 || mask[s],
    ensures
        starts_at(spans_from(mask, s), t),
    decreases mask.len() - s,
{
    let n = mask.len() - 1;
    let all = spans_from(mask, s);
    if s < n {
        let e = span_end(mask, s);
        lemma_span_end(mask, s);
        let rest = spans_from(mask, e);
        assert(all == seq![(s, e)].add(rest));
        if t == s {
            assert(all[0].0 == t);
        } else {
            lemma_marks_are_starts(mask, e, t);
            let k = choose|k: int| 0 <= k < rest.len() && (#[trigger] rest[k]).0 == t;
            assert(all[k + 1] == rest[k]);
        }
    } else {
        assert(all == seq![(n, n)]);
        assert(all[0].0 == t);
    }
}

/// The blocks of the first partition begin exactly at position 0 and after
/// every control transfer; the blocks of the final partition begin there
/// and where a jump has split a block.
pub proof fn lemma_block_starts(code: Seq<Instruction>, t: int)
    ensures
        starts_at(partition(code), t) <==> 0 <= t <= code.len() && is_block_start(code, t),
        starts_at(cir_blocks(code), t) <==> 0 <= t <= code.len() && is_boundary(code, t),
{
    lemma_spans(start_mask(code), 0);
    lemma_spans(boundary_mask(code), 0);
    if 0 <= t <= code.len() && is_block_start(code, t) {
        lemma_marks_are_starts(start_mask(code), 0, t);
    }
    if 0 <= t <= code.len() && is_boundary(code, t) {
        lemma_marks_are_starts(boundary_mask(code), 0, t);
    }
}

/// Every instruction lies in exactly one block of the first partition.
pub proof fn lemma_partition_covers(code: Seq<Instruction>, pc: int)
    requires
        0 <= pc < code.len(),
    ensures
        covered(partition(code), pc),
        forall|j: int, k: int|
            0 <= j < partition(code).len() && 0 <= k < partition(code).len() && in_span(
                #[trigger] partition(code)[j],
                pc,
            ) && in_span(#[trigger] partition(code)[k], pc) ==> j == k,
{
    lemma_spans(start_mask(code), 0);
}

/// Every instruction lies in exactly one block of the final partition,
/// whether that block stands as it was first cut or is the leading or the
/// trailing part of a split.
pub proof fn lemma_blocks_cover(code: Seq<Instruction>, pc: int)
    requires
        0 <= pc < code.len(),
    ensures
        covered(cir_blocks(code), pc),
        forall|j: int, k: int|
            0 <= j < cir_blocks(code).len() && 0 <= k < cir_blocks(code).len() && in_span(
                #[trigger] cir_blocks(code)[j],
                pc,
            ) && in_span(#[trigger] cir_blocks(code)[k], pc) ==> j == k,
{
    lemma_spans(boundary_mask(code), 0);
}

/// Whether a control transfer before `p + 1` targets `t`: one before `p`
/// does, or the instruction at `p` does.
proof fn lemma_targeted_step(code: Seq<Instruction>, t: int, p: int)
    requires
        0 <= p < code.len(),
    ensures
        targeted(code, t, p + 1) == (targeted(code, t, p) || (code[p].is_transfer()
            && code[p].branch().end == t)),
{
    if targeted(code, t, p + 1) {
        let q = choose|q: int|
            0 <= q < p + 1 && q < code.len() && #[trigger] code[q].is_transfer()
                && code[q].branch().end == t;
        if q < p {
            assert(targeted(code, t, p));
        }
    }
    if targeted(code, t, p) {
        let q = choose|q: int|
            0 <= q < p && q < code.len() && #[trigger] code[q].is_transfer() && code[q].branch().end
                == t;
        assert(code[q].is_transfer());
    }
    if code[p].is_transfer() && code[p].branch().end == t {
        assert(targeted(code, t, p + 1));
    }
}

/// The edges of one more block follow those of the blocks before it.
proof fn lemma_edges_of_take(code: Seq<Instruction>, blocks: Seq<(int, int)>, k: int)
    requires
        0 <= k < blocks.len(),
    ensures
        edges_of(code, blocks.take(k + 1)) == edges_of(code, blocks.take(k)).add(
            block_edges(code, blocks[k]),
        ),
{
    assert(blocks.take(k + 1).drop_last() =~= blocks.take(k));
}

/// The graph of one more edge is a step from the graph of the edges before.
proof fn lemma_graph_of_push(code: Seq<Instruction>, edges: Seq<(int, int, bool)>, edge: (int, int, bool))
    ensures
        graph_of(code, edges.push(edge)) == graph_step(code, graph_of(code, edges), edge),
{
    assert(edges.push(edge).drop_last() =~= edges);
}

/// Whether the instruction transfers control.
pub fn is_control_transfer(instruction: &Instruction) -> (r: bool)
    ensures
        r == instruction.is_transfer(),
{
    match instruction {
        Instruction::Jump(_) => true,
        Instruction::JumpNot(_) => true,
        Instruction::ConditionalJump(_) => true,
        _ => false,
    }
}

fn branch_of(instruction: &Instruction) -> (r: JumpBranch)
    requires
        instruction.is_transfer(),
    ensures
        r == instruction.branch(),
{
    match instruction {
        Instruction::Jump(j) => j.branch,
        Instruction::JumpNot(j) => j.branch,
        Instruction::ConditionalJump(j) => j.branch,
        _ => JumpBranch { start: 0, end: 0, offset: 0 },
    }
}

fn starts_block(code: &Vec<Instruction>, pc: usize) -> (r: bool)
    ensures
        r == is_block_start(code@, pc as int),
{
    pc == 0 || (pc <= code.len() && is_control_transfer(&code[pc - 1]))
}

fn start_marks(code: &Vec<Instruction>) -> (r: Vec<bool>)
    requires
        code.len() < usize::MAX,
    ensures
        r@ == start_mask(code@),
{
    let n = code.len();
    let mut marks: Vec<bool> = Vec::new();
    let mut t: usize = 0;
    while t <= n
        invariant
            n == code.len(),
            n < usize::MAX,
            t <= n + 1,
            marks@.len() == t,
            forall|k: int| 0 <= k < t ==> marks@[k] == is_block_start(code@, k),
        decreases n + 1 - t,
    {
        marks.push(starts_block(code, t));
        t += 1;
    }
    assert(marks@ =~= start_mask(code@));
    marks
}

fn next_boundary(mask: &Vec<bool>, s: usize) -> (e: usize)
    requires
        s + 1 < mask.len(),
    ensures
        e == span_end(mask@, s as int),
        s < e < mask.len(),
{
    let n = mask.len() - 1;
    let mut e: usize = s + 1;
    while e < n && !mask[e]
        invariant
            n == mask.len() - 1,
            s < e <= n,
            span_end(mask@, e - 1) == span_end(mask@, s as int),
        decreases n - e,
    {
        e += 1;
    }
    e
}

fn spans_of(mask: &Vec<bool>) -> (r: Vec<(usize, usize)>)
    requires
        mask.len() >= 1,
    ensures
        spans_view(r@) == spans_from(mask@, 0),
{
    let n = mask.len() - 1;
    let mut out: Vec<(usize, usize)> = Vec::new();
    let mut s: usize = 0;
    assert(spans_view(out@).add(spans_from(mask@, 0)) =~= spans_from(mask@, 0));
    while s < n
        invariant
            n == mask.len() - 1,
            s <= n,
            spans_view(out@).add(spans_from(mask@, s as int)) == spans_from(mask@, 0),
        decreases n - s,
    {
        let e = next_boundary(mask, s);
        let ghost before = spans_view(out@);
        out.push((s, e));
        assert(spans_view(out@).add(spans_from(mask@, e as int)) =~= before.add(
            spans_from(mask@, s as int),
        ));
        s = e;
    }
    if mask[n] {
        let ghost before = spans_view(out@);
        out.push((n, n));
        assert(spans_view(out@) =~= before.add(spans_from(mask@, n as int)));
    } else {
        assert(spans_view(out@) =~= spans_view(out@).add(spans_from(mask@, n as int)));
    }
    out
}

/// Cuts the sequence into the blocks of the first partition, each as the
/// position where it begins and the position where it ends, in ascending
/// order.
pub fn partition_blocks(code: &Vec<Instruction>) -> (r: Vec<(usize, usize)>)
    requires
        code.len() < usize::MAX,
    ensures
        spans_view(r@) == partition(code@),
{
    let marks = start_marks(code);
    spans_of(&marks)
}

/// Whether `target` lies strictly inside the block.
pub open spec fn strictly_inside(block: (usize, usize), target: usize) -> bool {
    block.0 < target < block.1
}

/// Splits the block that holds `target` strictly inside it into the leading
/// part, which ends at `target`, and the trailing part, which begins there.
/// When no block holds `target` strictly inside, the target is invalid.
pub fn split_blocks(blocks: &Vec<(usize, usize)>, target: usize) -> (r: Result<
    ((usize, usize), (usize, usize)),
    LunirError,
>)
    ensures
        match r {
            Ok(halves) => exists|k: int|
                0 <= k < blocks.len() && strictly_inside(#[trigger] blocks@[k], target) && halves.0
                    == (blocks@[k].0, target) && halves.1 == (target, blocks@[k].1) && forall|j: int|
                    0 <= j < k ==> !strictly_inside(#[trigger] blocks@[j], target),
            Err(e) => e == LunirError::InvalidJumpTarget(target) && forall|k: int|
                0 <= k < blocks.len() ==> !strictly_inside(#[trigger] blocks@[k], target),
        },
{
    let mut k: usize = 0;
    while k < blocks.len()
        invariant
            k <= blocks.len(),
            forall|j: int| 0 <= j < k ==> !strictly_inside(#[trigger] blocks@[j], target),
        decreases blocks.len() - k,
    {
        let block = blocks[k];
        if block.0 < target && target < block.1 {
            return Ok(((block.0, target), (target, block.1)));
        }
        k += 1;
    }
    Err(LunirError::InvalidJumpTarget(target))
}

fn block_chunk(code: &Vec<Instruction>, marks: &Vec<bool>, s: usize) -> (r: IlChunk)
    requires
        marks@ == boundary_mask(code@),
    ensures
        r@ == cir_block(code@, s as int),
{
    if s < code.len() {
        let e = next_boundary(marks, s);
        IlChunk::from_range(code, s, e)
    } else {
        IlChunk::new(Vec::new())
    }
}

fn add_cir_edge(
    graph: &mut Graph<IlChunk, bool, Directed, usize>,
    code: &Vec<Instruction>,
    marks: &Vec<bool>,
    source: usize,
    target: usize,
    label: bool,
)
    requires
        marks@ == boundary_mask(code@),
    ensures
        (graph_nodes(*final(graph)), graph_edges(*final(graph))) == graph_step(
            code@,
            (graph_nodes(*old(graph)), graph_edges(*old(graph))),
            (source as int, target as int, label),
        ),
{
    let from = graph_get_or_insert(graph, block_chunk(code, marks, source));
    let ghost with_source = graph_nodes(*graph);
    let to = graph_get_or_insert(graph, block_chunk(code, marks, target));
    proof {
        lemma_node_index_kept(graph_nodes(*old(graph)), cir_block(code@, source as int), from as int);
        lemma_node_index_kept(with_source, cir_block(code@, target as int), to as int);
        assert(with_source.len() <= with_node(with_source, cir_block(code@, target as int)).len());
    }
    graph_add_edge(graph, from, to, label);
}

/// Whether marking ended as the model says: with the marks of the final
/// partition when every jump is valid, with the first invalid position
/// otherwise.
pub open spec fn refined(r: Result<Vec<bool>, LunirError>, code: Seq<Instruction>) -> bool {
    match r {
        Ok(marks) => first_invalid(code, 0) is None && marks@ == boundary_mask(code),
        Err(e) => first_invalid(code, 0) matches Some(pc) && e == LunirError::InvalidJumpTarget(pc),
    }
}

fn refine_marks(instructions: &Vec<Instruction>) -> (r: Result<Vec<bool>, LunirError>)
    requires
        instructions.len() < usize::MAX,
    ensures
        refined(r, instructions@),
{
    let n = instructions.len();
    let ghost code = instructions@;
    let first_cut = partition_blocks(instructions);
    let mut marks = start_marks(instructions);
    proof {
        lemma_spans(start_mask(code), 0);
    }
    let mut p: usize = 0;
    while p < n
        invariant
            p <= n,
            n == instructions.len(),
            n < usize::MAX,
            code == instructions@,
            marks@.len() == n + 1,
            forall|t: int| 0 <= t <= n ==> marks@[t] == refined_mark(code, t, p as int),
            first_invalid(code, 0) == first_invalid(code, p as int),
            spans_view(first_cut@) == partition(code),
        decreases n - p,
    {
        let ghost marks_before = marks@;
        if is_control_transfer(&instructions[p]) {
            let branch = branch_of(&instructions[p]);
            let target = branch.end;
            if !starts_block(instructions, target) {
                match split_blocks(&first_cut, target) {
                    Ok(_) => {
                        proof {
                            let k = choose|k: int|
                                0 <= k < first_cut.len() && strictly_inside(
                                    #[trigger] first_cut@[k],
                                    target,
                                );
                            assert(spans_view(first_cut@)[k] == partition(code)[k]);
                            lemma_spans(start_mask(code), 0);
                            assert(0 < target < n);
                        }
                        marks.set(target, true);
                    },
                    Err(e) => {
                        proof {
                            if target < n {
                                lemma_spans(start_mask(code), 0);
                                assert(covered(partition(code), target as int));
                                let k = choose|k: int|
                                    0 <= k < partition(code).len() && in_span(
                                        #[trigger] partition(code)[k],
                                        target as int,
                                    );
                                assert(spans_view(first_cut@)[k] == partition(code)[k]);
                                assert(!strictly_inside(first_cut@[k], target));
                                assert(false);
                            }
                        }
                        return Err(e);
                    },
                }
            }
            let is_jump = match &instructions[p] {
                Instruction::Jump(_) => true,
                _ => false,
            };
            if !is_jump {
                let next = if branch.start < usize::MAX {
                    branch.start + 1
                } else {
                    usize::MAX
                };
                if !starts_block(instructions, next) {
                    return Err(LunirError::InvalidJumpTarget(next));
                }
            }
        }
        proof {
            assert forall|t: int| 0 <= t <= n implies marks@[t] == refined_mark(
                code,
                t,
                p as int + 1,
            ) by {
                lemma_targeted_step(code, t, p as int);
            }
        }
        p += 1;
    }
    assert(marks@ =~= boundary_mask(code));
    Ok(marks)
}

/// Cuts the sequence into the blocks of the final partition, each as the
/// position where it begins and the position where it ends, in ascending
/// order. A sequence with an invalid jump has no partition, only the first
/// invalid position.
pub fn refine_blocks(code: &Vec<Instruction>) -> (r: Result<Vec<(usize, usize)>, LunirError>)
    requires
        code.len() < usize::MAX,
    ensures
        match r {
            Ok(blocks) => first_invalid(code@, 0) is None && spans_view(blocks@) == cir_blocks(code@),
            Err(e) => first_invalid(code@, 0) matches Some(pc) && e == LunirError::InvalidJumpTarget(
                pc,
            ),
        },
{
    match refine_marks(code) {
        Ok(marks) => Ok(spans_of(&marks)),
        Err(e) => Err(e),
    }
}

/// Builds the control-flow graph of an instruction sequence.
///
/// The sequence is cut into blocks; a block that a jump enters strictly
/// inside is split at the target into a leading and a trailing block, so
/// that the unsplit block is no vertex of the graph. The blocks are taken in
/// ascending order and the edges that leave each are added one by one, the
/// vertices of an edge being looked up by their instructions and added when
/// they are new. A sequence with an invalid jump gives no graph, only the
/// first invalid position.
pub fn into_cir_graph(instructions: Vec<Instruction>) -> (r: Result<CirGraph, LunirError>)
    requires
        instructions.len() < usize::MAX,
    ensures
        match r {
            Ok(g) => first_invalid(instructions@, 0) is None && (g.nodes(), g.edges()) == graph_of(
                instructions@,
                cir_edges(instructions@),
            ),
            Err(e) => first_invalid(instructions@, 0) matches Some(pc) && e
                == LunirError::InvalidJumpTarget(pc),
        },
{
    let n = instructions.len();
    let ghost code = instructions@;
    let marks = match refine_marks(&instructions) {
        Ok(marks) => marks,
        Err(e) => {
            return Err(e);
        },
    };
    assert(marks@ =~= boundary_mask(code));
    let blocks = spans_of(&marks);
    proof {
        lemma_spans(boundary_mask(code), 0);
    }
    let mut graph = graph_empty();
    let mut k: usize = 0;
    assert(cir_blocks(code).take(0) =~= Seq::<(int, int)>::empty());
    while k < blocks.len()
        invariant
            k <= blocks.len(),
            n == instructions.len(),
            code == instructions@,
            marks@ == boundary_mask(code),
            spans_view(blocks@) == cir_blocks(code),
            forall|j: int|
                0 <= j < cir_blocks(code).len() ==> 0 <= (#[trigger] cir_blocks(code)[j]).0
                    <= cir_blocks(code)[j].1 <= n,
            (graph_nodes(graph), graph_edges(graph)) == graph_of(
                code,
                edges_of(code, cir_blocks(code).take(k as int)),
            ),
        decreases blocks.len() - k,
    {
        let s = blocks[k].0;
        let e = blocks[k].1;
        let ghost done = edges_of(code, cir_blocks(code).take(k as int));
        proof {
            assert(spans_view(blocks@)[k as int] == (s as int, e as int));
            lemma_edges_of_take(code, cir_blocks(code), k as int);
        }
        if s < e {
            match &instructions[e - 1] {
                Instruction::Jump(j) => {
                    add_cir_edge(&mut graph, &instructions, &marks, s, j.branch.end, true);
                    proof {
                        let e1 = (s as int, j.branch.end as int, true);
                        lemma_graph_of_push(code, done, e1);
                        assert(done.add(seq![e1]) =~= done.push(e1));
                    }
                },
                Instruction::ConditionalJump(j) => {
                    let next = if j.branch.start < usize::MAX {
                        j.branch.start + 1
                    } else {
                        usize::MAX
                    };
                    add_cir_edge(&mut graph, &instructions, &marks, s, j.branch.end, true);
                    add_cir_edge(&mut graph, &instructions, &marks, s, next, false);
                    proof {
                        let e1 = (s as int, j.branch.end as int, true);
                        let e2 = (s as int, next as int, false);
                        lemma_graph_of_push(code, done, e1);
                        lemma_graph_of_push(code, done.push(e1), e2);
                        assert(done.add(seq![e1, e2]) =~= done.push(e1).push(e2));
                    }
                },
                Instruction::JumpNot(j) => {
                    let next = if j.branch.start < usize::MAX {
                        j.branch.start + 1
                    } else {
                        usize::MAX
                    };
                    add_cir_edge(&mut graph, &instructions, &marks, s, j.branch.end, false);
                    add_cir_edge(&mut graph, &instructions, &marks, s, next, true);
                    proof {
                        let e1 = (s as int, j.branch.end as int, false);
                        let e2 = (s as int, next as int, true);
                        lemma_graph_of_push(code, done, e1);
                        lemma_graph_of_push(code, done.push(e1), e2);
                        assert(done.add(seq![e1, e2]) =~= done.push(e1).push(e2));
                    }
                },
                _ => {
                    if e < n {
                        add_cir_edge(&mut graph, &instructions, &marks, s, e, true);
                        proof {
                            let e1 = (s as int, e as int, true);
                            lemma_graph_of_push(code, done, e1);
                            assert(done.add(seq![e1]) =~= done.push(e1));
                        }
                    } else {
                        assert(done.add(Seq::<(int, int, bool)>::empty()) =~= done);
                    }
                },
            }
        } else {
            assert(done.add(Seq::<(int, int, bool)>::empty()) =~= done);
        }
        k += 1;
    }
    assert(cir_blocks(code).take(blocks.len() as int) =~= cir_blocks(code));
    Ok(CirGraph(graph))
}

/// Every weight has a first index among the nodes.
pub proof fn lemma_first_index_exists(nodes: Seq<Seq<Instruction>>, weight: Seq<Instruction>, upto: int) -> (index: int)
    requires
        0 <= upto <= nodes.len(),
        forall|k: int| 0 <= k < upto ==> nodes[k] != weight,
    ensures
        is_first_index(nodes, weight, index),
        node_index(nodes, weight) == index,
    decreases nodes.len() - upto,
{
    let index = if upto == nodes.len() || nodes[upto] == weight {
        upto
    } else {
        lemma_first_index_exists(nodes, weight, upto + 1)
    };
    lemma_first_index_unique(nodes, weight, index, index);
    index
}

/// Whether no two of the nodes hold the same instructions.
pub open spec fn distinct_nodes(nodes: Seq<Seq<Instruction>>) -> bool {
    forall|a: int, b: int| 0 <= a < b < nodes.len() ==> nodes[a] != nodes[b]
}

/// Looking a weight up keeps the nodes that are there and their indices,
/// keeps them distinct, and leaves the weight at its index.
pub proof fn lemma_with_node(nodes: Seq<Seq<Instruction>>, weight: Seq<Instruction>)
    ensures
        nodes.len() <= with_node(nodes, weight).len(),
        forall|k: int| 0 <= k < nodes.len() ==> with_node(nodes, weight)[k] == nodes[k],
        distinct_nodes(nodes) ==> distinct_nodes(with_node(nodes, weight)),
        0 <= node_index(with_node(nodes, weight), weight) < with_node(nodes, weight).len(),
        with_node(nodes, weight)[node_index(with_node(nodes, weight), weight)] == weight,
        node_index(with_node(nodes, weight), weight) == node_index(nodes, weight),
{
    let index = lemma_first_index_exists(nodes, weight, 0);
    lemma_node_index_kept(nodes, weight, index);
}

/// The graph that edges build holds them in their order: each edge of the
/// graph joins the vertex that holds the source block of the edge it stands
/// for to the vertex that holds its target block, under the same label. No
/// two vertices hold the same instructions.
pub proof fn lemma_graph_of(code: Seq<Instruction>, edges: Seq<(int, int, bool)>)
    ensures
        graph_of(code, edges).1.len() == edges.len(),
        distinct_nodes(graph_of(code, edges).0),
        forall|i: int|
            0 <= i < edges.len() ==> {
                let nodes = graph_of(code, edges).0;
                let e = #[trigger] graph_of(code, edges).1[i];
                &&& 0 <= e.0 < nodes.len()
                &&& 0 <= e.1 < nodes.len()
                &&& nodes[e.0] == cir_block(code, edges[i].0)
                &&& nodes[e.1] == cir_block(code, edges[i].1)
                &&& e.2 == edges[i].2
            },
    decreases edges.len(),
{
    if edges.len() > 0 {
        let before = graph_of(code, edges.drop_last());
        lemma_graph_of(code, edges.drop_last());
        let source = cir_block(code, edges.last().0);
        let target = cir_block(code, edges.last().1);
        let with_source = with_node(before.0, source);
        let with_both = with_node(with_source, target);
        lemma_with_node(before.0, source);
        lemma_with_node(with_source, target);
        let g = graph_of(code, edges);
        assert(g == graph_step(code, before, edges.last()));
        assert forall|i: int| 0 <= i < edges.len() implies {
            let nodes = g.0;
            let e = #[trigger] g.1[i];
            &&& 0 <= e.0 < nodes.len()
            &&& 0 <= e.1 < nodes.len()
            &&& nodes[e.0] == cir_block(code, edges[i].0)
            &&& nodes[e.1] == cir_block(code, edges[i].1)
            &&& e.2 == edges[i].2
        } by {
            if i < edges.len() - 1 {
                assert(g.1[i] == before.1[i]);
                assert(edges.drop_last()[i] == edges[i]);
            }
        }
    }
}

/// A sequence without an invalid position has none at any instruction.
pub proof fn lemma_all_valid(code: Seq<Instruction>, from: int, p: int)
    requires
        0 <= from <= p < code.len(),
        first_invalid(code, from) is None,
    ensures
        invalid_at(code, p) is None,
    decreases p - from,
{
    if from < p {
        lemma_all_valid(code, from + 1, p);
    }
}

/// Every edge of the given blocks is an edge of one of them.
pub proof fn lemma_edge_has_block(code: Seq<Instruction>, blocks: Seq<(int, int)>, i: int) -> (k: int)
    requires
        0 <= i < edges_of(code, blocks).len(),
    ensures
        0 <= k < blocks.len(),
        block_edges(code, blocks[k]).contains(edges_of(code, blocks)[i]),
    decreases blocks.len(),
{
    let before = edges_of(code, blocks.drop_last());
    if i < before.len() {
        lemma_edge_has_block(code, blocks.drop_last(), i)
    } else {
        let last = block_edges(code, blocks.last());
        assert(last[i - before.len()] == edges_of(code, blocks)[i]);
        blocks.len() - 1
    }
}

/// Whether an edge from the block at `s` to the block at `d` is justified:
/// either the block at `s` ends in a control transfer whose target or
/// fall-through is `d`, or the block at `s` is the leading part of a split
/// and the block at `d` is the trailing part that follows it.
pub open spec fn edge_justified(code: Seq<Instruction>, s: int, d: int) -> bool {
    let e = span_end(boundary_mask(code), s);
    let last = code[e - 1];
    ||| last.is_transfer() && (d == last.branch().end || (!(last is Jump) && d == fall_through(
        last.branch().start,
    )))
    ||| !last.is_transfer() && d == e && is_split_point(code, d)
}

/// Every edge of the control-flow graph of a valid sequence leaves a block
/// of the final partition, enters one, and is justified by the control
/// transfer that ends its source block or by a split.
pub proof fn lemma_edges_sound(code: Seq<Instruction>, i: int)
    requires
        first_invalid(code, 0) is None,
        0 <= i < cir_edges(code).len(),
    ensures
        0 <= cir_edges(code)[i].0 < code.len(),
        is_boundary(code, cir_edges(code)[i].0),
        is_boundary(code, cir_edges(code)[i].1),
        edge_justified(code, cir_edges(code)[i].0, cir_edges(code)[i].1),
{
    let mask = boundary_mask(code);
    let blocks = cir_blocks(code);
    let k = lemma_edge_has_block(code, blocks, i);
    lemma_spans(mask, 0);
    let block = blocks[k];
    let s = block.0;
    let e = block.1;
    let edge = cir_edges(code)[i];
    let found = block_edges(code, block);
    let at = choose|at: int| 0 <= at < found.len() && found[at] == edge;
    assert(0 <= s < e <= code.len());
    assert(e == span_end(mask, s));
    lemma_span_end(mask, s);
    let last = code[e - 1];
    if last.is_transfer() {
        lemma_all_valid(code, 0, e - 1);
        let t = last.branch().end as int;
        if !is_block_start(code, t) {
            assert(targeted(code, t, code.len() as int));
        }
    } else {
        assert(e < code.len());
        assert(mask[e]);
    }
}

/// The control-flow graph of a chunk: vertices are basic blocks, compared by
/// their instructions, and edges carry one boolean.
pub struct CirGraph(Graph<IlChunk, bool, Directed, usize>);

impl CirGraph {
    /// The blocks of the graph by vertex index.
    pub closed spec fn nodes(&self) -> Seq<Seq<Instruction>> {
        graph_nodes(self.0)
    }

    /// The edges of the graph by edge index: source vertex, target vertex,
    /// label.
    pub closed spec fn edges(&self) -> Seq<(int, int, bool)> {
        graph_edges(self.0)
    }

    /// The graph inside.
    pub fn inner(&self) -> (r: &Graph<IlChunk, bool, Directed, usize>)
        ensures
            graph_nodes(*r) == self.nodes(),
            graph_edges(*r) == self.edges(),
    {
        &self.0
    }

    /// The graph inside, for changing it in place.
    pub fn inner_mut(&mut self) -> (r: &mut Graph<IlChunk, bool, Directed, usize>)
        ensures
            graph_nodes(*r) == old(self).nodes(),
            graph_edges(*r) == old(self).edges(),
            final(self).nodes() == graph_nodes(*final(r)),
            final(self).edges() == graph_edges(*final(r)),
    {
        &mut self.0
    }

    /// A graph without vertices and edges.
    pub fn new() -> (r: Self)
        ensures
            r.nodes() == Seq::<Seq<Instruction>>::empty(),
            r.edges() == Seq::<(int, int, bool)>::empty(),
    {
        CirGraph(graph_empty())
    }

    /// The number of vertices.
    pub fn node_count(&self) -> (r: usize)
        ensures
            r == self.nodes().len(),
    {
        graph_node_count(&self.0)
    }

    /// The number of edges.
    pub fn edge_count(&self) -> (r: usize)
        ensures
            r == self.edges().len(),
    {
        graph_edge_count(&self.0)
    }

    /// The block of the vertex with the given index, if there is one.
    pub fn block(&self, index: usize) -> (r: Option<IlChunk>)
        ensures
            match r {
                Some(b) => index < self.nodes().len() && b@ == self.nodes()[index as int],
                None => index >= self.nodes().len(),
            },
    {
        match graph_node_weight(&self.0, index) {
            Some(w) => Some(w.clone()),
            None => None,
        }
    }

    /// Source vertex, target vertex and label of the edge with the given
    /// index, if there is one.
    pub fn edge(&self, index: usize) -> (r: Option<(usize, usize, bool)>)
        ensures
            match r {
                Some(e) => index < self.edges().len()
                    && (e.0 as int, e.1 as int, e.2) == self.edges()[index as int],
                None => index >= self.edges().len(),
            },
    {
        match graph_edge_endpoints(&self.0, index) {
            Some(ends) => match graph_edge_weight(&self.0, index) {
                Some(label) => Some((ends.0, ends.1, label)),
                None => None,
            },
            None => None,
        }
    }
}

} // verus!
