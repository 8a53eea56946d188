use vstd::prelude::*;

use crate::expr::{
    binary_symbol, lemma_render_prefix, module_prefix, module_wf, render, unary_name,
    BinaryOperator, Expr, ExprHandle, ModuleView,
};
use crate::graph::{
    add_node_post, graph_wf, lemma_link_wf, lemma_removal, link_post, new_slot_views,
    slot_ids_of, slot_links_ok, slot_of, source_of, unlink_all_post, unlink_post, valid_slot,
    GraphView, SlotDefView, SlotDir, SlotView,
};
use crate::node::{binary_op_of, AnyNode, AttributeNode, Node, NormalizeNode, TimeNode};
use crate::values::{attribute_name, built_in_text, BuiltInOperator};
use crate::writer::{cache_valid, cached_handles};

verus! {

/// `m` with the expressions `out` appended.
pub open spec fn appended(m: ModuleView, out: Seq<Expr>) -> ModuleView {
    ModuleView { exprs: m.exprs + out, properties: m.properties }
}

/// Every handle of `inputs` designates an expression of `m`.
pub open spec fn inputs_valid(m: ModuleView, inputs: Seq<ExprHandle>) -> bool {
    forall|k: int| 0 <= k < inputs.len() ==> (#[trigger] inputs[k])@ < m.exprs.len()
}

proof fn lemma_appended_prefix(m: ModuleView, out: Seq<Expr>)
    ensures
        module_prefix(m, appended(m, out)),
{
    assert forall|i: int| 0 <= i < m.exprs.len() implies m.exprs[i] == appended(m, out).exprs[i] by {}
}

/// A binary operator node accepts exactly two inputs; from them it builds one
/// expression, which renders as `(<lhs>) <op> (<rhs>)`.
pub proof fn binary_node_eval_renders(
    node: AnyNode,
    op: BinaryOperator,
    m: ModuleView,
    inputs: Seq<ExprHandle>,
)
    requires
        module_wf(m),
        binary_op_of(node) == Some(op),
        inputs_valid(m, inputs),
    ensures
        (inputs.len() == node.arity()) == (inputs.len() == 2),
        inputs.len() == 2 ==> {
            let out = node.outputs_of(inputs);
            &&& out.len() == 1
            &&& render(appended(m, out), m.exprs.len()) == "("@ + render(m, inputs[0]@) + ") "@
                + binary_symbol(op) + " ("@ + render(m, inputs[1]@) + ")"@
        },
{
    if inputs.len() == 2 {
        let out = node.outputs_of(inputs);
        let m2 = appended(m, out);
        lemma_appended_prefix(m, out);
        assert(inputs[0]@ < m.exprs.len() && inputs[1]@ < m.exprs.len());
        lemma_render_prefix(m, m2, inputs[0]@);
        lemma_render_prefix(m, m2, inputs[1]@);
        assert(m2.exprs[m.exprs.len() as int] == out[0]);
    }
}

/// An attribute node accepts no input; it builds one expression, which
/// renders as `particle.<attribute name>`.
pub proof fn attribute_node_eval_renders(node: AttributeNode, m: ModuleView, inputs: Seq<ExprHandle>)
    ensures
        (inputs.len() == node.arity()) == (inputs.len() == 0),
        inputs.len() == 0 ==> {
            let out = node.outputs_of(inputs);
            &&& out.len() == 1
            &&& render(appended(m, out), m.exprs.len()) == "particle."@ + attribute_name(
                node.spec_attr(),
            )
        },
{
    let out = node.outputs_of(inputs);
    assert(appended(m, out).exprs[m.exprs.len() as int] == out[0]);
}

/// A time node accepts no input; it builds two expressions, the elapsed time
/// then the delta time, each rendering as the text of that quantity.
pub proof fn time_node_eval_renders(node: TimeNode, m: ModuleView, inputs: Seq<ExprHandle>)
    ensures
        (inputs.len() == node.arity()) == (inputs.len() == 0),
        inputs.len() == 0 ==> {
            let out = node.outputs_of(inputs);
            &&& out.len() == 2
            &&& render(appended(m, out), m.exprs.len()) == built_in_text(BuiltInOperator::Time)
            &&& render(appended(m, out), m.exprs.len() + 1) == built_in_text(
                BuiltInOperator::DeltaTime,
            )
        },
{
    let out = node.outputs_of(inputs);
    assert(appended(m, out).exprs[m.exprs.len() as int] == out[0]);
    assert(appended(m, out).exprs[m.exprs.len() + 1 as int] == out[1]);
}

/// A normalize node accepts exactly one input; it builds one expression,
/// which renders as `normalize(<input>)`.
pub proof fn normalize_node_eval_renders(node: NormalizeNode, m: ModuleView, inputs: Seq<ExprHandle>)
    requires
        module_wf(m),
        inputs_valid(m, inputs),
    ensures
        (inputs.len() == node.arity()) == (inputs.len() == 1),
        inputs.len() == 1 ==> {
            let out = node.outputs_of(inputs);
            &&& out.len() == 1
            &&& render(appended(m, out), m.exprs.len()) == "normalize("@ + render(m, inputs[0]@)
                + ")"@
        },
{
    if inputs.len() == 1 {
        let out = node.outputs_of(inputs);
        let m2 = appended(m, out);
        lemma_appended_prefix(m, out);
        assert(inputs[0]@ < m.exprs.len());
        lemma_render_prefix(m, m2, inputs[0]@);
        assert(m2.exprs[m.exprs.len() as int] == out[0]);
        reveal_strlit("normalize(");
        reveal_strlit("normalize");
        reveal_strlit("(");
        assert("normalize("@ =~= "normalize"@ + "("@);
    }
}

/// After linking output `o` to input `i`, `o` is the single source of `i`,
/// and `o` lists `i` exactly once among its targets.
pub proof fn link_connects(g0: GraphView, o: nat, i: nat, g: GraphView)
    requires
        graph_wf(g0),
        valid_slot(g0, o),
        valid_slot(g0, i),
        slot_of(g0, o).def.dir == SlotDir::Output,
        slot_of(g0, i).def.dir == SlotDir::Input,
        link_post(g0, o, i, g),
    ensures
        graph_wf(g),
        source_of(g, i) == Some(o),
        slot_of(g, o).links.contains(i),
        slot_of(g, o).links.no_duplicates(),
{
    lemma_link_wf(g0, o, i, g);
    assert(slot_links_ok(g.slots, o - 1));
    assert(slot_links_ok(g.slots, i - 1));
}

/// Linking a second output to an input replaces the first: the input keeps
/// exactly one source, and the first output no longer lists it.
pub proof fn link_replaces_source(
    g0: GraphView,
    o1: nat,
    o2: nat,
    i: nat,
    g1: GraphView,
    g2: GraphView,
)
    requires
        graph_wf(g0),
        valid_slot(g0, o1),
        valid_slot(g0, o2),
        valid_slot(g0, i),
        o1 != o2,
        slot_of(g0, o1).def.dir == SlotDir::Output,
        slot_of(g0, o2).def.dir == SlotDir::Output,
        slot_of(g0, i).def.dir == SlotDir::Input,
        link_post(g0, o1, i, g1),
        link_post(g1, o2, i, g2),
    ensures
        slot_of(g2, i).links.len() == 1,
        source_of(g2, i) == Some(o2),
        !slot_of(g2, o1).links.contains(i),
        slot_of(g2, o2).links.contains(i),
{
    link_connects(g0, o1, i, g1);
    assert(g1.slots[o1 - 1].def == g0.slots[o1 - 1].def);
    assert(g1.slots[o2 - 1].def == g0.slots[o2 - 1].def);
    assert(g1.slots[i - 1].def == g0.slots[i - 1].def);
    link_connects(g1, o2, i, g2);
    assert(source_of(g1, i) == Some(o1));
    lemma_removal(slot_of(g1, o1).links, i, slot_of(g2, o1).links);
}

/// Linking the same pair twice leaves the output's targets as the first link
/// left them: no target is listed twice.
pub proof fn link_twice_is_idempotent(g0: GraphView, o: nat, i: nat, g1: GraphView, g2: GraphView)
    requires
        graph_wf(g0),
        valid_slot(g0, o),
        valid_slot(g0, i),
        slot_of(g0, o).def.dir == SlotDir::Output,
        slot_of(g0, i).def.dir == SlotDir::Input,
        link_post(g0, o, i, g1),
        link_post(g1, o, i, g2),
    ensures
        slot_of(g2, o).links == slot_of(g1, o).links,
        slot_of(g2, o).links.no_duplicates(),
        source_of(g2, i) == Some(o),
        forall|k: int| 0 <= k < g2.slots.len() ==> (#[trigger] g2.slots[k]).links == g1.slots[k].links,
{
    link_connects(g0, o, i, g1);
    assert(g1.slots[o - 1].def == g0.slots[o - 1].def);
    assert(g1.slots[i - 1].def == g0.slots[i - 1].def);
    link_connects(g1, o, i, g2);
    assert forall|k: int| 0 <= k < g2.slots.len() implies (#[trigger] g2.slots[k]).links
        == g1.slots[k].links by {
        if k == i - 1 {
            assert(slot_of(g1, i).links == seq![o]);
        }
    }
}

/// Unlinking a pair that is not linked changes nothing and reports so;
/// unlinking a linked pair removes the link from both slots.
pub proof fn unlink_is_symmetric(g0: GraphView, o: nat, i: nat, r: bool, g: GraphView)
    requires
        graph_wf(g0),
        valid_slot(g0, o),
        slot_of(g0, o).def.dir == SlotDir::Output,
        unlink_post(g0, o, i, r, g),
    ensures
        !slot_of(g0, o).links.contains(i) ==> !r && g == g0,
        slot_of(g0, o).links.contains(i) ==> {
            &&& r
            &&& !slot_of(g, o).links.contains(i)
            &&& source_of(g, i) is None
        },
{
    if r {
        assert(slot_links_ok(g0.slots, o - 1));
        lemma_removal(slot_of(g0, o).links, i, slot_of(g, o).links);
    }
}

/// After severing every link of slot `s`, `s` has no link, and no slot it
/// was linked to still lists it.
pub proof fn unlink_all_clears(g0: GraphView, s: nat, g: GraphView)
    requires
        graph_wf(g0),
        valid_slot(g0, s),
        unlink_all_post(g0, s, g),
    ensures
        slot_of(g, s).links.len() == 0,
        forall|j: int|
            0 <= j < slot_of(g0, s).links.len() ==> !slot_of(g, #[trigger] slot_of(g0, s).links[j]).links.contains(s),
{
    let remotes = slot_of(g0, s).links;
    assert(slot_links_ok(g0.slots, s - 1));
    assert forall|j: int| 0 <= j < remotes.len() implies !slot_of(g, #[trigger] remotes[j]).links.contains(s) by {
        if slot_of(g0, s).def.dir == SlotDir::Input {
            let p = remotes[j];
            assert(slot_links_ok(g0.slots, p - 1));
            lemma_removal(slot_of(g0, p).links, s, slot_of(g, p).links);
        }
    }
}

/// The shared child of a cached binary expression is cached exactly once,
/// and both of its occurrences in the parent's text are that same text.
pub proof fn shared_child_rendered_once(
    c: Seq<(nat, Seq<char>)>,
    m: ModuleView,
    h: nat,
    op: BinaryOperator,
    child: ExprHandle,
)
    requires
        cache_valid(c, m),
        cached_handles(c).contains(h),
        m.exprs[h as int] == (Expr::Binary { op, left: child, right: child }),
    ensures
        exists|k: int|
            0 <= k < c.len() && (#[trigger] c[k]).0 == child@ && c[k].1 == render(m, child@)
                && forall|j: int| 0 <= j < c.len() && j != k ==> (#[trigger] c[j]).0 != child@,
        child@ < h ==> render(m, h) == "("@ + render(m, child@) + ") "@ + binary_symbol(op) + " ("@
            + render(m, child@) + ")"@,
{
    let hs = cached_handles(c);
    let a = choose|a: int| 0 <= a < hs.len() && hs[a] == h;
    assert(c[a].0 == h);
    assert(hs.contains(child@));
    let k = choose|k: int| 0 <= k < hs.len() && hs[k] == child@;
    assert(c[k].0 == child@);
    assert forall|j: int| 0 <= j < c.len() && j != k implies (#[trigger] c[j]).0 != child@ by {
        assert(hs[j] == c[j].0);
        assert(hs[k] == c[k].0);
    }
}

/// Declarations of the slots with the given identifiers.
pub open spec fn defs_of(g: GraphView, ids: Seq<nat>) -> Seq<SlotDefView> {
    ids.map_values(|id: nat| slot_of(g, id).def)
}

/// Declarations of `defs` with direction `dir`, or all of them when no
/// direction is given, in order.
pub open spec fn defs_with_dir(defs: Seq<SlotDefView>, dir: Option<SlotDir>) -> Seq<SlotDefView>
    decreases defs.len(),
{
    if defs.len() == 0 {
        Seq::empty()
    } else {
        let rest = defs_with_dir(defs.drop_last(), dir);
        if dir is None || defs.last().dir == dir->0 {
            rest.push(defs.last())
        } else {
            rest
        }
    }
}

proof fn lemma_no_slots_of_new_node(s: Seq<SlotView>, n: nat, dir: Option<SlotDir>)
    requires
        forall|i: int| 0 <= i < s.len() ==> (#[trigger] s[i]).node < n,
    ensures
        slot_ids_of(s, n, dir) == Seq::<nat>::empty(),
    decreases s.len(),
{
    if s.len() > 0 {
        lemma_no_slots_of_new_node(s.drop_last(), n, dir);
    }
}

proof fn lemma_new_node_slots(g0: GraphView, defs: Seq<SlotDefView>, n: nat, g: GraphView, dir: Option<SlotDir>, k: nat)
    requires
        graph_wf(g0),
        add_node_post(g0, defs, n, g),
        k <= defs.len(),
    ensures
        defs_of(g, slot_ids_of(g.slots.subrange(0, (g0.slots.len() + k) as int), n, dir)) == defs_with_dir(
            defs.subrange(0, k as int),
            dir,
        ),
    decreases k,
{
    let base = g0.slots.len();
    if k == 0 {
        assert(g.slots.subrange(0, base as int) =~= g0.slots);
        assert forall|i: int| 0 <= i < g0.slots.len() implies (#[trigger] g0.slots[i]).node < n by {}
        lemma_no_slots_of_new_node(g0.slots, n, dir);
        assert(defs.subrange(0, 0) =~= Seq::<SlotDefView>::empty());
        assert(defs_of(g, Seq::<nat>::empty()) =~= Seq::<SlotDefView>::empty());
    } else {
        lemma_new_node_slots(g0, defs, n, g, dir, (k - 1) as nat);
        let sub = g.slots.subrange(0, (base + k) as int);
        assert(sub.drop_last() =~= g.slots.subrange(0, base + k - 1));
        let last = sub.last();
        assert(last == new_slot_views(n, base, defs)[k - 1]);
        let dsub = defs.subrange(0, k as int);
        assert(dsub.drop_last() =~= defs.subrange(0, k - 1));
        assert(dsub.last() == defs[k - 1]);
        let ids = slot_ids_of(g.slots.subrange(0, base + k - 1), n, dir);
        if dir is None || last.def.dir == dir->0 {
            assert(slot_of(g, last.id) == last);
            assert(defs_of(g, ids.push(last.id)) =~= defs_of(g, ids).push(last.def));
        }
    }
}

/// Right after adding a node, its slots, input slots and output slots are
/// exactly its declared slots, all of them or those of that direction, in
/// declaration order.
pub proof fn add_node_slots_round_trip(g0: GraphView, defs: Seq<SlotDefView>, n: nat, g: GraphView)
    requires
        graph_wf(g0),
        add_node_post(g0, defs, n, g),
    ensures
        defs_of(g, slot_ids_of(g.slots, n, None)) == defs,
        defs_of(g, slot_ids_of(g.slots, n, Some(SlotDir::Input))) == defs_with_dir(
            defs,
            Some(SlotDir::Input),
        ),
        defs_of(g, slot_ids_of(g.slots, n, Some(SlotDir::Output))) == defs_with_dir(
            defs,
            Some(SlotDir::Output),
        ),
{
    let k = defs.len();
    assert(g.slots.subrange(0, (g0.slots.len() + k) as int) =~= g.slots);
    assert(defs.subrange(0, k as int) =~= defs);
    lemma_new_node_slots(g0, defs, n, g, None, k);
    lemma_new_node_slots(g0, defs, n, g, Some(SlotDir::Input), k);
    lemma_new_node_slots(g0, defs, n, g, Some(SlotDir::Output), k);
    lemma_all_defs(defs);
}

proof fn lemma_all_defs(defs: Seq<SlotDefView>)
    ensures
        defs_with_dir(defs, None) == defs,
    decreases defs.len(),
{
    if defs.len() > 0 {
        lemma_all_defs(defs.drop_last());
        assert(defs.drop_last().push(defs.last()) =~= defs);
    } else {
        assert(defs =~= Seq::<SlotDefView>::empty());
    }
}

} // verus!
