use vstd::prelude::*;

use crate::ids::{NodeId, SlotId};
use crate::node::{def_views, AnyNode, Node};
use crate::values::ValueType;

verus! {

/// Direction of a node slot.
#[derive(Debug, Clone, Copy, PartialEq, Eq, Structural, Hash)]
pub enum SlotDir {
    /// Input slot receiving data from outside the node.
    Input,
    /// Output slot providing data generated by the node.
    Output,
}

/// Content of a [`SlotDef`].
pub struct SlotDefView {
    pub name: Seq<char>,
    pub dir: SlotDir,
    pub value_type: Option<ValueType>,
}

/// Declaration of a slot of a node.
#[derive(Debug, Clone)]
pub struct SlotDef {
    /// Slot name.
    name: String,
    /// Slot direction.
    dir: SlotDir,
    /// Type of values accepted by the slot; `None` for a variant slot whose
    /// type depends on the inputs of the node during evaluation.
    value_type: Option<ValueType>,
}

impl View for SlotDef {
    type V = SlotDefView;

    closed spec fn view(&self) -> SlotDefView {
        SlotDefView { name: self.name@, dir: self.dir, value_type: self.value_type }
    }
}

impl SlotDef {
    /// Create a new input slot declaration.
    pub fn input(name: &str, value_type: Option<ValueType>) -> (r: Self)
        ensures
            r@ == (SlotDefView { name: name@, dir: SlotDir::Input, value_type }),
    {
        SlotDef { name: String::from_str(name), dir: SlotDir::Input, value_type }
    }

    /// Create a new output slot declaration.
    pub fn output(name: &str, value_type: Option<ValueType>) -> (r: Self)
        ensures
            r@ == (SlotDefView { name: name@, dir: SlotDir::Output, value_type }),
    {
        SlotDef { name: String::from_str(name), dir: SlotDir::Output, value_type }
    }

    /// Get the slot name.
    pub fn name(&self) -> (r: &str)
        ensures
            r@ == self@.name,
    {
        self.name.as_str()
    }

    /// Get the slot direction.
    pub fn dir(&self) -> (r: SlotDir)
        ensures
            r == self@.dir,
    {
        self.dir
    }

    /// Get the slot value type.
    pub fn value_type(&self) -> (r: Option<ValueType>)
        ensures
            r == self@.value_type,
    {
        self.value_type
    }

    pub(crate) fn duplicate(&self) -> (r: Self)
        ensures
            r@ == self@,
    {
        SlotDef { name: self.name.clone(), dir: self.dir, value_type: self.value_type }
    }
}

/// Content of a [`Slot`]: owner node and own identifier (as one-based
/// indices), declaration, and the identifiers of the linked slots.
pub struct SlotView {
    pub node: nat,
    pub id: nat,
    pub def: SlotDefView,
    pub links: Seq<nat>,
}

/// `after` is `before` with one occurrence of `x` taken out.
pub open spec fn is_removal(before: Seq<nat>, x: nat, after: Seq<nat>) -> bool {
    exists|p: int| 0 <= p < before.len() && before[p] == x && after == before.remove(p)
}

/// Single slot of a node in a graph.
#[derive(Debug, Clone)]
pub struct Slot {
    /// Owner node identifier.
    node_id: NodeId,
    /// Identifier.
    id: SlotId,
    /// Slot declaration.
    def: SlotDef,
    /// Linked slots.
    linked_slots: Vec<SlotId>,
}

pub open spec fn id_views(ids: Seq<SlotId>) -> Seq<nat> {
    ids.map_values(|s: SlotId| s@)
}

impl View for Slot {
    type V = SlotView;

    closed spec fn view(&self) -> SlotView {
        SlotView {
            node: self.node_id@,
            id: self.id@,
            def: self.def@,
            links: id_views(self.linked_slots@),
        }
    }
}

impl Slot {
    /// Create a new slot, linked to nothing.
    pub fn new(node_id: NodeId, slot_id: SlotId, slot_def: SlotDef) -> (r: Self)
        ensures
            r@ == (SlotView {
                node: node_id@,
                id: slot_id@,
                def: slot_def@,
                links: Seq::empty(),
            }),
    {
        let r = Slot { node_id, id: slot_id, def: slot_def, linked_slots: Vec::new() };
        assert(r@.links =~= Seq::<nat>::empty());
        r
    }

    /// Get the identifier of the node owning this slot.
    pub fn node_id(&self) -> (r: NodeId)
        ensures
            r@ == self@.node,
    {
        self.node_id
    }

    /// Get the slot identifier.
    pub fn id(&self) -> (r: SlotId)
        ensures
            r@ == self@.id,
    {
        self.id
    }

    /// Get the slot declaration.
    pub fn def(&self) -> (r: &SlotDef)
        ensures
            r@ == self@.def,
    {
        &self.def
    }

    /// Get the slot direction.
    pub fn dir(&self) -> (r: SlotDir)
        ensures
            r == self@.def.dir,
    {
        self.def.dir()
    }

    /// Check if this slot is an input slot.
    pub fn is_input(&self) -> (r: bool)
        ensures
            r == (self@.def.dir == SlotDir::Input),
    {
        self.dir() == SlotDir::Input
    }

    /// Check if this slot is an output slot.
    pub fn is_output(&self) -> (r: bool)
        ensures
            r == (self@.def.dir == SlotDir::Output),
    {
        self.dir() == SlotDir::Output
    }

    /// Get the identifiers of the slots linked to this one.
    pub fn linked_slots(&self) -> (r: &[SlotId])
        ensures
            id_views(r@) == self@.links,
    {
        self.linked_slots.as_slice()
    }

    fn position(&self, id: SlotId) -> (r: Option<usize>)
        ensures
            r is None <==> !self@.links.contains(id@),
            r matches Some(p) ==> p < self@.links.len() && self@.links[p as int] == id@,
    {
        let mut i: usize = 0;
        while i < self.linked_slots.len()
            invariant
                0 <= i <= self.linked_slots.len(),
                forall|k: int| 0 <= k < i ==> self@.links[k] != id@,
            decreases self.linked_slots.len() - i,
        {
            proof {
                SlotId::lemma_view_eq(self.linked_slots[i as int], id);
            }
            if self.linked_slots[i] == id {
                assert(self@.links[i as int] == id@);
                return Some(i);
            }
            i = i + 1;
        }
        None
    }

    /// Link this output slot to an input slot; linking twice is idempotent.
    fn link_to(&mut self, input: SlotId)
        requires
            old(self)@.def.dir == SlotDir::Output,
        ensures
            final(self)@ == (SlotView {
                links: if old(self)@.links.contains(input@) {
                    old(self)@.links
                } else {
                    old(self)@.links.push(input@)
                },
                ..old(self)@
            }),
    {
        if self.position(input).is_none() {
            self.linked_slots.push(input);
            assert(self@.links =~= old(self)@.links.push(input@));
        }
    }

    /// Unlink this output slot from an input slot, if they are linked.
    fn unlink_from(&mut self, input: SlotId) -> (r: bool)
        requires
            old(self)@.def.dir == SlotDir::Output,
        ensures
            r == old(self)@.links.contains(input@),
            r ==> is_removal(old(self)@.links, input@, final(self)@.links),
            !r ==> final(self)@.links == old(self)@.links,
            final(self)@.node == old(self)@.node,
            final(self)@.id == old(self)@.id,
            final(self)@.def == old(self)@.def,
    {
        match self.position(input) {
            Some(p) => {
                self.linked_slots.remove(p);
                assert(self@.links =~= old(self)@.links.remove(p as int));
                true
            },
            None => false,
        }
    }

    /// Link this input slot to its single source, replacing any previous one.
    fn link_input(&mut self, output: SlotId)
        requires
            old(self)@.def.dir == SlotDir::Input,
        ensures
            final(self)@ == (SlotView { links: seq![output@], ..old(self)@ }),
    {
        self.linked_slots.clear();
        self.linked_slots.push(output);
        assert(self@.links =~= seq![output@]);
    }

    /// Take every link out of this slot, leaving it unlinked.
    fn take_links(&mut self) -> (r: Vec<SlotId>)
        ensures
            id_views(r@) == old(self)@.links,
            final(self)@ == (SlotView { links: Seq::empty(), ..old(self)@ }),
    {
        let mut r = Vec::new();
        std::mem::swap(&mut r, &mut self.linked_slots);
        assert(self@.links =~= Seq::<nat>::empty());
        r
    }

    /// Remove the source of this input slot.
    fn unlink_input(&mut self)
        requires
            old(self)@.def.dir == SlotDir::Input,
        ensures
            final(self)@ == (SlotView { links: Seq::empty(), ..old(self)@ }),
    {
        self.linked_slots.clear();
        assert(self@.links =~= Seq::<nat>::empty());
    }
}

/// Content of a [`Graph`]: the number of nodes, and every slot in order of
/// identifier (the slot with identifier `k` is `slots[k - 1]`).
pub struct GraphView {
    pub node_count: nat,
    pub slots: Seq<SlotView>,
}

/// Two slot states differ at most in their links.
pub open spec fn same_except_links(a: SlotView, b: SlotView) -> bool {
    a.node == b.node && a.id == b.id && a.def == b.def
}

/// The links of the slot at index `i` agree with the other side: an input
/// has at most one source, an output that lists it; an output lists each of
/// its targets once, and each target is an input whose source it is.
pub open spec fn slot_links_ok(s: Seq<SlotView>, i: int) -> bool {
    let sl = s[i];
    if sl.def.dir == SlotDir::Input {
        &&& sl.links.len() <= 1
        &&& sl.links.len() == 1 ==> {
            let o = sl.links[0];
            &&& 1 <= o <= s.len()
            &&& s[o - 1].def.dir == SlotDir::Output
            &&& s[o - 1].links.contains((i + 1) as nat)
        }
    } else {
        &&& sl.links.no_duplicates()
        &&& forall|j: int|
            0 <= j < sl.links.len() ==> {
                let t = #[trigger] sl.links[j];
                &&& 1 <= t <= s.len()
                &&& s[t - 1].def.dir == SlotDir::Input
                &&& s[t - 1].links == seq![(i + 1) as nat]
            }
    }
}

/// Well-formedness of a graph: identifiers are dense and one-based, each
/// slot belongs to an existing node, and links agree on both sides.
pub open spec fn graph_wf(g: GraphView) -> bool {
    &&& g.node_count <= u32::MAX
    &&& g.slots.len() <= u32::MAX
    &&& forall|i: int|
        0 <= i < g.slots.len() ==> (#[trigger] g.slots[i]).id == i + 1 && 1 <= g.slots[i].node
            <= g.node_count
    &&& forall|i: int| 0 <= i < g.slots.len() ==> #[trigger] slot_links_ok(g.slots, i)
}

/// `id` designates a slot of the graph.
pub open spec fn valid_slot(g: GraphView, id: nat) -> bool {
    1 <= id <= g.slots.len()
}

/// The slot with identifier `id`.
pub open spec fn slot_of(g: GraphView, id: nat) -> SlotView {
    g.slots[id - 1]
}

/// The output an input slot is linked to, if any.
pub open spec fn source_of(g: GraphView, input: nat) -> Option<nat> {
    if slot_of(g, input).links.len() == 1 {
        Some(slot_of(g, input).links[0])
    } else {
        None
    }
}

/// `g` is `g0` after linking output `o` to input `i`: `i`'s source becomes
/// `o`, `o` lists `i` once, a previous source of `i` no longer lists it, and
/// nothing else changes.
pub open spec fn link_post(g0: GraphView, o: nat, i: nat, g: GraphView) -> bool {
    let prev = source_of(g0, i);
    &&& g.node_count == g0.node_count
    &&& g.slots.len() == g0.slots.len()
    &&& forall|k: int| 0 <= k < g.slots.len() ==> same_except_links(#[trigger] g.slots[k], g0.slots[k])
    &&& slot_of(g, i).links == seq![o]
    &&& slot_of(g, o).links == if slot_of(g0, o).links.contains(i) {
        slot_of(g0, o).links
    } else {
        slot_of(g0, o).links.push(i)
    }
    &&& (prev is Some && prev->0 != o) ==> is_removal(
        slot_of(g0, prev->0).links,
        i,
        slot_of(g, prev->0).links,
    )
    &&& forall|k: int|
        0 <= k < g.slots.len() && k != i - 1 && k != o - 1 && !(prev == Some((k + 1) as nat)) ==> (
        #[trigger] g.slots[k]).links == g0.slots[k].links
}

/// `g` is `g0` after unlinking output `o` from input `i`, `r` telling whether
/// they were linked: if so the link is gone from both sides, else nothing changes.
pub open spec fn unlink_post(g0: GraphView, o: nat, i: nat, r: bool, g: GraphView) -> bool {
    &&& r == slot_of(g0, o).links.contains(i)
    &&& !r ==> g == g0
    &&& r ==> {
        &&& g.node_count == g0.node_count
        &&& g.slots.len() == g0.slots.len()
        &&& forall|k: int|
            0 <= k < g.slots.len() ==> same_except_links(#[trigger] g.slots[k], g0.slots[k])
        &&& is_removal(slot_of(g0, o).links, i, slot_of(g, o).links)
        &&& slot_of(g, i).links == Seq::<nat>::empty()
        &&& forall|k: int|
            0 <= k < g.slots.len() && k != i - 1 && k != o - 1 ==> (#[trigger] g.slots[k]).links
                == g0.slots[k].links
    }
}

/// `g` is `g0` after severing every link of slot `s`: `s` has no link left,
/// and each slot it was linked to has dropped it.
pub open spec fn unlink_all_post(g0: GraphView, s: nat, g: GraphView) -> bool {
    let remotes = slot_of(g0, s).links;
    &&& g.node_count == g0.node_count
    &&& g.slots.len() == g0.slots.len()
    &&& forall|k: int| 0 <= k < g.slots.len() ==> same_except_links(#[trigger] g.slots[k], g0.slots[k])
    &&& slot_of(g, s).links == Seq::<nat>::empty()
    &&& slot_of(g0, s).def.dir == SlotDir::Input ==> forall|j: int|
        0 <= j < remotes.len() ==> is_removal(
            slot_of(g0, #[trigger] remotes[j]).links,
            s,
            slot_of(g, remotes[j]).links,
        )
    &&& slot_of(g0, s).def.dir == SlotDir::Output ==> forall|j: int|
        0 <= j < remotes.len() ==> slot_of(g, #[trigger] remotes[j]).links == Seq::<nat>::empty()
    &&& forall|k: int|
        0 <= k < g.slots.len() && k != s - 1 && !remotes.contains((k + 1) as nat) ==> (
        #[trigger] g.slots[k]).links == g0.slots[k].links
}

/// What a removal keeps and drops, from a sequence without duplicates.
pub proof fn lemma_removal(before: Seq<nat>, x: nat, after: Seq<nat>)
    requires
        is_removal(before, x, after),
        before.no_duplicates(),
    ensures
        after.no_duplicates(),
        !after.contains(x),
        after.len() + 1 == before.len(),
        forall|y: nat| y != x ==> (after.contains(y) == before.contains(y)),
{
    let p = choose|p: int| 0 <= p < before.len() && before[p] == x && after == before.remove(p);
    assert forall|a: int, b: int| 0 <= a < after.len() && 0 <= b < after.len() && a != b implies after[a] != after[b] by {
        let a0 = if a < p { a } else { a + 1 };
        let b0 = if b < p { b } else { b + 1 };
        assert(after[a] == before[a0]);
        assert(after[b] == before[b0]);
    }
    assert forall|y: nat| y != x implies (after.contains(y) == before.contains(y)) by {
        if before.contains(y) {
            let q = choose|q: int| 0 <= q < before.len() && before[q] == y;
            if q < p {
                assert(after[q] == y);
            } else {
                assert(q != p);
                assert(after[q - 1] == y);
            }
        }
        if after.contains(y) {
            let q = choose|q: int| 0 <= q < after.len() && after[q] == y;
            if q < p {
                assert(before[q] == y);
            } else {
                assert(before[q + 1] == y);
            }
        }
    }
    if after.contains(x) {
        let q = choose|q: int| 0 <= q < after.len() && after[q] == x;
        if q < p {
            assert(before[q] == x);
        } else {
            assert(before[q + 1] == x);
        }
    }
}

/// Linking keeps a well-formed graph well formed.
pub(crate) proof fn lemma_link_wf(g0: GraphView, o: nat, i: nat, g: GraphView)
    requires
        graph_wf(g0),
        valid_slot(g0, o),
        valid_slot(g0, i),
        slot_of(g0, o).def.dir == SlotDir::Output,
        slot_of(g0, i).def.dir == SlotDir::Input,
        link_post(g0, o, i, g),
    ensures
        graph_wf(g),
{
    let s0 = g0.slots;
    let s = g.slots;
    let prev = source_of(g0, i);
    assert(slot_links_ok(s0, i - 1));
    assert(slot_links_ok(s0, o - 1));
    if let Some(p) = prev {
        assert(slot_links_ok(s0, p - 1));
        if p != o {
            lemma_removal(s0[p - 1].links, i, s[p - 1].links);
        }
    }
    assert forall|k: int| 0 <= k < s.len() implies (#[trigger] s[k]).id == k + 1 && 1 <= s[k].node
        <= g.node_count by {
        assert(same_except_links(s[k], s0[k]));
    }
    assert forall|k: int| 0 <= k < s.len() implies #[trigger] slot_links_ok(s, k) by {
        assert(slot_links_ok(s0, k));
        assert(same_except_links(s[k], s0[k]));
        if k == i - 1 {
            assert(s[o - 1].links.contains(i)) by {
                if !s0[o - 1].links.contains(i) {
                    assert(s[o - 1].links[s0[o - 1].links.len() as int] == i);
                }
            }
        } else if k == o - 1 {
            let l0 = s0[k].links;
            let l = s[k].links;
            assert forall|j: int| 0 <= j < l.len() implies {
                let t = #[trigger] l[j];
                &&& 1 <= t <= s.len()
                &&& s[t - 1].def.dir == SlotDir::Input
                &&& s[t - 1].links == seq![(k + 1) as nat]
            } by {
                let t = l[j];
                if t != i {
                    assert(j < l0.len());
                    assert(l0[j] == t);
                    assert(same_except_links(s[t - 1], s0[t - 1]));
                }
            }
            if !l0.contains(i) {
                assert forall|a: int, b: int| 0 <= a < l.len() && 0 <= b < l.len() && a != b implies l[a] != l[b] by {
                    if a < l0.len() && b < l0.len() {
                    } else if a < l0.len() {
                        assert(l[a] == l0[a]);
                    } else {
                        assert(l[b] == l0[b]);
                    }
                }
            }
        } else if prev == Some((k + 1) as nat) {
            let l0 = s0[k].links;
            let l = s[k].links;
            assert forall|j: int| 0 <= j < l.len() implies {
                let t = #[trigger] l[j];
                &&& 1 <= t <= s.len()
                &&& s[t - 1].def.dir == SlotDir::Input
                &&& s[t - 1].links == seq![(k + 1) as nat]
            } by {
                let t = l[j];
                assert(l.contains(t));
                assert(l0.contains(t));
                let q = choose|q: int| 0 <= q < l0.len() && l0[q] == t;
                assert(l0[q] == t);
                assert(same_except_links(s[t - 1], s0[t - 1]));
            }
        } else if s0[k].def.dir == SlotDir::Input {
            if s0[k].links.len() == 1 {
                let q = s0[k].links[0];
                assert(same_except_links(s[q - 1], s0[q - 1]));
                if q == o {
                    if !s0[o - 1].links.contains(i) {
                        let l0 = s0[o - 1].links;
                        let w = choose|w: int| 0 <= w < l0.len() && #[trigger] l0[w] == (k + 1) as nat;
                        assert(s[o - 1].links[w] == (k + 1) as nat);
                    }
                } else if prev == Some(q) {
                }
            }
        } else {
            let l = s[k].links;
            assert forall|j: int| 0 <= j < l.len() implies {
                let t = #[trigger] l[j];
                &&& 1 <= t <= s.len()
                &&& s[t - 1].def.dir == SlotDir::Input
                &&& s[t - 1].links == seq![(k + 1) as nat]
            } by {
                let t = l[j];
                assert(s0[k].links[j] == t);
                assert(same_except_links(s[t - 1], s0[t - 1]));
            }
        }
    }
}

/// Unlinking keeps a well-formed graph well formed.
pub(crate) proof fn lemma_unlink_wf(g0: GraphView, o: nat, i: nat, g: GraphView)
    requires
        graph_wf(g0),
        valid_slot(g0, o),
        slot_of(g0, o).def.dir == SlotDir::Output,
        unlink_post(g0, o, i, true, g),
    ensures
        graph_wf(g),
{
    let s0 = g0.slots;
    let s = g.slots;
    assert(slot_links_ok(s0, o - 1));
    let w = choose|w: int| 0 <= w < s0[o - 1].links.len() && #[trigger] s0[o - 1].links[w] == i;
    assert(s0[o - 1].links[w] == i);
    assert(s0[i - 1].links == seq![o]);
    lemma_removal(s0[o - 1].links, i, s[o - 1].links);
    assert forall|k: int| 0 <= k < s.len() implies (#[trigger] s[k]).id == k + 1 && 1 <= s[k].node
        <= g.node_count by {
        assert(same_except_links(s[k], s0[k]));
    }
    assert forall|k: int| 0 <= k < s.len() implies #[trigger] slot_links_ok(s, k) by {
        assert(slot_links_ok(s0, k));
        assert(same_except_links(s[k], s0[k]));
        if k == i - 1 {
        } else if k == o - 1 {
            let l0 = s0[k].links;
            let l = s[k].links;
            assert forall|j: int| 0 <= j < l.len() implies {
                let t = #[trigger] l[j];
                &&& 1 <= t <= s.len()
                &&& s[t - 1].def.dir == SlotDir::Input
                &&& s[t - 1].links == seq![(k + 1) as nat]
            } by {
                let t = l[j];
                assert(l.contains(t));
                let q = choose|q: int| 0 <= q < l0.len() && l0[q] == t;
                assert(l0[q] == t);
                assert(same_except_links(s[t - 1], s0[t - 1]));
            }
        } else if s0[k].def.dir == SlotDir::Input {
            if s0[k].links.len() == 1 {
                let q = s0[k].links[0];
                assert(same_except_links(s[q - 1], s0[q - 1]));
            }
        } else {
            let l = s[k].links;
            assert forall|j: int| 0 <= j < l.len() implies {
                let t = #[trigger] l[j];
                &&& 1 <= t <= s.len()
                &&& s[t - 1].def.dir == SlotDir::Input
                &&& s[t - 1].links == seq![(k + 1) as nat]
            } by {
                let t = l[j];
                assert(s0[k].links[j] == t);
                assert(same_except_links(s[t - 1], s0[t - 1]));
                if t == i {
                    assert(s0[i - 1].links == seq![(k + 1) as nat]);
                    assert(seq![o][0] == o);
                    assert(seq![(k + 1) as nat][0] == (k + 1) as nat);
                }
            }
        }
    }
}

/// Severing every link of a slot keeps a well-formed graph well formed.
pub(crate) proof fn lemma_unlink_all_wf(g0: GraphView, sid: nat, g: GraphView)
    requires
        graph_wf(g0),
        valid_slot(g0, sid),
        unlink_all_post(g0, sid, g),
    ensures
        graph_wf(g),
{
    let s0 = g0.slots;
    let s = g.slots;
    let remotes = s0[sid - 1].links;
    assert(slot_links_ok(s0, sid - 1));
    let input = s0[sid - 1].def.dir == SlotDir::Input;
    if input && remotes.len() == 1 {
        let p = remotes[0];
        assert(slot_links_ok(s0, p - 1));
        assert(remotes[0] == p);
        lemma_removal(s0[p - 1].links, sid, s[p - 1].links);
    }
    assert forall|k: int| 0 <= k < s.len() implies (#[trigger] s[k]).id == k + 1 && 1 <= s[k].node
        <= g.node_count by {
        assert(same_except_links(s[k], s0[k]));
    }
    assert forall|k: int| 0 <= k < s.len() implies #[trigger] slot_links_ok(s, k) by {
        assert(slot_links_ok(s0, k));
        assert(same_except_links(s[k], s0[k]));
        if k == sid - 1 {
        } else if remotes.contains((k + 1) as nat) {
            let q = choose|q: int| 0 <= q < remotes.len() && remotes[q] == (k + 1) as nat;
            assert(remotes[q] == (k + 1) as nat);
            if input {
                let l0 = s0[k].links;
                let l = s[k].links;
                assert forall|j: int| 0 <= j < l.len() implies {
                    let t = #[trigger] l[j];
                    &&& 1 <= t <= s.len()
                    &&& s[t - 1].def.dir == SlotDir::Input
                    &&& s[t - 1].links == seq![(k + 1) as nat]
                } by {
                    let t = l[j];
                    assert(l.contains(t));
                    let q2 = choose|q2: int| 0 <= q2 < l0.len() && l0[q2] == t;
                    assert(l0[q2] == t);
                    assert(same_except_links(s[t - 1], s0[t - 1]));
                    if remotes.contains(t) {
                        assert(s0[t - 1].def.dir == SlotDir::Output);
                    }
                }
            }
        } else if s0[k].def.dir == SlotDir::Input {
            if s0[k].links.len() == 1 {
                let q = s0[k].links[0];
                assert(same_except_links(s[q - 1], s0[q - 1]));
                if q == sid {
                    let l0 = s0[sid - 1].links;
                    let w = choose|w: int| 0 <= w < l0.len() && #[trigger] l0[w] == (k + 1) as nat;
                    assert(remotes[w] == (k + 1) as nat);
                }
                if remotes.contains(q) && !input {
                    let w = choose|w: int| 0 <= w < remotes.len() && remotes[w] == q;
                    assert(remotes[w] == q);
                    assert(s0[q - 1].def.dir == SlotDir::Input);
                }
            }
        } else {
            let l = s[k].links;
            assert forall|j: int| 0 <= j < l.len() implies {
                let t = #[trigger] l[j];
                &&& 1 <= t <= s.len()
                &&& s[t - 1].def.dir == SlotDir::Input
                &&& s[t - 1].links == seq![(k + 1) as nat]
            } by {
                let t = l[j];
                assert(s0[k].links[j] == t);
                assert(same_except_links(s[t - 1], s0[t - 1]));
                if t == sid {
                    assert(remotes[0] == (k + 1) as nat);
                }
                if remotes.contains(t) {
                    let w = choose|w: int| 0 <= w < remotes.len() && remotes[w] == t;
                    assert(remotes[w] == t);
                    assert(s0[t - 1].links == seq![sid]);
                }
            }
        }
    }
}

/// Slots appended for a node with identifier `node` whose declarations are
/// `defs`, when the graph already holds `base` slots.
pub open spec fn new_slot_views(node: nat, base: nat, defs: Seq<SlotDefView>) -> Seq<SlotView> {
    Seq::new(
        defs.len(),
        |k: int| SlotView { node, id: (base + k + 1) as nat, def: defs[k], links: Seq::empty() },
    )
}

/// `g` is `g0` after adding node `n` whose slot declarations are `defs`.
pub open spec fn add_node_post(g0: GraphView, defs: Seq<SlotDefView>, n: nat, g: GraphView) -> bool {
    &&& n == g0.node_count + 1
    &&& g.node_count == n
    &&& g.slots == g0.slots + new_slot_views(n, g0.slots.len(), defs)
}

/// Identifiers of the slots of `s` owned by `node`, with direction `dir`
/// when one is given, in order.
pub open spec fn slot_ids_of(s: Seq<SlotView>, node: nat, dir: Option<SlotDir>) -> Seq<nat>
    decreases s.len(),
{
    if s.len() == 0 {
        Seq::empty()
    } else {
        let rest = slot_ids_of(s.drop_last(), node, dir);
        let last = s.last();
        if last.node == node && (dir is None || last.def.dir == dir->0) {
            rest.push(last.id)
        } else {
            rest
        }
    }
}

/// Effect graph: owns every node and every slot; slots refer to nodes and
/// to each other by identifier.
#[derive(Debug)]
pub struct Graph {
    nodes: Vec<AnyNode>,
    slots: Vec<Slot>,
}

impl View for Graph {
    type V = GraphView;

    closed spec fn view(&self) -> GraphView {
        GraphView { node_count: self.nodes@.len(), slots: self.slots@.map_values(|s: Slot| s@) }
    }
}

impl Graph {
    /// Create a new, empty graph.
    pub fn new() -> (r: Self)
        ensures
            graph_wf(r@),
            r@.node_count == 0,
            r@.slots == Seq::<SlotView>::empty(),
    {
        let r = Graph { nodes: Vec::new(), slots: Vec::new() };
        assert(r@.slots =~= Seq::<SlotView>::empty());
        r
    }

    /// Link an output slot of a node to an input slot of another node.
    pub fn link(&mut self, output: SlotId, input: SlotId)
        requires
            graph_wf(old(self)@),
            valid_slot(old(self)@, output@),
            valid_slot(old(self)@, input@),
            slot_of(old(self)@, output@).def.dir == SlotDir::Output,
            slot_of(old(self)@, input@).def.dir == SlotDir::Input,
        ensures
            graph_wf(final(self)@),
            link_post(old(self)@, output@, input@, final(self)@),
    {
        let ghost g0 = self@;
        let oi = output.index();
        let ii = input.index();
        assert(slot_links_ok(g0.slots, ii as int));
        assert(self.slots@[ii as int]@ == g0.slots[ii as int]);
        if self.slots[ii].linked_slots.len() == 1 {
            let prev = self.slots[ii].linked_slots[0];
            assert(prev@ == g0.slots[ii as int].links[0]);
            proof {
                SlotId::lemma_view_eq(prev, output);
            }
            if prev != output {
                let pi = prev.index();
                assert(self.slots@[pi as int]@ == g0.slots[pi as int]);
                let _ = self.slots[pi].unlink_from(input);
                assert(self@.slots =~= g0.slots.update(pi as int, self.slots@[pi as int]@));
            }
        }
        let ghost g1 = self@;
        assert(self.slots@[oi as int]@ == g1.slots[oi as int]);
        self.slots[oi].link_to(input);
        assert(self@.slots =~= g1.slots.update(oi as int, self.slots@[oi as int]@));
        let ghost g2 = self@;
        assert(self.slots@[ii as int]@ == g2.slots[ii as int]);
        self.slots[ii].link_input(output);
        assert(self@.slots =~= g2.slots.update(ii as int, self.slots@[ii as int]@));
        proof {
            lemma_link_wf(g0, output@, input@, self@);
        }
    }
    /// Unlink an output slot from an input slot; returns whether they were
    /// linked. Unlinking slots that are not linked changes nothing.
    pub fn unlink(&mut self, output: SlotId, input: SlotId) -> (r: bool)
        requires
            graph_wf(old(self)@),
            valid_slot(old(self)@, output@),
            slot_of(old(self)@, output@).def.dir == SlotDir::Output,
        ensures
            graph_wf(final(self)@),
            unlink_post(old(self)@, output@, input@, r, final(self)@),
    {
        let ghost g0 = self@;
        let oi = output.index();
        assert(slot_links_ok(g0.slots, oi as int));
        assert(self.slots@[oi as int]@ == g0.slots[oi as int]);
        let r = self.slots[oi].unlink_from(input);
        if r {
            assert(self@.slots =~= g0.slots.update(oi as int, self.slots@[oi as int]@));
            let ghost g1 = self@;
            proof {
                let l0 = g0.slots[oi as int].links;
                let w = choose|w: int| 0 <= w < l0.len() && #[trigger] l0[w] == input@;
                assert(l0[w] == input@);
            }
            let ii = input.index();
            assert(self.slots@[ii as int]@ == g1.slots[ii as int]);
            self.slots[ii].unlink_input();
            assert(self@.slots =~= g1.slots.update(ii as int, self.slots@[ii as int]@));
            proof {
                lemma_unlink_wf(g0, output@, input@, self@);
            }
        } else {
            assert(self@.slots =~= g0.slots);
        }
        r
    }

    /// Sever every link of a slot, on both sides of each link.
    pub fn unlink_all(&mut self, slot_id: SlotId)
        requires
            graph_wf(old(self)@),
            valid_slot(old(self)@, slot_id@),
        ensures
            graph_wf(final(self)@),
            unlink_all_post(old(self)@, slot_id@, final(self)@),
    {
        let ghost g0 = self@;
        let si = slot_id.index();
        assert(slot_links_ok(g0.slots, si as int));
        assert(self.slots@[si as int]@ == g0.slots[si as int]);
        let ghost remotes = g0.slots[si as int].links;
        if self.slots[si].is_input() {
            if self.slots[si].linked_slots.len() == 1 {
                let p = self.slots[si].linked_slots[0];
                assert(p@ == remotes[0]);
                let pi = p.index();
                assert(self.slots@[pi as int]@ == g0.slots[pi as int]);
                let _ = self.slots[pi].unlink_from(slot_id);
                assert(self@.slots =~= g0.slots.update(pi as int, self.slots@[pi as int]@));
            }
            let ghost g1 = self@;
            assert(self.slots@[si as int]@ == g1.slots[si as int]);
            self.slots[si].unlink_input();
            assert(self@.slots =~= g1.slots.update(si as int, self.slots@[si as int]@));
        } else {
            let targets = self.slots[si].take_links();
            assert(self@.slots =~= g0.slots.update(si as int, self.slots@[si as int]@));
            assert(id_views(targets@) == remotes);
            let mut j: usize = 0;
            while j < targets.len()
                invariant
                    graph_wf(g0),
                    0 <= si < g0.slots.len(),
                    g0.slots[si as int].def.dir == SlotDir::Output,
                    remotes == g0.slots[si as int].links,
                    id_views(targets@) == remotes,
                    0 <= j <= targets.len(),
                    self@.node_count == g0.node_count,
                    self@.slots.len() == g0.slots.len(),
                    forall|k: int|
                        0 <= k < g0.slots.len() ==> same_except_links(
                            #[trigger] self@.slots[k],
                            g0.slots[k],
                        ),
                    self@.slots[si as int].links == Seq::<nat>::empty(),
                    forall|q: int| 0 <= q < j ==> slot_of(self@, #[trigger] remotes[q]).links == Seq::<nat>::empty(),
                    forall|k: int|
                        0 <= k < g0.slots.len() && k != si && !remotes.subrange(0, j as int).contains(
                            (k + 1) as nat,
                        ) ==> (#[trigger] self@.slots[k]).links == g0.slots[k].links,
                decreases targets.len() - j,
            {
                let t = targets[j];
                assert(t@ == remotes[j as int]);
                assert(slot_links_ok(g0.slots, si as int));
                let ti = t.index();
                let ghost g1 = self@;
                assert(same_except_links(self@.slots[ti as int], g0.slots[ti as int]));
                assert(self.slots@[ti as int]@ == g1.slots[ti as int]);
                self.slots[ti].unlink_input();
                assert(self@.slots =~= g1.slots.update(ti as int, self.slots@[ti as int]@));
                proof {
                    assert forall|k: int|
                        0 <= k < g0.slots.len() && k != si && !remotes.subrange(0, j + 1).contains(
                            (k + 1) as nat,
                        ) implies (#[trigger] self@.slots[k]).links == g0.slots[k].links by {
                        if remotes.subrange(0, j as int).contains((k + 1) as nat) {
                            let w = choose|w: int| 0 <= w < j && remotes.subrange(0, j as int)[w] == (k + 1) as nat;
                            assert(remotes.subrange(0, j + 1)[w] == (k + 1) as nat);
                        }
                        if k == ti {
                            assert(remotes.subrange(0, j + 1)[j as int] == (k + 1) as nat);
                        }
                    }
                }
                j = j + 1;
            }
            assert(remotes.subrange(0, j as int) =~= remotes);
        }
        proof {
            lemma_unlink_all_wf(g0, slot_id@, self@);
        }
    }
    /// Add a node to the graph: it gets the next node identifier, and one
    /// new slot per declared slot, in declaration order.
    pub fn add_node(&mut self, node: AnyNode) -> (r: NodeId)
        requires
            graph_wf(old(self)@),
            old(self)@.node_count < u32::MAX,
            old(self)@.slots.len() + node.slot_defs().len() <= u32::MAX,
        ensures
            graph_wf(final(self)@),
            add_node_post(old(self)@, node.slot_defs(), r@, final(self)@),
    {
        let ghost g0 = self@;
        let ghost defs = node.slot_defs();
        let ghost base = g0.slots.len();
        let index = self.nodes.len();
        let node_id = NodeId::new((index + 1) as u32);
        {
            let slot_defs = node.slots();
            let mut k: usize = 0;
            while k < slot_defs.len()
                invariant
                    def_views(slot_defs@) == defs,
                    self@.node_count == g0.node_count,
                    node_id@ == g0.node_count + 1,
                    base == g0.slots.len(),
                    base + defs.len() <= u32::MAX,
                    0 <= k <= slot_defs.len(),
                    self@.slots == g0.slots + new_slot_views(node_id@, base, defs).subrange(0, k as int),
                decreases slot_defs.len() - k,
            {
                let ghost before = self@.slots;
                assert(self@.slots.len() == base + k);
                let slot_id = SlotId::new((self.slots.len() + 1) as u32);
                let slot = Slot::new(node_id, slot_id, slot_defs[k].duplicate());
                let ghost sv = slot@;
                self.slots.push(slot);
                assert(def_views(slot_defs@)[k as int] == slot_defs@[k as int]@);
                assert(self@.slots =~= before.push(sv));
                assert(sv == new_slot_views(node_id@, base, defs)[k as int]);
                assert(self@.slots =~= g0.slots + new_slot_views(node_id@, base, defs).subrange(0, k + 1));
                k = k + 1;
            }
            assert(new_slot_views(node_id@, base, defs).subrange(0, k as int) =~= new_slot_views(node_id@, base, defs));
        }
        self.nodes.push(node);
        proof {
            let g = self@;
            assert(g.slots == g0.slots + new_slot_views(node_id@, base, defs));
            assert forall|i: int| 0 <= i < g.slots.len() implies (#[trigger] g.slots[i]).id == i + 1 && 1
                <= g.slots[i].node <= g.node_count by {
                if i < base {
                    assert(g.slots[i] == g0.slots[i]);
                }
            }
            assert forall|i: int| 0 <= i < g.slots.len() implies #[trigger] slot_links_ok(g.slots, i) by {
                if i < base {
                    assert(g.slots[i] == g0.slots[i]);
                    assert(slot_links_ok(g0.slots, i));
                    let l = g.slots[i].links;
                    if g.slots[i].def.dir == SlotDir::Input {
                        if l.len() == 1 {
                            assert(g.slots[l[0] - 1] == g0.slots[l[0] - 1]);
                        }
                    } else {
                        assert forall|j: int| 0 <= j < l.len() implies {
                            let t = #[trigger] l[j];
                            &&& 1 <= t <= g.slots.len()
                            &&& g.slots[t - 1].def.dir == SlotDir::Input
                            &&& g.slots[t - 1].links == seq![(i + 1) as nat]
                        } by {
                            assert(g.slots[l[j] - 1] == g0.slots[l[j] - 1]);
                        }
                    }
                } else {
                    assert(g.slots[i].links == Seq::<nat>::empty());
                    assert(g.slots[i].links.no_duplicates());
                }
            }
        }
        node_id
    }

    fn collect_slots(&self, node_id: NodeId, dir: Option<SlotDir>) -> (r: Vec<SlotId>)
        ensures
            id_views(r@) == slot_ids_of(self@.slots, node_id@, dir),
    {
        let mut r: Vec<SlotId> = Vec::new();
        let mut i: usize = 0;
        while i < self.slots.len()
            invariant
                0 <= i <= self.slots.len(),
                id_views(r@) == slot_ids_of(self@.slots.subrange(0, i as int), node_id@, dir),
            decreases self.slots.len() - i,
        {
            let s = &self.slots[i];
            proof {
                NodeId::lemma_view_eq(s.node_id, node_id);
                let sub = self@.slots.subrange(0, i + 1);
                assert(sub.drop_last() =~= self@.slots.subrange(0, i as int));
                assert(sub.last() == s@);
            }
            let keep = s.node_id == node_id && match dir {
                None => true,
                Some(d) => s.dir() == d,
            };
            if keep {
                r.push(s.id);
                assert(id_views(r@) =~= slot_ids_of(self@.slots.subrange(0, i as int), node_id@, dir).push(s@.id));
            }
            i = i + 1;
        }
        assert(self@.slots.subrange(0, i as int) =~= self@.slots);
        r
    }

    /// Get all slots of a node, in order of identifier.
    pub fn slots(&self, node_id: NodeId) -> (r: Vec<SlotId>)
        ensures
            id_views(r@) == slot_ids_of(self@.slots, node_id@, None),
    {
        self.collect_slots(node_id, None)
    }

    /// Get all input slots of a node, in order of identifier.
    pub fn input_slots(&self, node_id: NodeId) -> (r: Vec<SlotId>)
        ensures
            id_views(r@) == slot_ids_of(self@.slots, node_id@, Some(SlotDir::Input)),
    {
        self.collect_slots(node_id, Some(SlotDir::Input))
    }

    /// Get all output slots of a node, in order of identifier.
    pub fn output_slots(&self, node_id: NodeId) -> (r: Vec<SlotId>)
        ensures
            id_views(r@) == slot_ids_of(self@.slots, node_id@, Some(SlotDir::Output)),
    {
        self.collect_slots(node_id, Some(SlotDir::Output))
    }

    /// Find the first slot with the given name.
    pub fn get_slot_id(&self, name: &str) -> (r: Option<SlotId>)
        requires
            graph_wf(self@),
        ensures
            r matches Some(id) ==> {
                &&& valid_slot(self@, id@)
                &&& slot_of(self@, id@).def.name == name@
                &&& forall|j: int| 0 <= j < id@ - 1 ==> (#[trigger] self@.slots[j]).def.name != name@
            },
            r is None ==> forall|j: int|
                0 <= j < self@.slots.len() ==> (#[trigger] self@.slots[j]).def.name != name@,
    {
        let wanted = String::from_str(name);
        let mut i: usize = 0;
        while i < self.slots.len()
            invariant
                wanted@ == name@,
                0 <= i <= self.slots.len(),
                forall|j: int| 0 <= j < self@.slots.len() ==> (#[trigger] self@.slots[j]).id == j + 1,
                forall|j: int| 0 <= j < i ==> (#[trigger] self@.slots[j]).def.name != name@,
            decreases self.slots.len() - i,
        {
            assert(self.slots@[i as int]@ == self@.slots[i as int]);
            if self.slots[i].def.name == wanted {
                let id = self.slots[i].id;
                assert(self@.slots[i as int].id == i + 1);
                assert(id@ == i + 1);
                assert(slot_of(self@, id@).def.name == name@);
                return Some(id);
            }
            i = i + 1;
        }
        None
    }

    /// Get a slot by identifier.
    pub fn get_slot(&self, id: SlotId) -> (r: &Slot)
        requires
            valid_slot(self@, id@),
        ensures
            r@ == slot_of(self@, id@),
    {
        &self.slots[id.index()]
    }
}

} // verus!
