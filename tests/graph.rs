use hanabi::{
    AddNode, AnyNode, Attribute, AttributeNode, Graph, NormalizeNode, SlotDir, SlotId, TimeNode,
};

fn links(g: &Graph, id: SlotId) -> Vec<SlotId> {
    g.get_slot(id).linked_slots().to_vec()
}

#[test]
fn add_node_round_trip() {
    let mut g = Graph::new();
    let n1 = g.add_node(AnyNode::Time(TimeNode::new()));
    let n2 = g.add_node(AnyNode::Add(AddNode::new()));
    assert_eq!(n1.id(), 1);
    assert_eq!(n2.id(), 2);
    assert_eq!(n2.index(), 1);

    let all = g.slots(n2);
    assert_eq!(all.len(), 3);
    let names: Vec<&str> = all.iter().map(|&s| g.get_slot(s).def().name()).collect();
    assert_eq!(names, vec!["lhs", "rhs", "result"]);
    assert_eq!(all.iter().map(|s| s.id()).collect::<Vec<_>>(), vec![3, 4, 5]);

    let inputs = g.input_slots(n2);
    assert_eq!(inputs, vec![all[0], all[1]]);
    let outputs = g.output_slots(n2);
    assert_eq!(outputs, vec![all[2]]);
    for s in &all {
        assert_eq!(g.get_slot(*s).node_id(), n2);
    }

    assert_eq!(g.slots(n1).len(), 2);
    assert!(g.input_slots(n1).is_empty());
    assert_eq!(g.get_slot(g.slots(n1)[0]).dir(), SlotDir::Output);
}

#[test]
fn link_and_relink() {
    let mut g = Graph::new();
    let a = g.add_node(AnyNode::Attribute(AttributeNode::new(Attribute::Position)));
    let b = g.add_node(AnyNode::Attribute(AttributeNode::new(Attribute::Velocity)));
    let n = g.add_node(AnyNode::Normalize(NormalizeNode::new()));
    let out_a = g.output_slots(a)[0];
    let out_b = g.output_slots(b)[0];
    let input = g.input_slots(n)[0];

    g.link(out_a, input);
    assert_eq!(links(&g, input), vec![out_a]);
    assert_eq!(links(&g, out_a), vec![input]);

    // Linking the same pair again adds nothing.
    g.link(out_a, input);
    assert_eq!(links(&g, out_a), vec![input]);

    // A second source replaces the first on both sides.
    g.link(out_b, input);
    assert_eq!(links(&g, input), vec![out_b]);
    assert_eq!(links(&g, out_b), vec![input]);
    assert!(links(&g, out_a).is_empty());
}

#[test]
fn unlink_pairs() {
    let mut g = Graph::new();
    let a = g.add_node(AnyNode::Attribute(AttributeNode::new(Attribute::Position)));
    let n = g.add_node(AnyNode::Add(AddNode::new()));
    let out = g.output_slots(a)[0];
    let lhs = g.input_slots(n)[0];
    let rhs = g.input_slots(n)[1];

    assert!(!g.unlink(out, lhs));
    assert!(links(&g, out).is_empty());

    g.link(out, lhs);
    g.link(out, rhs);
    assert_eq!(links(&g, out), vec![lhs, rhs]);
    assert!(g.unlink(out, lhs));
    assert_eq!(links(&g, out), vec![rhs]);
    assert!(links(&g, lhs).is_empty());
    assert_eq!(links(&g, rhs), vec![out]);
}

#[test]
fn unlink_all_from_output() {
    let mut g = Graph::new();
    let a = g.add_node(AnyNode::Attribute(AttributeNode::new(Attribute::Position)));
    let n = g.add_node(AnyNode::Add(AddNode::new()));
    let out = g.output_slots(a)[0];
    let lhs = g.input_slots(n)[0];
    let rhs = g.input_slots(n)[1];
    g.link(out, lhs);
    g.link(out, rhs);

    g.unlink_all(out);
    assert!(links(&g, out).is_empty());
    assert!(links(&g, lhs).is_empty());
    assert!(links(&g, rhs).is_empty());
}

#[test]
fn unlink_all_from_input() {
    let mut g = Graph::new();
    let a = g.add_node(AnyNode::Attribute(AttributeNode::new(Attribute::Position)));
    let n = g.add_node(AnyNode::Add(AddNode::new()));
    let out = g.output_slots(a)[0];
    let lhs = g.input_slots(n)[0];
    let rhs = g.input_slots(n)[1];
    g.link(out, lhs);
    g.link(out, rhs);

    g.unlink_all(lhs);
    assert!(links(&g, lhs).is_empty());
    assert_eq!(links(&g, out), vec![rhs]);
    assert_eq!(links(&g, rhs), vec![out]);
}

#[test]
fn slot_lookup_by_name_finds_first() {
    let mut g = Graph::new();
    assert_eq!(g.get_slot_id("lhs"), None);
    let n1 = g.add_node(AnyNode::Add(AddNode::new()));
    g.add_node(AnyNode::Add(AddNode::new()));
    assert_eq!(g.get_slot_id("lhs"), Some(g.slots(n1)[0]));
    assert_eq!(g.get_slot_id("result"), Some(g.slots(n1)[2]));
    assert_eq!(g.get_slot_id("missing"), None);
}

#[test]
fn slot_identifiers() {
    let id = SlotId::new(4);
    assert_eq!(id.id(), 4);
    assert_eq!(id.index(), 3);
}
