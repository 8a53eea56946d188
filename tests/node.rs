use hanabi::{
    AddNode, Attribute, AttributeNode, BuiltInOperator, DivNode, ExprError, Module, MulNode, Node,
    NormalizeNode, ShaderWriter, SubNode, TimeNode, Value,
};

fn render(module: &Module, handle: hanabi::ExprHandle) -> String {
    let mut writer = ShaderWriter::new();
    writer.eval(module, handle).unwrap()
}

#[test]
fn add() {
    let node = AddNode::new();
    let mut m = Module::new();

    let ret = node.eval(&mut m, vec![]);
    assert!(matches!(ret, Err(ExprError::GraphEvalError(_))));
    let three = m.lit(Value::Int(3));
    let ret = node.eval(&mut m, vec![three]);
    assert!(matches!(ret, Err(ExprError::GraphEvalError(_))));

    let two = m.lit(Value::Int(2));
    let outputs = node.eval(&mut m, vec![three, two]).unwrap();
    assert_eq!(outputs.len(), 1);
    let out = outputs[0];
    assert_eq!(render(&m, out), "(3) + (2)".to_string());
}

#[test]
fn sub() {
    let node = SubNode::new();
    let mut m = Module::new();

    let ret = node.eval(&mut m, vec![]);
    assert!(matches!(ret, Err(ExprError::GraphEvalError(_))));
    let three = m.lit(Value::Int(3));
    let ret = node.eval(&mut m, vec![three]);
    assert!(matches!(ret, Err(ExprError::GraphEvalError(_))));

    let two = m.lit(Value::Int(2));
    let outputs = node.eval(&mut m, vec![three, two]).unwrap();
    assert_eq!(outputs.len(), 1);
    let out = outputs[0];
    assert_eq!(render(&m, out), "(3) - (2)".to_string());
}

#[test]
fn mul() {
    let node = MulNode::new();
    let mut m = Module::new();

    let ret = node.eval(&mut m, vec![]);
    assert!(matches!(ret, Err(ExprError::GraphEvalError(_))));
    let three = m.lit(Value::Int(3));
    let ret = node.eval(&mut m, vec![three]);
    assert!(matches!(ret, Err(ExprError::GraphEvalError(_))));

    let two = m.lit(Value::Int(2));
    let outputs = node.eval(&mut m, vec![three, two]).unwrap();
    assert_eq!(outputs.len(), 1);
    let out = outputs[0];
    assert_eq!(render(&m, out), "(3) * (2)".to_string());
}

#[test]
fn div() {
    let node = DivNode::new();
    let mut m = Module::new();

    let ret = node.eval(&mut m, vec![]);
    assert!(matches!(ret, Err(ExprError::GraphEvalError(_))));
    let three = m.lit(Value::Int(3));
    let ret = node.eval(&mut m, vec![three]);
    assert!(matches!(ret, Err(ExprError::GraphEvalError(_))));

    let two = m.lit(Value::Int(2));
    let outputs = node.eval(&mut m, vec![three, two]).unwrap();
    assert_eq!(outputs.len(), 1);
    let out = outputs[0];
    assert_eq!(render(&m, out), "(3) / (2)".to_string());
}

#[test]
fn attr() {
    let node = AttributeNode::new(Attribute::Position);
    let mut m = Module::new();

    let three = m.lit(Value::Int(3));
    let ret = node.eval(&mut m, vec![three]);
    assert!(matches!(ret, Err(ExprError::GraphEvalError(_))));

    let outputs = node.eval(&mut m, vec![]).unwrap();
    assert_eq!(outputs.len(), 1);
    let out = outputs[0];
    assert_eq!(
        render(&m, out),
        format!("particle.{}", Attribute::Position.name())
    );
}

#[test]
fn time() {
    let node = TimeNode::new();
    let mut m = Module::new();

    let three = m.lit(Value::Int(3));
    let ret = node.eval(&mut m, vec![three]);
    assert!(matches!(ret, Err(ExprError::GraphEvalError(_))));

    let outputs = node.eval(&mut m, vec![]).unwrap();
    assert_eq!(outputs.len(), 2);
    assert_eq!(
        render(&m, outputs[0]),
        BuiltInOperator::Time.to_wgsl_string()
    );
    assert_eq!(
        render(&m, outputs[1]),
        BuiltInOperator::DeltaTime.to_wgsl_string()
    );
}

#[test]
fn normalize_of_literal() {
    let node = NormalizeNode::new();
    let mut m = Module::new();

    let ret = node.eval(&mut m, vec![]);
    assert!(matches!(ret, Err(ExprError::GraphEvalError(_))));
    let x = m.lit(Value::Int(1));
    let ret = node.eval(&mut m, vec![x, x]);
    assert!(matches!(ret, Err(ExprError::GraphEvalError(_))));

    let outputs = node.eval(&mut m, vec![x]).unwrap();
    assert_eq!(outputs.len(), 1);
    assert_eq!(render(&m, outputs[0]), "normalize(1)".to_string());
}

#[test]
fn arity_error_message() {
    let node = AddNode::new();
    let mut m = Module::new();
    let three = m.lit(Value::Int(3));
    let ret = node.eval(&mut m, vec![three]);
    assert_eq!(
        ret,
        Err(ExprError::GraphEvalError(
            "Unexpected input count to AddNode::eval(): expected 2, got 1".to_string()
        ))
    );
    // The failed evaluation added nothing to the module.
    assert_eq!(m.len(), 1);
}

#[test]
fn time_slots_are_named_after_quantities() {
    let node = TimeNode::new();
    let slots = node.slots();
    assert_eq!(slots.len(), 2);
    assert_eq!(slots[0].name(), "time");
    assert_eq!(slots[1].name(), "delta_time");
}

#[test]
fn attribute_node_follows_its_attribute() {
    let mut node = AttributeNode::new(Attribute::Position);
    assert_eq!(node.attr(), Attribute::Position);
    node.set_attr(Attribute::Age);
    assert_eq!(node.attr(), Attribute::Age);
    assert_eq!(node.slots()[0].name(), "age");
    assert_eq!(node.slots()[0].value_type(), Some(hanabi::ValueType::Float));
}
