use js::builder::register;
use js::error::{ConstructionError, PropertyAccessError};
use js::magicdom::node::node_decl;
use js::property::AccessorMode;
use js::runtime::Runtime;
use js::value::Value;

fn text(s: &str) -> Value {
    Value::Text(s.to_string())
}

fn node_args(name: &str, value: &str, content: &str, children: Vec<usize>) -> Vec<Value> {
    vec![
        Value::Number(1),
        text(name),
        text("mozilla/en"),
        Value::Boolean(false),
        text(value),
        text(content),
        Value::Array(children.into_iter().map(Value::Object).collect()),
    ]
}

fn runtime_with_node(mode: AccessorMode) -> (Runtime, usize) {
    let mut rt = Runtime::new();
    let proto = register(&mut rt, None, &node_decl(), mode).unwrap();
    (rt, proto)
}

fn check_get_and_set(mode: AccessorMode) {
    let (mut rt, proto) = runtime_with_node(mode);
    let node1 = rt.construct(proto, &node_args("Node2", "x", "div", vec![])).unwrap();
    let node2 = rt.construct(proto, &node_args("Node3", "p", "div", vec![])).unwrap();
    let node = rt.construct(proto, &node_args("Node", "n", "h1", vec![node1, node2])).unwrap();
    assert_eq!(rt.prototype_of(node), Some(proto));
    assert!(rt.instance_of(node, proto));
    assert_eq!(rt.get(node, "node_type"), Ok(Value::Number(1)));
    assert_eq!(rt.get(node, "node_name"), Ok(text("Node")));
    assert_eq!(rt.get(node, "base_uri"), Ok(text("mozilla/en")));
    assert_eq!(rt.get(node, "is_connected"), Ok(Value::Boolean(false)));
    assert_eq!(rt.get(node, "node_value"), Ok(text("n")));
    assert_eq!(rt.get(node, "text_content"), Ok(text("h1")));
    assert_eq!(rt.set(node, "node_value", &text("h6")), Ok(()));
    assert_eq!(rt.set(node, "text_content", &text("<b>")), Ok(()));
    assert_eq!(rt.get(node, "node_value"), Ok(text("h6")));
    assert_eq!(rt.get(node, "text_content"), Ok(text("<b>")));
    let count = rt.object_count();
    let childs = match rt.get(node, "child_nodes") {
        Ok(Value::Array(items)) => items,
        other => panic!("child_nodes is not an array: {:?}", other),
    };
    assert_eq!(childs, vec![Value::Object(count), Value::Object(count + 1)]);
    assert_eq!(rt.object_count(), count + 2);
    assert!(count > node2 && node2 > node1);
    let expected = [("Node2", "x"), ("Node3", "p")];
    for (child, (name, value)) in childs.iter().zip(expected) {
        let child = match child {
            Value::Object(h) => *h,
            other => panic!("child is not an object: {:?}", other),
        };
        assert_eq!(rt.get(child, "node_type"), Ok(Value::Number(1)));
        assert_eq!(rt.get(child, "node_name"), Ok(text(name)));
        assert_eq!(rt.get(child, "base_uri"), Ok(text("mozilla/en")));
        assert_eq!(rt.get(child, "is_connected"), Ok(Value::Boolean(false)));
        assert_eq!(rt.get(child, "node_value"), Ok(text(value)));
        assert_eq!(rt.get(child, "text_content"), Ok(text("div")));
        assert_eq!(rt.get(child, "child_nodes"), Ok(Value::Array(vec![])));
    }
}

#[test]
fn get_and_set() {
    check_get_and_set(AccessorMode::Native);
}

#[test]
fn get_and_set_self_hosted() {
    check_get_and_set(AccessorMode::SelfHosted);
}

#[test]
fn node_constructor_takes_seven_arguments() {
    let (rt, proto) = runtime_with_node(AccessorMode::Native);
    assert_eq!(rt.record_len(proto), Some(7));
    assert_eq!(rt.record_len(proto + 1), None);
}

#[test]
fn child_nodes_keep_their_order() {
    let (mut rt, proto) = runtime_with_node(AccessorMode::Native);
    let a = rt.construct(proto, &node_args("a", "", "", vec![])).unwrap();
    let b = rt.construct(proto, &node_args("b", "", "", vec![])).unwrap();
    let c = rt.construct(proto, &node_args("c", "", "", vec![])).unwrap();
    let parent = rt.construct(proto, &node_args("parent", "", "", vec![c, a, b, a])).unwrap();
    let first = parent + 1;
    assert_eq!(
        rt.get(parent, "child_nodes"),
        Ok(Value::Array(vec![
            Value::Object(first),
            Value::Object(first + 1),
            Value::Object(first + 2),
            Value::Object(first + 3),
        ]))
    );
    for (i, name) in ["c", "a", "b", "a"].iter().enumerate() {
        assert_eq!(rt.get(first + i, "node_name"), Ok(text(name)));
        assert_eq!(rt.prototype_of(first + i), Some(proto));
    }
}

#[test]
fn children_are_held_by_value() {
    let (mut rt, proto) = runtime_with_node(AccessorMode::Native);
    let child = rt.construct(proto, &node_args("child", "before", "", vec![])).unwrap();
    let parent = rt.construct(proto, &node_args("parent", "", "", vec![child])).unwrap();
    assert_eq!(rt.set(child, "node_value", &text("after")), Ok(()));
    assert_eq!(rt.get(child, "node_value"), Ok(text("after")));
    let held = parent + 1;
    assert_eq!(rt.get(parent, "child_nodes"), Ok(Value::Array(vec![Value::Object(held)])));
    assert_eq!(rt.get(held, "node_value"), Ok(text("before")));
    assert_eq!(rt.get(held, "node_name"), Ok(text("child")));
    assert_eq!(rt.set(held, "node_value", &text("copy")), Ok(()));
    let again = held + 1;
    assert_eq!(rt.get(parent, "child_nodes"), Ok(Value::Array(vec![Value::Object(again)])));
    assert_eq!(rt.get(again, "node_value"), Ok(text("before")));
    assert_eq!(rt.get(child, "node_value"), Ok(text("after")));
}

#[test]
fn grandchildren_are_copied_with_their_parent() {
    let (mut rt, proto) = runtime_with_node(AccessorMode::Native);
    let leaf = rt.construct(proto, &node_args("leaf", "l", "", vec![])).unwrap();
    let middle = rt.construct(proto, &node_args("middle", "m", "", vec![leaf, leaf])).unwrap();
    let root = rt.construct(proto, &node_args("root", "r", "", vec![middle])).unwrap();
    assert_eq!(rt.set(leaf, "node_value", &text("changed")), Ok(()));
    let middle_copy = root + 1;
    assert_eq!(rt.get(root, "child_nodes"), Ok(Value::Array(vec![Value::Object(middle_copy)])));
    assert_eq!(rt.get(middle_copy, "node_name"), Ok(text("middle")));
    let leaves = middle_copy + 1;
    assert_eq!(
        rt.get(middle_copy, "child_nodes"),
        Ok(Value::Array(vec![Value::Object(leaves), Value::Object(leaves + 1)]))
    );
    assert_eq!(rt.get(leaves, "node_value"), Ok(text("l")));
    assert_eq!(rt.get(leaves + 1, "node_name"), Ok(text("leaf")));
    assert_eq!(rt.get(leaves + 1, "child_nodes"), Ok(Value::Array(vec![])));
    assert_eq!(rt.object_count(), leaves + 2);
}

#[test]
fn writable_properties_round_trip() {
    let (mut rt, proto) = runtime_with_node(AccessorMode::Native);
    let node = rt.construct(proto, &node_args("Node", "n", "h1", vec![])).unwrap();
    for x in ["", "<b>", "<script>alert('x')</script>", "a & b", "h\u{e9}\u{1f600}"] {
        assert_eq!(rt.set(node, "node_value", &text(x)), Ok(()));
        assert_eq!(rt.get(node, "node_value"), Ok(text(x)));
        assert_eq!(rt.get(node, "text_content"), Ok(text("h1")));
    }
}

#[test]
fn set_leaves_other_objects_alone() {
    let (mut rt, proto) = runtime_with_node(AccessorMode::Native);
    let a = rt.construct(proto, &node_args("a", "va", "ca", vec![])).unwrap();
    let b = rt.construct(proto, &node_args("b", "vb", "cb", vec![a])).unwrap();
    assert_eq!(rt.set(a, "node_value", &text("changed")), Ok(()));
    assert_eq!(rt.get(b, "node_value"), Ok(text("vb")));
    assert_eq!(rt.get(b, "text_content"), Ok(text("cb")));
    assert_eq!(rt.get(a, "node_name"), Ok(text("a")));
    assert_eq!(rt.get(a, "text_content"), Ok(text("ca")));
}

#[test]
fn read_only_properties_reject_assignment() {
    let (mut rt, proto) = runtime_with_node(AccessorMode::Native);
    let node = rt.construct(proto, &node_args("Node", "n", "h1", vec![])).unwrap();
    assert_eq!(rt.set(node, "node_type", &Value::Number(2)), Err(PropertyAccessError::Immutable));
    assert_eq!(rt.get(node, "node_type"), Ok(Value::Number(1)));
    for name in ["node_name", "base_uri", "is_connected", "child_nodes"] {
        assert_eq!(rt.set(node, name, &text("x")), Err(PropertyAccessError::Immutable));
    }
    assert_eq!(rt.get(node, "node_name"), Ok(text("Node")));
    assert_eq!(rt.get(node, "child_nodes"), Ok(Value::Array(vec![])));
}

#[test]
fn set_checks_the_type_of_the_value() {
    let (mut rt, proto) = runtime_with_node(AccessorMode::Native);
    let node = rt.construct(proto, &node_args("Node", "n", "h1", vec![])).unwrap();
    assert_eq!(
        rt.set(node, "node_value", &Value::Number(3)),
        Err(PropertyAccessError::TypeConversion)
    );
    assert_eq!(rt.get(node, "node_value"), Ok(text("n")));
}

#[test]
fn prototype_object_has_no_record() {
    let (mut rt, proto) = runtime_with_node(AccessorMode::Native);
    assert_eq!(rt.get(proto, "node_type"), Err(PropertyAccessError::Unbound));
    assert_eq!(rt.set(proto, "node_value", &text("x")), Err(PropertyAccessError::Unbound));
    assert_eq!(rt.set(proto, "node_type", &Value::Number(1)), Err(PropertyAccessError::Immutable));
    assert_eq!(rt.prototype_of(proto), None);
    assert!(!rt.instance_of(proto, proto));
}

#[test]
fn unknown_objects_and_properties() {
    let (mut rt, proto) = runtime_with_node(AccessorMode::Native);
    let node = rt.construct(proto, &node_args("Node", "n", "h1", vec![])).unwrap();
    assert_eq!(rt.object_count(), 2);
    assert_eq!(rt.get(node + 1, "node_type"), Err(PropertyAccessError::NoSuchObject));
    assert_eq!(rt.set(node + 1, "node_value", &text("x")), Err(PropertyAccessError::NoSuchObject));
    assert_eq!(rt.get(node, "nodeType"), Err(PropertyAccessError::NoSuchProperty));
    assert_eq!(rt.set(node, "", &text("x")), Err(PropertyAccessError::NoSuchProperty));
    assert_eq!(rt.prototype_of(node + 1), None);
    assert!(!rt.instance_of(node + 1, proto));
    assert!(!rt.instance_of(node, node));
}

#[test]
fn construction_checks_the_argument_count() {
    let (mut rt, proto) = runtime_with_node(AccessorMode::Native);
    let mut args = node_args("Node", "n", "h1", vec![]);
    args.pop();
    assert_eq!(
        rt.construct(proto, &args),
        Err(ConstructionError::ArgumentCount { expected: 7, found: 6 })
    );
    assert_eq!(
        rt.construct(proto, &vec![]),
        Err(ConstructionError::ArgumentCount { expected: 7, found: 0 })
    );
    let mut args = node_args("Node", "n", "h1", vec![]);
    args.push(Value::Null);
    assert_eq!(
        rt.construct(proto, &args),
        Err(ConstructionError::ArgumentCount { expected: 7, found: 8 })
    );
    assert_eq!(rt.object_count(), 1);
}

#[test]
fn construction_reports_the_first_argument_that_does_not_convert() {
    let (mut rt, proto) = runtime_with_node(AccessorMode::Native);
    let mut args = node_args("Node", "n", "h1", vec![]);
    args[0] = text("1");
    args[3] = Value::Number(0);
    assert_eq!(rt.construct(proto, &args), Err(ConstructionError::TypeConversion { index: 0 }));
    args[0] = Value::Number(1);
    assert_eq!(rt.construct(proto, &args), Err(ConstructionError::TypeConversion { index: 3 }));
    args[3] = Value::Boolean(true);
    args[6] = Value::Array(vec![Value::Object(proto)]);
    assert_eq!(rt.construct(proto, &args), Err(ConstructionError::TypeConversion { index: 6 }));
    args[6] = Value::Array(vec![Value::Object(99)]);
    assert_eq!(rt.construct(proto, &args), Err(ConstructionError::TypeConversion { index: 6 }));
    args[6] = Value::Array(vec![Value::Number(1)]);
    assert_eq!(rt.construct(proto, &args), Err(ConstructionError::TypeConversion { index: 6 }));
    args[6] = Value::Null;
    assert_eq!(rt.construct(proto, &args), Err(ConstructionError::TypeConversion { index: 6 }));
    assert_eq!(rt.object_count(), 1);
    args[6] = Value::Array(vec![]);
    assert_eq!(rt.construct(proto, &args), Ok(1));
    assert_eq!(rt.get(1, "is_connected"), Ok(Value::Boolean(true)));
}

#[test]
fn only_prototypes_construct() {
    let (mut rt, proto) = runtime_with_node(AccessorMode::Native);
    let node = rt.construct(proto, &node_args("Node", "n", "h1", vec![])).unwrap();
    assert_eq!(
        rt.construct(node, &node_args("Node", "n", "h1", vec![])),
        Err(ConstructionError::NotAConstructor)
    );
    assert_eq!(rt.construct(77, &vec![]), Err(ConstructionError::NotAConstructor));
    assert_eq!(rt.object_count(), 2);
}
