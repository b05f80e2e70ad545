use js::builder::{class_descriptor, define_accessors, property_table, register, ClassDecl, Member};
use js::class::{duplicate_fields, ClassDescriptor, ClassRef, FieldKind, FieldValue};
use js::error::{ConstructionError, PropertyAccessError, RegistrationError};
use js::magicdom::attr::attr_decl;
use js::magicdom::dompoint::dompoint_decl;
use js::magicdom::domquad::{domquad_decl, domquad_ps_arr};
use js::magicdom::element::{element_decl, element_fn_arr};
use js::magicdom::htmlelement::htmlelement_decl;
use js::magicdom::node::node_decl;
use js::method::{check_methods, Method, MethodSpec};
use js::property::{
    find_end, Accessor, AccessorMode, PropertySpec, JSPROP_ENUMERATE, JSPROP_PERMANENT,
    JSPROP_READONLY,
};
use js::runtime::Runtime;
use js::value::Value;

const GET_ATTRIBUTES: usize = 7;

fn text(s: &str) -> Value {
    Value::Text(s.to_string())
}

struct Dom {
    rt: Runtime,
    node: usize,
    attr: usize,
    element: usize,
    html_element: usize,
}

fn dom(mode: AccessorMode) -> Dom {
    let mut rt = Runtime::new();
    let node = register(&mut rt, None, &node_decl(), mode).unwrap();
    let attr = register(&mut rt, Some(node), &attr_decl(), mode).unwrap();
    let decl = element_decl(attr, GET_ATTRIBUTES);
    let element = register(&mut rt, Some(node), &decl, mode).unwrap();
    let html_element = register(&mut rt, Some(element), &htmlelement_decl(), mode).unwrap();
    Dom { rt, node, attr, element, html_element }
}

fn node_part(name: &str, uri: &str) -> Vec<Value> {
    vec![
        Value::Number(1),
        text(name),
        text(uri),
        Value::Boolean(false),
        text("n"),
        text("h1"),
        Value::Array(vec![]),
    ]
}

fn attr_args(name: &str, uri: &str, tail: [&str; 5]) -> Vec<Value> {
    let mut args = node_part(name, uri);
    args.extend(tail.iter().map(|s| text(s)));
    args
}

fn html_element_args(name: &str, uri: &str, attrs: Vec<usize>) -> Vec<Value> {
    let mut args = node_part(name, uri);
    args.extend(["la", "a", "l", "pp", "foo"].iter().map(|s| text(s)));
    args.push(Value::Array(attrs.into_iter().map(Value::Object).collect()));
    args.extend(vec![
        text("title123"),
        text("en"),
        Value::Boolean(false),
        text("dir12345"),
        Value::Boolean(false),
        Value::Number(1),
        text("ackeylab"),
        text("ackeylab"),
        Value::Boolean(false),
        Value::Boolean(false),
    ]);
    args
}

fn check_html_element(mode: AccessorMode) {
    let mut d = dom(mode);
    assert_eq!(d.rt.record_len(d.node), Some(7));
    assert_eq!(d.rt.record_len(d.attr), Some(12));
    assert_eq!(d.rt.record_len(d.element), Some(13));
    assert_eq!(d.rt.record_len(d.html_element), Some(23));
    let args = attr_args("Node", "mozilla/en", ["la", "a", "l", "p", "f"]);
    let attr1 = d.rt.construct(d.attr, &args).unwrap();
    let args = attr_args("Node2", "mozilla/en", ["lb", "b", "l", "p", "b"]);
    let attr2 = d.rt.construct(d.attr, &args).unwrap();
    let element = d
        .rt
        .construct(d.html_element, &html_element_args("Node", "mozilla/en", vec![attr1, attr2]))
        .unwrap();
    assert_eq!(d.rt.get(element, "node_name"), Ok(text("Node")));
    assert_eq!(d.rt.get(element, "local_name"), Ok(text("la")));
    assert_eq!(d.rt.get(element, "tag_name"), Ok(text("a")));
    assert_eq!(d.rt.get(element, "namespace"), Ok(text("l")));
    assert_eq!(d.rt.get(element, "prefix"), Ok(text("pp")));
    assert_eq!(d.rt.get(element, "id"), Ok(text("foo")));
    let copies = d.rt.object_count();
    assert_eq!(
        d.rt.get(element, "attrs"),
        Ok(Value::Array(vec![Value::Object(copies), Value::Object(copies + 1)]))
    );
    assert_eq!(d.rt.get(copies, "local_name"), Ok(text("la")));
    assert_eq!(d.rt.get(copies + 1, "local_name"), Ok(text("lb")));
    assert_eq!(d.rt.get(copies + 1, "node_name"), Ok(text("Node2")));
    assert_eq!(d.rt.prototype_of(copies), Some(d.attr));
    assert_eq!(d.rt.get(element, "title"), Ok(text("title123")));
    assert_eq!(d.rt.get(element, "lang"), Ok(text("en")));
    assert_eq!(d.rt.get(element, "translate"), Ok(Value::Boolean(false)));
    assert_eq!(d.rt.get(element, "dir"), Ok(text("dir12345")));
    assert_eq!(d.rt.get(element, "hidden"), Ok(Value::Boolean(false)));
    assert_eq!(d.rt.get(element, "tab_index"), Ok(Value::Number(1)));
    assert_eq!(d.rt.get(element, "access_key"), Ok(text("ackeylab")));
    assert_eq!(d.rt.get(element, "access_key_label"), Ok(text("ackeylab")));
    assert_eq!(d.rt.get(element, "draggable"), Ok(Value::Boolean(false)));
    assert_eq!(d.rt.get(element, "spellcheck"), Ok(Value::Boolean(false)));
    assert_eq!(d.rt.get(attr2, "local_name"), Ok(text("lb")));
    assert_eq!(d.rt.get(attr2, "name"), Ok(text("b")));
    assert_eq!(d.rt.get(attr2, "namespace"), Ok(text("l")));
    assert_eq!(d.rt.get(attr2, "prefix"), Ok(text("p")));
    assert_eq!(d.rt.get(attr2, "value"), Ok(text("b")));
    assert_eq!(d.rt.get(attr2, "node_name"), Ok(text("Node2")));
    assert_eq!(d.rt.get(attr1, "title"), Err(PropertyAccessError::NoSuchProperty));
    assert_eq!(d.rt.set(element, "node_value", &text("v")), Ok(()));
    assert_eq!(d.rt.get(element, "node_value"), Ok(text("v")));
    assert_eq!(d.rt.set(element, "title", &text("t")), Err(PropertyAccessError::Immutable));
}

#[test]
fn html_element_inherits_fields_and_properties() {
    check_html_element(AccessorMode::Native);
}

#[test]
fn html_element_inherits_fields_and_properties_self_hosted() {
    check_html_element(AccessorMode::SelfHosted);
}

#[test]
fn instances_are_instances_of_every_ancestor() {
    let mut d = dom(AccessorMode::Native);
    let html = d.rt.construct(d.html_element, &html_element_args("e", "u", vec![])).unwrap();
    let attr = d.rt.construct(d.attr, &attr_args("a", "u", ["la", "a", "l", "p", "f"])).unwrap();
    let node = d.rt.construct(d.node, &node_part("n", "u")).unwrap();
    assert!(d.rt.instance_of(html, d.html_element));
    assert!(d.rt.instance_of(html, d.element));
    assert!(d.rt.instance_of(html, d.node));
    assert!(!d.rt.instance_of(html, d.attr));
    assert!(d.rt.instance_of(attr, d.attr));
    assert!(d.rt.instance_of(attr, d.node));
    assert!(!d.rt.instance_of(attr, d.element));
    assert!(d.rt.instance_of(node, d.node));
    assert!(!d.rt.instance_of(node, d.element));
    assert!(!d.rt.instance_of(node, d.html_element));
}

#[test]
fn prototype_chain_follows_the_declared_parents() {
    let mut d = dom(AccessorMode::Native);
    let html = d.rt.construct(d.html_element, &html_element_args("e", "u", vec![])).unwrap();
    assert_eq!(d.rt.prototype_of(html), Some(d.html_element));
    assert_eq!(d.rt.prototype_of(d.html_element), Some(d.element));
    assert_eq!(d.rt.prototype_of(d.element), Some(d.node));
    assert_eq!(d.rt.prototype_of(d.attr), Some(d.node));
    assert_eq!(d.rt.prototype_of(d.node), None);
    assert!(d.rt.instance_of(d.html_element, d.element));
    assert!(d.rt.instance_of(d.html_element, d.node));
    assert!(!d.rt.instance_of(d.html_element, d.html_element));
    assert_eq!(d.rt.get(d.html_element, "node_name"), Err(PropertyAccessError::Unbound));
}

#[test]
fn children_of_a_derived_class_are_nodes() {
    let mut d = dom(AccessorMode::Native);
    let html = d.rt.construct(d.html_element, &html_element_args("e", "u", vec![])).unwrap();
    let mut args = node_part("parent", "u");
    args[6] = Value::Array(vec![Value::Object(html)]);
    let parent = d.rt.construct(d.node, &args).unwrap();
    let held = parent + 1;
    assert_eq!(d.rt.get(parent, "child_nodes"), Ok(Value::Array(vec![Value::Object(held)])));
    assert_eq!(d.rt.prototype_of(held), Some(d.node));
    assert!(!d.rt.instance_of(held, d.html_element));
    assert_eq!(d.rt.get(held, "node_name"), Ok(text("e")));
    assert_eq!(d.rt.get(held, "title"), Err(PropertyAccessError::NoSuchProperty));
    assert_eq!(d.rt.get(html, "title"), Ok(text("title123")));
    let node = d.rt.construct(d.node, &node_part("n", "u")).unwrap();
    let bad = html_element_args("e", "u", vec![node]);
    assert_eq!(
        d.rt.construct(d.html_element, &bad),
        Err(ConstructionError::TypeConversion { index: 12 })
    );
}

fn check_dom_quad(mode: AccessorMode) {
    let mut rt = Runtime::new();
    let point = register(&mut rt, None, &dompoint_decl(), mode).unwrap();
    let quad = register(&mut rt, None, &domquad_decl(point), mode).unwrap();
    let mut points = Vec::new();
    for i in 0..4 {
        let args = vec![
            Value::Number(i),
            Value::Number(-i),
            Value::Number(10 * i),
            Value::Number(1),
        ];
        points.push(rt.construct(point, &args).unwrap());
    }
    let args: Vec<Value> = points.iter().map(|p| Value::Object(*p)).collect();
    let q = rt.construct(quad, &args).unwrap();
    for (i, name) in ["p1", "p2", "p3", "p4"].iter().enumerate() {
        let made = rt.object_count();
        assert_eq!(rt.get(q, name), Ok(Value::Object(made)));
        assert_eq!(rt.object_count(), made + 1);
        assert_eq!(rt.prototype_of(made), Some(point));
        let i = i as i32;
        assert_eq!(rt.get(made, "x"), Ok(Value::Number(i)));
        assert_eq!(rt.get(made, "y"), Ok(Value::Number(-i)));
        assert_eq!(rt.get(made, "z"), Ok(Value::Number(10 * i)));
        assert_eq!(rt.get(made, "w"), Ok(Value::Number(1)));
    }
    assert_eq!(rt.get(points[2], "x"), Ok(Value::Number(2)));
    assert_eq!(rt.set(q, "p1", &Value::Object(points[1])), Err(PropertyAccessError::Immutable));
    let bad = vec![
        Value::Object(points[0]),
        Value::Object(q),
        Value::Object(points[2]),
        Value::Object(points[3]),
    ];
    assert_eq!(rt.construct(quad, &bad), Err(ConstructionError::TypeConversion { index: 1 }));
    let bad = vec![Value::Object(points[0]), Value::Object(points[1]), Value::Object(points[2])];
    assert_eq!(
        rt.construct(quad, &bad),
        Err(ConstructionError::ArgumentCount { expected: 4, found: 3 })
    );
}

#[test]
fn dom_quad_holds_its_points() {
    check_dom_quad(AccessorMode::Native);
}

#[test]
fn dom_quad_holds_its_points_self_hosted() {
    check_dom_quad(AccessorMode::SelfHosted);
}

#[test]
fn dom_quad_table_has_four_getters_and_an_end() {
    let flags = JSPROP_ENUMERATE | JSPROP_PERMANENT;
    assert_eq!(flags, 5);
    assert_eq!(JSPROP_READONLY, 2);
    assert_eq!(
        domquad_ps_arr(AccessorMode::Native),
        vec![
            PropertySpec::getter("p1", flags, 0),
            PropertySpec::getter("p2", flags, 1),
            PropertySpec::getter("p3", flags, 2),
            PropertySpec::getter("p4", flags, 3),
            PropertySpec::end_spec(),
        ]
    );
    assert_eq!(
        domquad_ps_arr(AccessorMode::SelfHosted),
        vec![
            PropertySpec::getter_selfhosted("p1", flags, "DOMQuad_get_p1"),
            PropertySpec::getter_selfhosted("p2", flags, "DOMQuad_get_p2"),
            PropertySpec::getter_selfhosted("p3", flags, "DOMQuad_get_p3"),
            PropertySpec::getter_selfhosted("p4", flags, "DOMQuad_get_p4"),
            PropertySpec::end_spec(),
        ]
    );
    for mode in [AccessorMode::Native, AccessorMode::SelfHosted] {
        assert_eq!(property_table(&domquad_decl(0), 0, mode), domquad_ps_arr(mode));
    }
}

#[test]
fn built_tables_name_their_accessors() {
    let decl = node_decl();
    let table = property_table(&decl, 3, AccessorMode::SelfHosted);
    assert_eq!(table.len(), 8);
    assert_eq!(
        table[0],
        PropertySpec {
            name: "node_type".to_string(),
            flags: 5,
            accessor: Accessor::SelfHostedGetter("Node_get_node_type".to_string()),
        }
    );
    assert_eq!(
        table[4],
        PropertySpec {
            name: "node_value".to_string(),
            flags: 5,
            accessor: Accessor::SelfHostedGetterSetter(
                "Node_get_node_value".to_string(),
                "Node_set_node_value".to_string(),
            ),
        }
    );
    assert!(table[7].is_end());
    let table = property_table(&decl, 3, AccessorMode::Native);
    assert_eq!(table[0].accessor, Accessor::NativeGetter(3));
    assert_eq!(table[4].accessor, Accessor::NativeGetterSetter(7));
    assert_eq!(table[6].accessor, Accessor::NativeGetter(9));
    let descriptor = class_descriptor(&decl, 0, AccessorMode::Native);
    assert_eq!(descriptor.class_name, "Node");
    assert_eq!(descriptor.fields.len(), 7);
    assert_eq!(descriptor.fields[0], FieldKind::Int);
    assert_eq!(descriptor.fields[6], FieldKind::ObjectList(ClassRef::Itself));
    assert_eq!(descriptor.properties, property_table(&decl, 0, AccessorMode::Native));
}

fn one_field(properties: Vec<PropertySpec>) -> ClassDescriptor {
    ClassDescriptor {
        class_name: "C".to_string(),
        fields: vec![FieldKind::Text],
        properties,
        methods: None,
    }
}

#[test]
fn registration_rejects_a_table_without_end() {
    let mut rt = Runtime::new();
    let d = one_field(vec![PropertySpec::getter("a", 0, 0)]);
    assert_eq!(rt.register_class(None, &d), Err(RegistrationError::MissingSentinel));
    let d = one_field(vec![]);
    assert_eq!(rt.register_class(None, &d), Err(RegistrationError::MissingSentinel));
    assert_eq!(rt.object_count(), 0);
}

#[test]
fn registration_rejects_duplicate_names() {
    let mut rt = Runtime::new();
    let d = one_field(vec![
        PropertySpec::getter("a", 0, 0),
        PropertySpec::getter("b", 0, 0),
        PropertySpec::getter_setter("a", 0, 0),
        PropertySpec::end_spec(),
    ]);
    assert_eq!(rt.register_class(None, &d), Err(RegistrationError::DuplicateProperty));
    assert_eq!(rt.object_count(), 0);
}

#[test]
fn registration_rejects_malformed_entries() {
    let mut rt = Runtime::new();
    let d = one_field(vec![PropertySpec::getter("", 0, 0), PropertySpec::end_spec()]);
    assert_eq!(rt.register_class(None, &d), Err(RegistrationError::MalformedEntry));
    let half = PropertySpec { name: "a".to_string(), flags: 0, accessor: Accessor::Absent };
    let d = one_field(vec![half, PropertySpec::end_spec()]);
    assert_eq!(rt.register_class(None, &d), Err(RegistrationError::MalformedEntry));
    let flagged = PropertySpec { name: String::new(), flags: 1, accessor: Accessor::Absent };
    let d = one_field(vec![flagged, PropertySpec::end_spec()]);
    assert_eq!(rt.register_class(None, &d), Err(RegistrationError::MalformedEntry));
}

#[test]
fn registration_rejects_a_bad_parent() {
    let mut rt = Runtime::new();
    let d = one_field(vec![PropertySpec::end_spec()]);
    assert_eq!(rt.register_class(Some(0), &d), Err(RegistrationError::BadParent));
    let proto = rt.register_class(None, &d).unwrap();
    let object = rt.construct(proto, &vec![text("x")]).unwrap();
    assert_eq!(rt.register_class(Some(object), &d), Err(RegistrationError::BadParent));
    assert_eq!(register(&mut rt, Some(object), &node_decl(), AccessorMode::Native),
        Err(RegistrationError::BadParent));
}

#[test]
fn registration_rejects_unknown_classes() {
    let mut rt = Runtime::new();
    let d = ClassDescriptor {
        class_name: "C".to_string(),
        fields: vec![FieldKind::Int, FieldKind::Object(ClassRef::Prototype(5))],
        properties: vec![PropertySpec::end_spec()],
        methods: None,
    };
    assert_eq!(rt.register_class(None, &d), Err(RegistrationError::UnknownClass));
    assert_eq!(
        register(&mut rt, None, &element_decl(3, GET_ATTRIBUTES), AccessorMode::Native),
        Err(RegistrationError::UnknownClass)
    );
}

#[test]
fn registration_rejects_unresolved_accessors() {
    let mut rt = Runtime::new();
    let d = one_field(vec![PropertySpec::getter("a", 0, 1), PropertySpec::end_spec()]);
    assert_eq!(rt.register_class(None, &d), Err(RegistrationError::UnresolvedAccessor));
    let d = one_field(vec![
        PropertySpec::getter_selfhosted("a", 0, "C_get_a"),
        PropertySpec::end_spec(),
    ]);
    assert_eq!(rt.register_class(None, &d), Err(RegistrationError::UnresolvedAccessor));
    rt.define_self_hosted("C_get_a", 0, false);
    let proto = rt.register_class(None, &d).unwrap();
    let object = rt.construct(proto, &vec![text("x")]).unwrap();
    assert_eq!(rt.get(object, "a"), Ok(text("x")));
    assert_eq!(rt.set(object, "a", &text("y")), Err(PropertyAccessError::Immutable));
    let d = one_field(vec![
        PropertySpec::getter_setter_selfhosted("a", 0, "C_get_a", "C_set_a"),
        PropertySpec::end_spec(),
    ]);
    assert_eq!(rt.register_class(None, &d), Err(RegistrationError::UnresolvedAccessor));
    rt.define_self_hosted("C_set_a", 0, true);
    let proto = rt.register_class(None, &d).unwrap();
    let object = rt.construct(proto, &vec![text("x")]).unwrap();
    assert_eq!(rt.set(object, "a", &text("y")), Ok(()));
    assert_eq!(rt.get(object, "a"), Ok(text("y")));
}

#[test]
fn entries_behind_the_end_are_not_read() {
    let mut rt = Runtime::new();
    let d = one_field(vec![
        PropertySpec::getter("a", 0, 0),
        PropertySpec::end_spec(),
        PropertySpec::getter("a", 0, 9),
        PropertySpec::getter("b", 0, 0),
    ]);
    let proto = rt.register_class(None, &d).unwrap();
    let object = rt.construct(proto, &vec![text("x")]).unwrap();
    assert_eq!(rt.get(object, "a"), Ok(text("x")));
    assert_eq!(rt.get(object, "b"), Err(PropertyAccessError::NoSuchProperty));
    assert_eq!(find_end(&d.properties), Some(1));
    assert!(d.properties[0].is_entry());
    assert!(!d.properties[0].is_end());
    assert!(!d.properties[1].is_entry());
}

#[test]
fn a_class_can_shadow_a_property_of_its_parent() {
    let mut rt = Runtime::new();
    let base = one_field(vec![PropertySpec::getter_setter("a", 0, 0), PropertySpec::end_spec()]);
    let parent = rt.register_class(None, &base).unwrap();
    let derived = one_field(vec![PropertySpec::getter("a", 0, 1), PropertySpec::end_spec()]);
    let child = rt.register_class(Some(parent), &derived).unwrap();
    let object = rt.construct(child, &vec![text("first"), text("second")]).unwrap();
    assert_eq!(rt.get(object, "a"), Ok(text("second")));
    assert_eq!(rt.set(object, "a", &text("x")), Err(PropertyAccessError::Immutable));
    let plain = rt.construct(parent, &vec![text("first")]).unwrap();
    assert_eq!(rt.set(plain, "a", &text("x")), Ok(()));
    assert_eq!(rt.get(plain, "a"), Ok(text("x")));
}

#[test]
fn define_accessors_defines_what_the_table_names() {
    let mut rt = Runtime::new();
    let decl = ClassDecl {
        class_name: "Pair".to_string(),
        members: vec![
            Member::read_only("left", FieldKind::Int),
            Member::writable("right", FieldKind::Bool),
        ],
        methods: None,
    };
    let descriptor = class_descriptor(&decl, 0, AccessorMode::SelfHosted);
    assert_eq!(rt.register_class(None, &descriptor), Err(RegistrationError::UnresolvedAccessor));
    define_accessors(&mut rt, &decl, 0);
    let proto = rt.register_class(None, &descriptor).unwrap();
    let pair = rt.construct(proto, &vec![Value::Number(4), Value::Boolean(true)]).unwrap();
    assert_eq!(rt.get(pair, "left"), Ok(Value::Number(4)));
    assert_eq!(rt.set(pair, "right", &Value::Boolean(false)), Ok(()));
    assert_eq!(rt.get(pair, "right"), Ok(Value::Boolean(false)));
    assert_eq!(rt.set(pair, "left", &Value::Number(5)), Err(PropertyAccessError::Immutable));
}

#[test]
fn fields_are_copied_with_what_they_hold() {
    let record = || {
        vec![
            FieldValue::Int(-3),
            FieldValue::Bool(true),
            FieldValue::Text("t".to_string()),
            FieldValue::Object(vec![FieldValue::Int(1)]),
            FieldValue::ObjectList(vec![
                FieldValue::Object(vec![FieldValue::Text("a".to_string())]),
                FieldValue::Object(vec![]),
            ]),
        ]
    };
    assert_eq!(FieldValue::Object(record()).duplicate(), FieldValue::Object(record()));
    assert_eq!(duplicate_fields(&record(), 5), record());
    assert_eq!(duplicate_fields(&record(), 2), vec![FieldValue::Int(-3), FieldValue::Bool(true)]);
    assert_eq!(duplicate_fields(&record(), 0), vec![]);
    assert_eq!(duplicate_fields(&record(), 9), record());
}

fn get_attributes() -> Method {
    Method { name: "getAttributes".to_string(), nargs: 1, native: GET_ATTRIBUTES }
}

#[test]
fn elements_have_the_method_get_attributes() {
    let mut d = dom(AccessorMode::Native);
    let html = d.rt.construct(d.html_element, &html_element_args("e", "u", vec![])).unwrap();
    let attr = d.rt.construct(d.attr, &attr_args("a", "u", ["la", "a", "l", "p", "f"])).unwrap();
    assert_eq!(d.rt.method(html, "getAttributes"), Ok(get_attributes()));
    assert_eq!(d.rt.method(html, "get_attributes"), Err(PropertyAccessError::NoSuchProperty));
    assert_eq!(d.rt.method(html, "node_name"), Err(PropertyAccessError::NoSuchProperty));
    assert_eq!(d.rt.method(attr, "getAttributes"), Err(PropertyAccessError::NoSuchProperty));
    assert_eq!(d.rt.method(d.element, "getAttributes"), Err(PropertyAccessError::Unbound));
    assert_eq!(d.rt.method(d.html_element, "getAttributes"), Err(PropertyAccessError::Unbound));
    assert_eq!(d.rt.method(d.node, "getAttributes"), Err(PropertyAccessError::NoSuchProperty));
    assert_eq!(d.rt.method(html + 9, "getAttributes"), Err(PropertyAccessError::NoSuchObject));
    assert_eq!(d.rt.get(html, "getAttributes"), Err(PropertyAccessError::NoSuchProperty));
}

#[test]
fn element_method_table_has_one_method_and_an_end() {
    assert_eq!(
        element_fn_arr(3),
        vec![MethodSpec::function("getAttributes", 3, 1), MethodSpec::end_spec()]
    );
    let table = element_fn_arr(3);
    assert!(table[0].is_entry());
    assert!(!table[0].is_end());
    assert!(table[1].is_end());
    assert!(!table[1].is_entry());
    assert_eq!(table[0].duplicate(), table[0]);
    assert_eq!(get_attributes().duplicate(), get_attributes());
    assert_eq!(
        check_methods(&Some(table)),
        Ok(vec![Method { name: "getAttributes".to_string(), nargs: 1, native: 3 }])
    );
    assert_eq!(check_methods(&None), Ok(vec![]));
    assert_eq!(check_methods(&Some(vec![MethodSpec::end_spec()])), Ok(vec![]));
}

fn with_methods(methods: Vec<MethodSpec>) -> ClassDescriptor {
    ClassDescriptor {
        class_name: "C".to_string(),
        fields: vec![],
        properties: vec![PropertySpec::end_spec()],
        methods: Some(methods),
    }
}

#[test]
fn registration_rejects_bad_method_tables() {
    let mut rt = Runtime::new();
    let d = with_methods(vec![MethodSpec::function("f", 0, 0)]);
    assert_eq!(rt.register_class(None, &d), Err(RegistrationError::MissingSentinel));
    let d = with_methods(vec![]);
    assert_eq!(rt.register_class(None, &d), Err(RegistrationError::MissingSentinel));
    let d = with_methods(vec![MethodSpec::function("", 0, 0), MethodSpec::end_spec()]);
    assert_eq!(rt.register_class(None, &d), Err(RegistrationError::MalformedEntry));
    let nameless = MethodSpec { name: String::new(), nargs: 2, native: None };
    let d = with_methods(vec![nameless, MethodSpec::end_spec()]);
    assert_eq!(rt.register_class(None, &d), Err(RegistrationError::MalformedEntry));
    let unbacked = MethodSpec { name: "f".to_string(), nargs: 0, native: None };
    let d = with_methods(vec![unbacked, MethodSpec::end_spec()]);
    assert_eq!(rt.register_class(None, &d), Err(RegistrationError::MalformedEntry));
    let d = with_methods(vec![
        MethodSpec::function("f", 0, 0),
        MethodSpec::function("g", 1, 0),
        MethodSpec::function("f", 2, 0),
        MethodSpec::end_spec(),
    ]);
    assert_eq!(rt.register_class(None, &d), Err(RegistrationError::DuplicateMethod));
    assert_eq!(rt.object_count(), 0);
    let mut d = with_methods(vec![MethodSpec::function("f", 0, 0)]);
    d.properties = vec![];
    assert_eq!(rt.register_class(None, &d), Err(RegistrationError::MissingSentinel));
}

#[test]
fn the_nearest_class_answers_a_method() {
    let mut rt = Runtime::new();
    let base = with_methods(vec![
        MethodSpec::function("f", 10, 1),
        MethodSpec::function("g", 11, 2),
        MethodSpec::end_spec(),
        MethodSpec::function("h", 12, 3),
    ]);
    let parent = rt.register_class(None, &base).unwrap();
    let derived = with_methods(vec![MethodSpec::function("g", 20, 0), MethodSpec::end_spec()]);
    let child = rt.register_class(Some(parent), &derived).unwrap();
    let object = rt.construct(child, &vec![]).unwrap();
    let plain = rt.construct(parent, &vec![]).unwrap();
    let method = |name: &str, native, nargs| Method { name: name.to_string(), nargs, native };
    assert_eq!(rt.method(object, "f"), Ok(method("f", 10, 1)));
    assert_eq!(rt.method(object, "g"), Ok(method("g", 20, 0)));
    assert_eq!(rt.method(plain, "g"), Ok(method("g", 11, 2)));
    assert_eq!(rt.method(object, "h"), Err(PropertyAccessError::NoSuchProperty));
}

#[test]
fn assigning_an_object_stores_a_copy_of_its_record() {
    let mut rt = Runtime::new();
    let point = register(&mut rt, None, &dompoint_decl(), AccessorMode::Native).unwrap();
    let holder = ClassDescriptor {
        class_name: "Holder".to_string(),
        fields: vec![FieldKind::Object(ClassRef::Prototype(point))],
        properties: vec![PropertySpec::getter_setter("p", 0, 0), PropertySpec::end_spec()],
        methods: None,
    };
    let holder = rt.register_class(None, &holder).unwrap();
    let coordinates = |x: i32| {
        vec![Value::Number(x), Value::Number(0), Value::Number(0), Value::Number(1)]
    };
    let first = rt.construct(point, &coordinates(1)).unwrap();
    let second = rt.construct(point, &coordinates(2)).unwrap();
    let h = rt.construct(holder, &vec![Value::Object(first)]).unwrap();
    assert_eq!(rt.set(h, "p", &Value::Object(second)), Ok(()));
    let made = rt.object_count();
    assert_eq!(rt.get(h, "p"), Ok(Value::Object(made)));
    assert_eq!(rt.get(made, "x"), Ok(Value::Number(2)));
    assert_eq!(rt.set(h, "p", &Value::Object(h)), Err(PropertyAccessError::TypeConversion));
    assert_eq!(rt.set(h, "p", &Value::Object(point)), Err(PropertyAccessError::TypeConversion));
    assert_eq!(rt.set(h, "p", &Value::Number(1)), Err(PropertyAccessError::TypeConversion));
    assert_eq!(rt.get(h, "p"), Ok(Value::Object(made + 1)));
    assert_eq!(rt.get(made + 1, "x"), Ok(Value::Number(2)));
    assert_eq!(rt.get(first, "x"), Ok(Value::Number(1)));
}
