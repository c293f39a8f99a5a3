use vista_transforms::{
    create_client_reference, generate_hydration_script, generate_mount_id, reset_mount_counter,
    rsc_generate_mount_id, rsc_reset_mount_counter, serialize_value, JsonValue, MountIdCounter,
    SerializedValue,
};

fn s(x: &str) -> String {
    x.to_string()
}

#[test]
fn test_generate_mount_id() {
    let mut counter = MountIdCounter::new();
    reset_mount_counter(&mut counter);
    assert_eq!(generate_mount_id(&mut counter), "__vista_cc_0");
    assert_eq!(generate_mount_id(&mut counter), "__vista_cc_1");
    assert_eq!(generate_mount_id(&mut counter), "__vista_cc_2");
}

#[test]
fn test_serialize_value() {
    let json = JsonValue::Object(vec![
        (s("name"), JsonValue::String(s("test"))),
        (s("count"), JsonValue::Number(42f64.to_bits())),
        (s("active"), JsonValue::Bool(true)),
        (
            s("items"),
            JsonValue::Array(vec![
                JsonValue::Number(1f64.to_bits()),
                JsonValue::Number(2f64.to_bits()),
                JsonValue::Number(3f64.to_bits()),
            ]),
        ),
    ]);

    let serialized = serialize_value(&json);

    if let SerializedValue::Object(obj) = serialized {
        assert!(obj.iter().any(|(k, _)| k == "name"));
        assert!(obj.iter().any(|(k, _)| k == "count"));
    } else {
        panic!("Expected Object");
    }
}

#[test]
fn test_create_client_reference() {
    let mut counter = MountIdCounter::new();
    reset_mount_counter(&mut counter);

    let props = vec![(s("title"), SerializedValue::String(s("Hello")))];

    let ref_ = create_client_reference(
        &mut counter,
        "client:components/Button",
        "/_vista/static/chunks/button.js",
        props,
    );

    assert_eq!(ref_.id, "client:components/Button");
    assert_eq!(ref_.mount_id, "__vista_cc_0");
    assert_eq!(ref_.export_name, "default");
}

#[test]
fn mount_ids_restart_after_reset() {
    let mut counter = MountIdCounter::new();
    for i in 0..12 {
        assert_eq!(generate_mount_id(&mut counter), format!("__vista_cc_{}", i));
    }
    assert_eq!(counter.current(), 12);
    rsc_reset_mount_counter(&mut counter);
    assert_eq!(rsc_generate_mount_id(&mut counter), "__vista_cc_0");
    assert_eq!(rsc_generate_mount_id(&mut counter), "__vista_cc_1");
}

#[test]
fn reserved_prefixes_and_tags() {
    match serialize_value(&JsonValue::String(s("__DATE__:2024-01-01"))) {
        SerializedValue::Date(d) => assert_eq!(d, "2024-01-01"),
        other => panic!("{:?}", other),
    }
    match serialize_value(&JsonValue::String(s("__SYMBOL__:react.element"))) {
        SerializedValue::Symbol(d) => assert_eq!(d, "react.element"),
        other => panic!("{:?}", other),
    }
    match serialize_value(&JsonValue::String(s("plain"))) {
        SerializedValue::String(d) => assert_eq!(d, "plain"),
        other => panic!("{:?}", other),
    }
    let undefined = JsonValue::Object(vec![(s("__type"), JsonValue::String(s("undefined")))]);
    assert!(matches!(serialize_value(&undefined), SerializedValue::Undefined));
    let element = JsonValue::Object(vec![
        (s("id"), JsonValue::String(s("el-3"))),
        (s("__type"), JsonValue::String(s("ReactElement"))),
    ]);
    match serialize_value(&element) {
        SerializedValue::ReactElement { id } => assert_eq!(id, "el-3"),
        other => panic!("{:?}", other),
    }
    let function = JsonValue::Object(vec![
        (s("__type"), JsonValue::String(s("Function"))),
        (s("name"), JsonValue::String(s("onClick"))),
    ]);
    match serialize_value(&function) {
        SerializedValue::Function { name } => assert_eq!(name, "onClick"),
        other => panic!("{:?}", other),
    }
    let date = JsonValue::Object(vec![
        (s("__type"), JsonValue::String(s("Date"))),
        (s("value"), JsonValue::String(s("2020"))),
    ]);
    match serialize_value(&date) {
        SerializedValue::Date(d) => assert_eq!(d, "2020"),
        other => panic!("{:?}", other),
    }
}

#[test]
fn malformed_tags_stay_objects() {
    let no_value = JsonValue::Object(vec![(s("__type"), JsonValue::String(s("Date")))]);
    match serialize_value(&no_value) {
        SerializedValue::Object(fields) => assert_eq!(fields.len(), 1),
        other => panic!("{:?}", other),
    }
    let wrong_type = JsonValue::Object(vec![
        (s("__type"), JsonValue::String(s("Function"))),
        (s("name"), JsonValue::Number(1f64.to_bits())),
    ]);
    assert!(matches!(serialize_value(&wrong_type), SerializedValue::Object(_)));
    let unknown = JsonValue::Object(vec![(s("__type"), JsonValue::Bool(true))]);
    assert!(matches!(serialize_value(&unknown), SerializedValue::Object(_)));
}

#[test]
fn nested_values_keep_shape() {
    let v = JsonValue::Array(vec![
        JsonValue::Null,
        JsonValue::Bool(false),
        JsonValue::Number(2.5f64.to_bits()),
        JsonValue::Array(vec![JsonValue::String(s("__SYMBOL__:x"))]),
    ]);
    match serialize_value(&v) {
        SerializedValue::Array(items) => {
            assert_eq!(items.len(), 4);
            assert!(matches!(items[0], SerializedValue::Null));
            assert!(matches!(items[1], SerializedValue::Boolean(false)));
            match &items[2] {
                SerializedValue::Number(bits) => assert_eq!(f64::from_bits(*bits), 2.5),
                other => panic!("{:?}", other),
            }
            match &items[3] {
                SerializedValue::Array(inner) => {
                    assert!(matches!(&inner[0], SerializedValue::Symbol(x) if x == "x"))
                },
                other => panic!("{:?}", other),
            }
        },
        other => panic!("{:?}", other),
    }
}

#[test]
fn hydration_script_embeds_data() {
    let script = generate_hydration_script("{\"route\":\"/\"}", "[]", "b42");
    assert!(script.starts_with("\n<script>\n    window.__VISTA_RSC_DATA__ = {\"route\":\"/\"};\n"));
    assert!(script.contains("window.__VISTA_CLIENT_REFERENCES__ = [];"));
    assert!(script.contains("window.__VISTA_BUILD_ID__ = \"b42\";"));
    assert!(script.contains("async function hydrateAll() {"));
    assert!(script.contains("console.error('[Vista RSC] Hydration error:', ref.id, e);"));
    assert!(script.ends_with("</script>\n"));
}
