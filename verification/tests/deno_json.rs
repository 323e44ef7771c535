use edge_runtime::deno_json::{
    check_warn_tsconfig, deno_json_deps, imports_values, json_get, scope_values, value_to_dep_req,
    values_to_set, ConfigJson, JsonValue, PackageKind, TsConfigForEmit, TsConfigWarning,
};

fn s(v: &str) -> JsonValue {
    JsonValue::String(v.to_string())
}

fn obj(entries: Vec<(&str, JsonValue)>) -> JsonValue {
    JsonValue::Object(entries.into_iter().map(|(k, v)| (k.to_string(), v)).collect())
}

#[test]
fn jsr_and_npm_specifiers_parse() {
    let jsr = value_to_dep_req("jsr:@std/path@^1.0.0").unwrap();
    assert_eq!(jsr.kind, PackageKind::Jsr);
    assert_eq!(jsr.name, "@std/path");
    assert_eq!(jsr.version_req, "^1.0.0");
    let npm = value_to_dep_req("npm:react@18").unwrap();
    assert_eq!(npm.kind, PackageKind::Npm);
    assert_eq!(npm.name, "react");
    assert_eq!(npm.version_req, "18");
    let sub = value_to_dep_req("npm:preact@10/jsx-runtime").unwrap();
    assert_eq!(sub.name, "preact");
    assert!(value_to_dep_req("https://deno.land/x/mod.ts").is_none());
    assert!(value_to_dep_req("./local.ts").is_none());
}

#[test]
fn imports_keep_strings_only() {
    let imports = obj(vec![("a", s("npm:a@1")), ("b", JsonValue::Number), ("c", s("./c.ts"))]);
    assert_eq!(imports_values(Some(&imports)), vec!["npm:a@1".to_string(), "./c.ts".to_string()]);
    assert!(imports_values(Some(&s("npm:a@1"))).is_empty());
    assert!(imports_values(None).is_empty());
}

#[test]
fn scopes_flatten_nested_objects() {
    let scopes = obj(vec![
        ("https://x/", obj(vec![("a", s("npm:a@1"))])),
        ("https://y/", s("ignored")),
        ("https://z/", obj(vec![("b", s("jsr:@b/b@2")), ("c", JsonValue::Null)])),
    ]);
    assert_eq!(
        scope_values(Some(&scopes)),
        vec!["npm:a@1".to_string(), "jsr:@b/b@2".to_string()]
    );
}

#[test]
fn values_to_set_drops_duplicates() {
    let values = vec![
        "npm:a@1".to_string(),
        "npm:a@1".to_string(),
        "./x.ts".to_string(),
        "jsr:@b/b@2".to_string(),
    ];
    let set = values_to_set(&values);
    assert_eq!(set.len(), 2);
    assert_eq!(set[0].name, "a");
    assert_eq!(set[1].name, "@b/b");
}

#[test]
fn same_name_different_registry_both_kept() {
    let values = vec!["npm:@a/a@1".to_string(), "jsr:@a/a@1".to_string()];
    let set = values_to_set(&values);
    assert_eq!(set.len(), 2);
    assert_eq!(set[0].kind, PackageKind::Npm);
    assert_eq!(set[1].kind, PackageKind::Jsr);
}

#[test]
fn deno_json_deps_collects_all_sources() {
    let config = ConfigJson {
        imports: Some(obj(vec![("a", s("npm:a@1")), ("b", s("jsr:@b/b@2"))])),
        scopes: Some(obj(vec![("s/", obj(vec![("c", s("npm:c@3")), ("a", s("npm:a@1"))]))])),
        compiler_options: Some(obj(vec![
            ("jsxImportSource", s("npm:preact@10")),
            ("jsxImportSourceTypes", s("npm:@types/preact@10")),
            ("types", JsonValue::Array(vec![s("npm:@types/node@20"), JsonValue::Bool(true)])),
        ])),
    };
    let deps = deno_json_deps(&config);
    let names: Vec<&str> = deps.iter().map(|d| d.name.as_str()).collect();
    assert_eq!(names, vec!["a", "@b/b", "c", "preact", "@types/preact", "@types/node"]);
}

#[test]
fn deno_json_deps_without_sections() {
    let config = ConfigJson { imports: None, scopes: None, compiler_options: Some(s("x")) };
    assert!(deno_json_deps(&config).is_empty());
}

#[test]
fn json_get_finds_first_entry() {
    let entries = vec![("k".to_string(), s("1")), ("k".to_string(), s("2"))];
    match json_get(&entries, "k") {
        Some(JsonValue::String(v)) => assert_eq!(v, "1"),
        _ => panic!("expected a string"),
    }
    assert!(json_get(&entries, "K").is_none());
}

#[test]
fn tsconfig_warnings() {
    let ts = TsConfigForEmit {
        ts_config: obj(vec![("experimentalDecorators", JsonValue::Bool(true))]),
        maybe_ignored_options: Some("Unsupported compiler options: lib".to_string()),
    };
    let w = check_warn_tsconfig(&ts);
    assert_eq!(w.len(), 2);
    assert!(matches!(&w[0], TsConfigWarning::IgnoredOptions(t) if t == "Unsupported compiler options: lib"));
    assert!(matches!(w[1], TsConfigWarning::ExperimentalDecoratorsDeprecated));

    let quiet = TsConfigForEmit {
        ts_config: obj(vec![("experimentalDecorators", JsonValue::Bool(false))]),
        maybe_ignored_options: None,
    };
    assert!(check_warn_tsconfig(&quiet).is_empty());

    let not_object = TsConfigForEmit { ts_config: JsonValue::Null, maybe_ignored_options: Some("x".into()) };
    assert_eq!(check_warn_tsconfig(&not_object).len(), 1);
}
