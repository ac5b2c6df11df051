use cli_agent::config_tree::{lay_document_over, lay_over, merge_tables, parse_document, ConfigValue};

fn leaf(s: &str) -> ConfigValue {
    ConfigValue::Leaf(s.to_string())
}

fn table(entries: Vec<(&str, ConfigValue)>) -> ConfigValue {
    ConfigValue::Table(entries.into_iter().map(|(k, v)| (k.to_string(), v)).collect())
}

fn entries(v: ConfigValue) -> Vec<(String, ConfigValue)> {
    match v {
        ConfigValue::Table(t) => t,
        ConfigValue::Leaf(l) => panic!("not a table: {l}"),
    }
}

fn get<'a>(t: &'a [(String, ConfigValue)], key: &str) -> &'a ConfigValue {
    &t.iter().find(|(k, _)| k == key).expect("key present").1
}

fn leaf_text(v: &ConfigValue) -> &str {
    match v {
        ConfigValue::Leaf(s) => s,
        ConfigValue::Table(_) => panic!("not a leaf"),
    }
}

fn defaults() -> Vec<(String, ConfigValue)> {
    entries(table(vec![
        (
            "provider",
            table(vec![
                ("name", leaf("\"anthropic\"")),
                ("model", leaf("\"m1\"")),
                ("max_tokens", leaf("4096")),
            ]),
        ),
        ("ui", table(vec![("banner", leaf("true"))])),
    ]))
}

#[test]
fn nested_tables_merge_key_by_key() {
    let mut base = defaults();
    let over = entries(table(vec![
        ("provider", table(vec![("model", leaf("\"m2\""))])),
        ("logging", table(vec![("level", leaf("\"debug\""))])),
    ]));
    merge_tables(&mut base, over);
    let provider = entries(table_clone(get(&base, "provider")));
    assert_eq!(leaf_text(get(&provider, "name")), "\"anthropic\"");
    assert_eq!(leaf_text(get(&provider, "model")), "\"m2\"");
    assert_eq!(leaf_text(get(&provider, "max_tokens")), "4096");
    let logging = entries(table_clone(get(&base, "logging")));
    assert_eq!(leaf_text(get(&logging, "level")), "\"debug\"");
    let ui = entries(table_clone(get(&base, "ui")));
    assert_eq!(leaf_text(get(&ui, "banner")), "true");
    assert_eq!(base.len(), 3);
    assert_eq!(base[2].0, "logging");
}

#[test]
fn plain_value_replaces_table_and_table_replaces_plain_value() {
    let mut base = defaults();
    let over = entries(table(vec![("ui", leaf("false")), ("extra", leaf("1"))]));
    merge_tables(&mut base, over);
    assert_eq!(leaf_text(get(&base, "ui")), "false");

    let mut base2 = entries(table(vec![("ui", leaf("false"))]));
    merge_tables(&mut base2, entries(table(vec![("ui", table(vec![("banner", leaf("true"))]))])));
    let ui = entries(table_clone(get(&base2, "ui")));
    assert_eq!(leaf_text(get(&ui, "banner")), "true");
}

#[test]
fn first_of_repeated_keys_counts() {
    let mut base = entries(table(vec![("a", leaf("1"))]));
    merge_tables(&mut base, entries(table(vec![("a", leaf("2")), ("a", leaf("3"))])));
    assert_eq!(base.len(), 1);
    assert_eq!(leaf_text(get(&base, "a")), "2");
}

#[test]
fn empty_layer_changes_nothing() {
    let mut base = defaults();
    merge_tables(&mut base, Vec::new());
    assert_eq!(base.len(), 2);
    let provider = entries(table_clone(get(&base, "provider")));
    assert_eq!(leaf_text(get(&provider, "model")), "\"m1\"");
}

#[test]
fn lay_over_needs_two_tables() {
    let mut base = table(vec![("a", leaf("1"))]);
    lay_over(&mut base, leaf("2"));
    assert_eq!(leaf_text(get(&entries(base), "a")), "1");

    let mut plain = leaf("7");
    lay_over(&mut plain, table(vec![("a", leaf("2"))]));
    assert_eq!(leaf_text(&plain), "7");

    let mut base = table(vec![("a", leaf("1"))]);
    lay_over(&mut base, table(vec![("a", leaf("2"))]));
    assert_eq!(leaf_text(get(&entries(base), "a")), "2");
}

fn table_clone(v: &ConfigValue) -> ConfigValue {
    match v {
        ConfigValue::Leaf(s) => ConfigValue::Leaf(s.clone()),
        ConfigValue::Table(t) => ConfigValue::Table(t.iter().map(|(k, v)| (k.clone(), table_clone(v))).collect()),
    }
}

#[test]
fn layering_settings_over_themselves_changes_nothing() {
    let mut base = defaults();
    merge_tables(&mut base, defaults());
    assert_eq!(base.len(), 2);
    let provider = entries(table_clone(get(&base, "provider")));
    assert_eq!(provider.len(), 3);
    assert_eq!(leaf_text(get(&provider, "name")), "\"anthropic\"");
    assert_eq!(leaf_text(get(&provider, "model")), "\"m1\"");
    assert_eq!(leaf_text(get(&provider, "max_tokens")), "4096");
    let ui = entries(table_clone(get(&base, "ui")));
    assert_eq!(leaf_text(get(&ui, "banner")), "true");
}

#[test]
fn layering_over_nothing_gives_the_layer() {
    let mut base: Vec<(String, ConfigValue)> = Vec::new();
    merge_tables(&mut base, defaults());
    assert_eq!(base.len(), 2);
    assert_eq!(base[0].0, "provider");
    assert_eq!(base[1].0, "ui");
}

#[test]
fn toml_documents_parse_into_trees() {
    let t = entries(parse_document("a = 1\n[t]\nb = \"x\"\n").unwrap());
    assert_eq!(leaf_text(get(&t, "a")), "1");
    let inner = entries(table_clone(get(&t, "t")));
    assert_eq!(leaf_text(get(&inner, "b")), "\"x\"");
    assert!(parse_document("a = ").is_err());
}

#[test]
fn documents_lay_over_settings() {
    let mut base = table(vec![(
        "provider",
        table(vec![("name", leaf("\"anthropic\"")), ("model", leaf("\"m1\""))]),
    )]);
    lay_document_over(&mut base, "[provider]\nmodel = \"m2\"\n").unwrap();
    let provider = entries(table_clone(get(&entries(table_clone(&base)), "provider")));
    assert_eq!(leaf_text(get(&provider, "name")), "\"anthropic\"");
    assert_eq!(leaf_text(get(&provider, "model")), "\"m2\"");
    assert!(lay_document_over(&mut base, "[broken").is_err());
    assert_eq!(entries(base).len(), 1);
}
