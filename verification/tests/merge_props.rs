use tissue::merge::merge;
use tissue::value::ConfigValue;

fn text(s: &str) -> ConfigValue {
    ConfigValue::Text(s.to_string())
}

fn table(entries: Vec<(&str, ConfigValue)>) -> ConfigValue {
    ConfigValue::Table(entries.into_iter().map(|(k, v)| (k.to_string(), v)).collect())
}

fn same(a: &ConfigValue, b: &ConfigValue) -> bool {
    ConfigValue::equal_value(a, b)
}

fn sample_value() -> ConfigValue {
    table(vec![
        ("theme", text("dark")),
        (
            "language",
            ConfigValue::Array(vec![
                table(vec![("name", text("rust")), ("debugger", text("lldb"))]),
                table(vec![("name", text("go"))]),
            ]),
        ),
    ])
}

#[test]
fn merge_idempotent_concrete() {
    for depth in 0..4 {
        let merged = merge(sample_value(), sample_value(), depth);
        assert!(same(&merged, &sample_value()));
    }
}

#[test]
fn merge_precedence_scalar() {
    let high = table(vec![("a", ConfigValue::Int(1))]);
    let low = table(vec![("a", ConfigValue::Int(2))]);
    let merged = merge(high, low, 1);
    let expected = table(vec![("a", ConfigValue::Int(1))]);
    assert!(same(&merged, &expected));
}

#[test]
fn merge_depth_exhaustion_collapse() {
    let a = table(vec![("x", ConfigValue::Int(1)), ("y", ConfigValue::Bool(true))]);
    let b = table(vec![("x", ConfigValue::Int(9)), ("z", ConfigValue::Int(3))]);
    let merged = merge(a.clone(), b, 0);
    assert!(same(&merged, &a));
}

#[test]
fn merge_array_correlation() {
    let high = ConfigValue::Array(vec![table(vec![
        ("name", text("rust")),
        ("debugger", text("lldb")),
    ])]);
    let low = ConfigValue::Array(vec![
        table(vec![("name", text("rust")), ("language-server", text("rust-analyzer"))]),
        table(vec![("name", text("go")), ("language-server", text("gopls"))]),
    ]);
    let merged = merge(high, low, 2);
    // The matched element is merged field by field; the unmatched
    // low-precedence "go" element is dropped.
    let expected = ConfigValue::Array(vec![table(vec![
        ("name", text("rust")),
        ("language-server", text("rust-analyzer")),
        ("debugger", text("lldb")),
    ])]);
    assert!(same(&merged, &expected));
}

#[test]
fn merge_key_union() {
    let high = table(vec![("a", ConfigValue::Int(1))]);
    let low = table(vec![("a", ConfigValue::Int(2)), ("b", ConfigValue::Int(3))]);
    let merged = merge(high, low, 1);
    let expected = table(vec![("a", ConfigValue::Int(1)), ("b", ConfigValue::Int(3))]);
    assert!(same(&merged, &expected));
}

#[test]
fn merge_mismatched_variants_high_wins() {
    let merged = merge(ConfigValue::Int(7), table(vec![("a", ConfigValue::Int(1))]), 3);
    assert!(same(&merged, &ConfigValue::Int(7)));
}

#[test]
fn merge_array_depth_zero_high_wins() {
    let high = ConfigValue::Array(vec![ConfigValue::Int(1)]);
    let low = ConfigValue::Array(vec![ConfigValue::Int(2), ConfigValue::Int(3)]);
    let merged = merge(high, low, 0);
    assert!(same(&merged, &ConfigValue::Array(vec![ConfigValue::Int(1)])));
}

#[test]
fn merge_unnamed_elements_pass_through() {
    let high = ConfigValue::Array(vec![ConfigValue::Int(1), table(vec![("k", text("v"))])]);
    let low = ConfigValue::Array(vec![ConfigValue::Int(2)]);
    let merged = merge(high.clone(), low, 2);
    assert!(same(&merged, &high));
}

#[test]
fn empty_table_is_identity_for_tables() {
    let v = table(vec![("a", ConfigValue::Int(1))]);
    let merged = merge(v.clone(), ConfigValue::empty_table(), 3);
    assert!(same(&merged, &v));
}

#[test]
fn table_lookup_finds_the_first_entry() {
    let v = table(vec![("a", ConfigValue::Int(1)), ("b", text("x"))]);
    let a = v.get(&"a".to_string()).expect("present key");
    assert!(same(a, &ConfigValue::Int(1)));
    assert!(v.get(&"c".to_string()).is_none());
    assert!(ConfigValue::Int(3).get(&"a".to_string()).is_none());
}
