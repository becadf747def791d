use tissue::config::syntax::{SyntaxConfig, SyntaxError};
use tissue::config::Config;
use tissue::loader::{parse_value, SourceText};
use tissue::value::ConfigValue;

fn text(s: &str) -> ConfigValue {
    ConfigValue::Text(s.to_string())
}

fn table(entries: Vec<(&str, ConfigValue)>) -> ConfigValue {
    ConfigValue::Table(entries.into_iter().map(|(k, v)| (k.to_string(), v)).collect())
}

fn present(path: &str, text: &str) -> SourceText {
    SourceText { path: path.to_string(), text: Some(text.to_string()) }
}

fn absent(path: &str) -> SourceText {
    SourceText { path: path.to_string(), text: None }
}

#[test]
fn parse_value_builds_a_tree() {
    let v = parse_value("a = 1\nb = \"two\"\n").expect("valid TOML");
    let expected = table(vec![("a", ConfigValue::Int(1)), ("b", text("two"))]);
    assert!(ConfigValue::equal_value(&v, &expected));
    assert!(!ConfigValue::equal_value(&v, &table(vec![])));
}

#[test]
fn parse_value_rejects_bad_text() {
    assert!(parse_value("= nonsense [").is_none());
}

#[test]
fn missing_file_is_tolerated() {
    let sources = vec![
        absent("/proj/.tissue/syntax.toml"),
        present("/home/u/.config/tissue/syntax.toml", "[[language]]\nname = \"go\"\nlanguage-server = \"gopls\"\n"),
    ];
    let config = SyntaxConfig::load(&sources).expect("load succeeds");
    let names: Vec<&str> = config.languages.iter().map(|l| l.name.as_str()).collect();
    assert!(names.contains(&"go"));
    // The built-in "rust" entry has no counterpart in the more specific
    // source's array, so the array merge drops it: only elements the
    // high-precedence array names survive.
    assert!(!names.contains(&"rust"));
}

#[test]
fn local_source_overrides_builtin() {
    let sources = vec![present(
        "/proj/.tissue/syntax.toml",
        "[[language]]\nname = \"rust\"\ndebugger = \"lldb\"\n",
    )];
    let config = SyntaxConfig::load(&sources).expect("load succeeds");
    let rust = config.languages.iter().find(|l| l.name == "rust").expect("rust entry");
    // The local source contributes the debugger; the built-in default still
    // contributes the language server for the same entry.
    assert_eq!(rust.debugger.as_deref(), Some("lldb"));
    assert_eq!(rust.language_server.as_deref(), Some("rust-analyzer"));
}

#[test]
fn unparseable_source_aborts_the_load() {
    let sources = vec![
        absent("/proj/.tissue/syntax.toml"),
        present("/home/u/.config/tissue/syntax.toml", "not [ valid toml"),
    ];
    match SyntaxConfig::load(&sources) {
        Err(SyntaxError::Parse(path)) => {
            assert_eq!(path, "/home/u/.config/tissue/syntax.toml");
        }
        other => panic!("expected a parse error, got {:?}", other),
    }
}

#[test]
fn load_default_holds_the_builtin_languages() {
    let config = SyntaxConfig::load_default().expect("builtin parses");
    assert_eq!(config.languages.len(), 1);
    assert_eq!(config.languages[0].name, "rust");
    assert_eq!(config.languages[0].language_server.as_deref(), Some("rust-analyzer"));
    assert_eq!(config.languages[0].file_types, vec!["rs".to_string()]);
}

#[test]
fn syntax_decode_rejects_unknown_language_key() {
    let sources = vec![present(
        "/proj/.tissue/syntax.toml",
        "[[language]]\nname = \"zig\"\nfavourite = true\n",
    )];
    match SyntaxConfig::load(&sources) {
        Err(SyntaxError::Decode(e)) => {
            assert_eq!(e.path, "favourite");
        }
        other => panic!("expected a decode error, got {:?}", other),
    }
}

#[test]
fn syntax_decode_needs_the_language_key() {
    let v = table(vec![("something", ConfigValue::Int(1))]);
    assert!(tissue::config::syntax::decode_syntax(&v).is_err());
}

#[test]
fn config_defaults_from_empty_table() {
    let v = table(vec![]);
    let config = Config::from_value(&v).expect("empty table decodes");
    assert!(config.theme.is_none());
    assert!(config.editor.auto_pairs);
    assert_eq!(config.editor.line_number, "absolute");
    assert!(config.editor.mouse);
    assert!(config.keys.is_empty());
    assert!(config.syntax.languages.is_empty());
}

#[test]
fn config_reads_theme_and_editor() {
    let v = parse_value("theme = \"nord\"\n[editor]\nmouse = false\nline-number = \"relative\"\n")
        .expect("valid TOML");
    let config = Config::from_value(&v).expect("decodes");
    assert_eq!(config.theme.as_deref(), Some("nord"));
    assert!(!config.editor.mouse);
    assert_eq!(config.editor.line_number, "relative");
    assert!(config.editor.auto_pairs);
}

#[test]
fn unknown_top_level_key_is_a_decode_error() {
    let v = parse_value("colour = \"red\"\n").expect("valid TOML");
    let err = Config::from_value(&v).expect_err("unknown key rejected");
    assert_eq!(err.path, "colour");
}

#[test]
fn mistyped_editor_option_is_a_decode_error() {
    let v = parse_value("[editor]\nmouse = 3\n").expect("valid TOML");
    assert!(Config::from_value(&v).is_err());
}

#[test]
fn non_table_does_not_decode() {
    assert!(Config::from_value(&ConfigValue::Int(3)).is_err());
}
