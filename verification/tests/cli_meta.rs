use tissue::app::App;
use tissue::args::{ArgError, Args, Cli, Verbosity};
use tissue::config::Config;
use tissue::health::{Health, HealthCategory, HealthPlan};
use tissue::config::language::LanguageConfig;
use tissue::locate::{local_config_dirs, locate, Ancestor};
use tissue::metadata;
use tissue::metadata::Metadata;

fn ancestor(path: &str, has_vcs: bool, has_local: bool) -> Ancestor {
    Ancestor { path: path.to_string(), has_vcs, has_local }
}

fn argv(words: &[&str]) -> Vec<String> {
    words.iter().map(|w| w.to_string()).collect()
}

fn lang(name: &str, ls: Option<&str>, dbg: Option<&str>) -> LanguageConfig {
    LanguageConfig {
        name: name.to_string(),
        file_types: Vec::new(),
        roots: Vec::new(),
        language_server: ls.map(|s| s.to_string()),
        debugger: dbg.map(|s| s.to_string()),
    }
}

#[test]
fn locator_stops_at_the_vcs_root() {
    let ancestors = vec![
        ancestor("/repo/sub/work", false, false),
        ancestor("/repo/sub", false, true),
        ancestor("/repo", true, false),
        ancestor("/", false, true),
    ];
    let dirs = locate(&ancestors);
    assert_eq!(dirs, vec!["/repo/sub".to_string(), "/repo".to_string()]);
}

#[test]
fn locator_with_no_markers_records_nothing() {
    let ancestors = vec![ancestor("/a/b", false, false), ancestor("/a", false, false)];
    assert!(locate(&ancestors).is_empty());
}

#[test]
fn local_config_dirs_append_the_hidden_directory() {
    let ancestors = vec![ancestor("/repo/sub", false, true), ancestor("/repo", true, false)];
    let dirs = local_config_dirs(&ancestors);
    assert_eq!(dirs, vec!["/repo/sub/.tissue".to_string(), "/repo/.tissue".to_string()]);
}

#[test]
fn parse_help_and_version() {
    assert!(matches!(Cli::parse(&argv(&["-h"])), Ok(Cli::Help)));
    assert!(matches!(Cli::parse(&argv(&["--help"])), Ok(Cli::Help)));
    assert!(matches!(Cli::parse(&argv(&["-V"])), Ok(Cli::Version)));
    assert!(matches!(Cli::parse(&argv(&["--version"])), Ok(Cli::Version)));
}

#[test]
fn parse_health_takes_an_optional_category() {
    match Cli::parse(&argv(&["--health", "languages"])) {
        Ok(Cli::Health(Some(cat))) => assert_eq!(cat, "languages"),
        other => panic!("unexpected {:?}", other),
    }
    assert!(matches!(Cli::parse(&argv(&["--health"])), Ok(Cli::Health(None))));
    assert!(matches!(Cli::parse(&argv(&["--health", "-q"])), Ok(Cli::Health(None))));
}

#[test]
fn parse_collects_options_and_files() {
    match Cli::parse(&argv(&["-c", "cfg.toml", "-v", "2", "one.rs", "two.rs"])) {
        Ok(Cli::Options(args)) => {
            assert_eq!(args.config_file.as_deref(), Some("cfg.toml"));
            assert!(args.log_file.is_none());
            assert!(matches!(args.verbosity, Verbosity::Debug));
            assert_eq!(args.files, vec!["one.rs".to_string(), "two.rs".to_string()]);
        }
        other => panic!("unexpected {:?}", other),
    }
}

#[test]
fn parse_log_option() {
    match Cli::parse(&argv(&["--log", "/tmp/t.log"])) {
        Ok(Cli::Options(args)) => assert_eq!(args.log_file.as_deref(), Some("/tmp/t.log")),
        other => panic!("unexpected {:?}", other),
    }
}

#[test]
fn parse_rejects_bad_command_lines() {
    assert!(matches!(Cli::parse(&argv(&["-c"])), Err(ArgError::MissingPath(_))));
    assert!(matches!(Cli::parse(&argv(&["-l"])), Err(ArgError::MissingPath(_))));
    assert!(matches!(Cli::parse(&argv(&["-v"])), Err(ArgError::MissingLevel(_))));
    assert!(matches!(Cli::parse(&argv(&["-v", "9"])), Err(ArgError::InvalidLevel(_))));
    match Cli::parse(&argv(&["--bogus"])) {
        Err(ArgError::Unexpected(arg)) => assert_eq!(arg, "--bogus"),
        other => panic!("unexpected {:?}", other),
    }
}

#[test]
fn single_dash_words_are_files() {
    match Cli::parse(&argv(&["-x"])) {
        Ok(Cli::Options(args)) => assert_eq!(args.files, vec!["-x".to_string()]),
        other => panic!("unexpected {:?}", other),
    }
}

#[test]
fn metadata_paths_are_write_once() {
    let mut meta = Metadata::load();
    assert!(meta.set_config_file("/tmp/a.toml").is_ok());
    assert!(meta.set_config_file("/tmp/b.toml").is_err());
    assert_eq!(meta.config_file("/fallback.toml"), "/tmp/a.toml");
    assert!(meta.set_log_file("/tmp/a.log").is_ok());
    assert!(meta.set_log_file("/tmp/b.log").is_err());
    assert_eq!(meta.log_file("/fallback.log"), "/tmp/a.log");
}

#[test]
fn metadata_caches_the_first_fallback() {
    let mut meta = Metadata::load();
    assert_eq!(meta.config_file("/one.toml"), "/one.toml");
    assert_eq!(meta.config_file("/two.toml"), "/one.toml");
    assert_eq!(meta.log_file("/one.log"), "/one.log");
    assert_eq!(meta.log_file("/two.log"), "/one.log");
}

#[test]
fn directory_layout_is_product_namespaced() {
    assert_eq!(metadata::config_dir("/home/u/.config"), "/home/u/.config/tissue");
    assert_eq!(metadata::cache_dir("/home/u/.cache"), "/home/u/.cache/tissue");
    assert_eq!(
        metadata::default_config_file("/home/u/.config/tissue"),
        "/home/u/.config/tissue/config.toml"
    );
    assert_eq!(
        metadata::default_log_file("/home/u/.cache/tissue"),
        "/home/u/.cache/tissue/tissue.log"
    );
}

#[test]
fn health_category_from_argument() {
    assert!(matches!(HealthCategory::from_arg(None), HealthCategory::All));
    assert!(matches!(
        HealthCategory::from_arg(Some("all".to_string())),
        HealthCategory::All
    ));
    assert!(matches!(
        HealthCategory::from_arg(Some("clipboard".to_string())),
        HealthCategory::Clipboard
    ));
    assert!(matches!(
        HealthCategory::from_arg(Some("languages".to_string())),
        HealthCategory::Languages
    ));
    match HealthCategory::from_arg(Some("zig".to_string())) {
        HealthCategory::Language(name) => assert_eq!(name, "zig"),
        other => panic!("unexpected {:?}", other),
    }
}

#[test]
fn health_check_lists_all_languages() {
    let langs = vec![lang("rust", Some("rust-analyzer"), None), lang("go", Some("gopls"), None)];
    match Health::check(HealthCategory::All, &langs) {
        HealthPlan::Languages(rows) => {
            assert_eq!(rows.len(), 2);
            assert_eq!(rows[0].name, "rust");
            assert_eq!(rows[1].name, "go");
        }
        other => panic!("unexpected {:?}", other),
    }
}

#[test]
fn health_check_finds_a_language() {
    let langs = vec![lang("rust", Some("rust-analyzer"), Some("lldb"))];
    match Health::check(HealthCategory::Language("rust".to_string()), &langs) {
        HealthPlan::Single { found: Some(found), suggestions } => {
            assert_eq!(found.language_server.as_deref(), Some("rust-analyzer"));
            assert_eq!(found.debugger.as_deref(), Some("lldb"));
            assert!(suggestions.is_empty());
        }
        other => panic!("unexpected {:?}", other),
    }
}

#[test]
fn health_check_suggests_by_first_letter() {
    let langs = vec![lang("rust", None, None), lang("ruby", None, None), lang("go", None, None)];
    match Health::check(HealthCategory::Language("r".to_string()), &langs) {
        HealthPlan::Single { found: None, suggestions } => {
            assert_eq!(suggestions, vec!["rust".to_string(), "ruby".to_string()]);
        }
        other => panic!("unexpected {:?}", other),
    }
}

#[test]
fn app_holds_its_arguments_and_configuration() {
    let args = Args::default();
    let config = Config::default();
    let app = App::new(args, config).expect("construction succeeds");
    assert!(app.args.files.is_empty());
    assert!(app.config.theme.is_none());
}
