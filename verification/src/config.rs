//! The effective configuration: the decoded top-level options together with
//! the resolved syntax configuration.

use vstd::prelude::*;

pub mod editor;
pub mod language;
pub mod syntax;

use crate::config::editor::decode_editor;
use crate::config::editor::spec_decode_editor;
use crate::config::editor::spec_default_editor;
use crate::config::editor::EditorConfig;
use crate::config::editor::SpecEditor;
use crate::config::syntax::SyntaxConfig;
use crate::merge::SpecEntry;
use crate::text::str_is;
use crate::value::deep_entries;
use crate::value::lemma_deep_entries;
use crate::value::ConfigValue;
use crate::value::SpecValue;
use crate::KeyBinding;
use crate::Mode;

verus! {

/// A value tree that does not decode; carries the offending field path.
#[derive(Debug)]
pub struct DecodeError {
    pub path: String,
}

/// Mathematical model of the top-level options of [`Config`].
pub struct SpecConfig {
    pub theme: Option<Seq<char>>,
    pub editor: SpecEditor,
}

/// Global configuration.
#[derive(Debug)]
pub struct Config {
    pub theme: Option<String>,
    pub keys: Vec<(Mode, KeyBinding)>,
    pub editor: EditorConfig,
    pub syntax: SyntaxConfig,
}

impl Config {
    /// The mathematical value of the decoded top-level options.
    pub open spec fn model(self) -> SpecConfig {
        SpecConfig { theme: self.theme.deep_view(), editor: self.editor.model() }
    }
}

impl Default for Config {
    /// The fully-defaulted configuration: no theme, no key bindings, default
    /// editor options, no languages.
    fn default() -> (r: Self)
        ensures
            r.model() == (SpecConfig { theme: None, editor: spec_default_editor() }),
            r.keys@.len() == 0,
            r.syntax.model() == Seq::<crate::config::language::SpecLanguage>::empty(),
    {
        let r = Config {
            theme: None,
            keys: Vec::new(),
            editor: EditorConfig::default(),
            syntax: SyntaxConfig { languages: Vec::new() },
        };
        proof {
            assert(r.syntax.model() =~= Seq::<crate::config::language::SpecLanguage>::empty());
        }
        r
    }
}

/// Folds the top-level entries from position `i` on over `acc`: `theme` must
/// hold a string, `editor` a table that decodes; every other key is refused.
pub open spec fn spec_decode_config_from(t: Seq<SpecEntry>, i: int, acc: SpecConfig) -> Option<
    SpecConfig,
>
    decreases t.len() - i,
{
    if i < 0 || i >= t.len() {
        Some(acc)
    } else if t[i].0 == "theme"@ {
        match t[i].1 {
            SpecValue::Text(s) => spec_decode_config_from(
                t,
                i + 1,
                SpecConfig { theme: Some(s), ..acc },
            ),
            _ => None,
        }
    } else if t[i].0 == "editor"@ {
        match spec_decode_editor(t[i].1) {
            Some(e) => spec_decode_config_from(t, i + 1, SpecConfig { editor: e, ..acc }),
            None => None,
        }
    } else {
        None
    }
}

/// The strict decode of a top-level configuration value: a table of the two
/// recognized keys over the defaults. An unrecognized top-level key refuses
/// the whole value; so does a non-table.
pub open spec fn spec_decode_config(v: SpecValue) -> Option<SpecConfig> {
    match v {
        SpecValue::Table(t) => spec_decode_config_from(
            t,
            0,
            SpecConfig { theme: None, editor: spec_default_editor() },
        ),
        _ => None,
    }
}

impl Config {
    /// Decodes the top-level options strictly from a structured value. The
    /// key bindings and the syntax configuration start empty; the caller
    /// resolves the syntax sources separately.
    #[verifier::loop_isolation(false)]
    pub fn from_value(v: &ConfigValue) -> (r: Result<Config, DecodeError>)
        ensures
            match r {
                Ok(c) => spec_decode_config(v.deep()) == Some(c.model()) && c.keys@.len() == 0
                    && c.syntax.model() == Seq::<crate::config::language::SpecLanguage>::empty(),
                Err(_) => spec_decode_config(v.deep()) is None,
            },
    {
        match v {
            ConfigValue::Table(entries) => {
                proof {
                    lemma_deep_entries(entries@);
                }
                let ghost t = deep_entries(entries@);
                let mut acc = Config::default();
                let mut i: usize = 0;
                while i < entries.len()
                    invariant
                        i <= entries.len(),
                        spec_decode_config(v.deep()) == spec_decode_config_from(
                            t,
                            i as int,
                            acc.model(),
                        ),
                        acc.keys@.len() == 0,
                        acc.syntax.model() == Seq::<
                            crate::config::language::SpecLanguage,
                        >::empty(),
                    decreases entries.len() - i,
                {
                    if str_is(&entries[i].0, "theme") {
                        match &entries[i].1 {
                            ConfigValue::Text(s) => {
                                acc.theme = Some(s.clone());
                            },
                            _ => {
                                return Err(DecodeError { path: crate::text::str_of("theme") });
                            },
                        }
                    } else if str_is(&entries[i].0, "editor") {
                        match decode_editor(&entries[i].1) {
                            Ok(e) => {
                                acc.editor = e;
                            },
                            Err(e) => {
                                return Err(e);
                            },
                        }
                    } else {
                        return Err(DecodeError { path: entries[i].0.clone() });
                    }
                    i = i + 1;
                }
                Ok(acc)
            },
            _ => Err(DecodeError { path: crate::text::str_of("config") }),
        }
    }
}

} // verus!
