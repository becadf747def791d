//! The syntax configuration: the decoded list of language entries, resolved
//! from the merged structured value of every contributing source.

use vstd::prelude::*;

use crate::config::DecodeError;
use crate::config::language::decode_language;
use crate::config::language::spec_decode_language;
use crate::config::language::LanguageConfig;
use crate::config::language::SpecLanguage;
use crate::loader::first_bad_from;
use crate::loader::load_merged;
use crate::loader::parsed_from;
use crate::loader::spec_fold_merge;
use crate::loader::toml_doc;
use crate::loader::LoadError;
use crate::loader::SourceText;
use crate::merge::tab_get;
use crate::merge::tab_has;
use crate::merge::find_key;
use crate::merge::lemma_tab_idx;
use crate::merge::MERGE_DEPTH;
use crate::text::str_of;
use crate::value::deep_seq;
use crate::value::lemma_deep_seq;
use crate::value::deep_entries;
use crate::value::lemma_deep_entries;
use crate::value::ConfigValue;
use crate::value::SpecValue;

verus! {

/// Syntax configuration for all languages.
#[derive(Debug)]
pub struct SyntaxConfig {
    pub languages: Vec<LanguageConfig>,
}

impl SyntaxConfig {
    /// The mathematical value of this configuration: its language entries.
    pub open spec fn model(self) -> Seq<SpecLanguage> {
        Seq::new(self.languages@.len(), |i: int| self.languages@[i].model())
    }
}

/// The compiled-in default syntax configuration text, always the
/// lowest-precedence source.
pub fn builtin_syntax_text() -> (r: &'static str)
    ensures
        r@ == spec_builtin_syntax_text(),
{
    "[[language]]\nname = \"rust\"\nfile-types = [\"rs\"]\nroots = [\"Cargo.toml\", \"Cargo.lock\"]\nlanguage-server = \"rust-analyzer\"\n"
}

/// The text of the compiled-in default source.
pub open spec fn spec_builtin_syntax_text() -> Seq<char> {
    "[[language]]\nname = \"rust\"\nfile-types = [\"rs\"]\nroots = [\"Cargo.toml\", \"Cargo.lock\"]\nlanguage-server = \"rust-analyzer\"\n"@
}

/// The language entries from position `i` of the array on: each element must
/// decode, else the whole array is refused.
pub open spec fn spec_decode_languages_from(items: Seq<SpecValue>, i: int) -> Option<
    Seq<SpecLanguage>,
>
    decreases items.len() - i,
{
    if i < 0 || i >= items.len() {
        Some(Seq::empty())
    } else {
        match spec_decode_language(items[i]) {
            Some(lang) => match spec_decode_languages_from(items, i + 1) {
                Some(rest) => Some(seq![lang] + rest),
                None => None,
            },
            None => None,
        }
    }
}

/// The decode of a merged syntax value: a table whose `"language"` entry is
/// an array of language entries. Other top-level keys are passed over.
pub open spec fn spec_decode_syntax(v: SpecValue) -> Option<Seq<SpecLanguage>> {
    match v {
        SpecValue::Table(t) => if tab_has(t, "language"@) {
            match tab_get(t, "language"@) {
                SpecValue::Array(items) => spec_decode_languages_from(items, 0),
                _ => None,
            }
        } else {
            None
        },
        _ => None,
    }
}

/// Decodes the language list out of a merged structured value.
#[verifier::loop_isolation(false)]
pub fn decode_syntax(v: &ConfigValue) -> (r: Result<SyntaxConfig, DecodeError>)
    ensures
        match r {
            Ok(c) => spec_decode_syntax(v.deep()) == Some(c.model()),
            Err(_) => spec_decode_syntax(v.deep()) is None,
        },
{
    match v {
        ConfigValue::Table(entries) => {
            proof {
                lemma_deep_entries(entries@);
                lemma_tab_idx(deep_entries(entries@), "language"@);
            }
            let key = str_of("language");
            match find_key(entries, &key) {
                Some(ki) => {
                    match &entries[ki].1 {
                        ConfigValue::Array(items) => {
                            proof {
                                lemma_deep_seq(items@);
                            }
                            let ghost s = deep_seq(items@);
                            let mut langs: Vec<LanguageConfig> = Vec::new();
                            let mut i: usize = 0;
                            while i < items.len()
                                invariant
                                    i <= items.len(),
                                    langs@.len() == i,
                                    forall|j: int| 0 <= j < i ==> spec_decode_language(s[j])
                                        == Some((#[trigger] langs@[j]).model()),
                                decreases items.len() - i,
                            {
                                match decode_language(&items[i]) {
                                    Ok(lang) => {
                                        langs.push(lang);
                                    },
                                    Err(e) => {
                                        proof {
                                            lemma_languages_bad(s, i as int);
                                        }
                                        return Err(e);
                                    },
                                }
                                i = i + 1;
                            }
                            let c = SyntaxConfig { languages: langs };
                            proof {
                                lemma_languages_good(s, c.model());
                            }
                            Ok(c)
                        },
                        _ => Err(DecodeError { path: str_of("language") }),
                    }
                },
                None => Err(DecodeError { path: str_of("language") }),
            }
        },
        _ => Err(DecodeError { path: str_of("syntax") }),
    }
}

/// An array whose element at `b` does not decode yields no language list.
proof fn lemma_languages_bad(items: Seq<SpecValue>, b: int)
    requires
        0 <= b < items.len(),
        spec_decode_language(items[b]) is None,
    ensures
        spec_decode_languages_from(items, 0) is None,
{
    lemma_languages_bad_from(items, 0, b);
}

proof fn lemma_languages_bad_from(items: Seq<SpecValue>, i: int, b: int)
    requires
        0 <= i <= b < items.len(),
        spec_decode_language(items[b]) is None,
    ensures
        spec_decode_languages_from(items, i) is None,
    decreases items.len() - i,
{
    if i < b {
        lemma_languages_bad_from(items, i + 1, b);
    }
}

/// An array every element of which decodes to the matching entry decodes to
/// exactly those entries.
proof fn lemma_languages_good(items: Seq<SpecValue>, langs: Seq<SpecLanguage>)
    requires
        items.len() == langs.len(),
        forall|j: int| 0 <= j < items.len() ==> spec_decode_language(items[j]) == Some(langs[j]),
    ensures
        spec_decode_languages_from(items, 0) == Some(langs),
{
    lemma_languages_good_from(items, langs, 0);
}

proof fn lemma_languages_good_from(items: Seq<SpecValue>, langs: Seq<SpecLanguage>, i: int)
    requires
        0 <= i <= items.len(),
        items.len() == langs.len(),
        forall|j: int| 0 <= j < items.len() ==> spec_decode_language(items[j]) == Some(langs[j]),
    ensures
        spec_decode_languages_from(items, i) == Some(langs.subrange(i, langs.len() as int)),
    decreases items.len() - i,
{
    if i >= items.len() {
        assert(langs.subrange(i, langs.len() as int) =~= Seq::<SpecLanguage>::empty());
    } else {
        lemma_languages_good_from(items, langs, i + 1);
        assert(seq![langs[i]] + langs.subrange(i + 1, langs.len() as int) =~= langs.subrange(
            i,
            langs.len() as int,
        ));
    }
}

/// Why a syntax configuration could not be resolved.
#[derive(Debug)]
pub enum SyntaxError {
    /// A present source file is not valid TOML; carries its path.
    Parse(String),
    /// The compiled-in default source is not valid TOML.
    BuiltinInvalid,
    /// The merged value does not decode; carries the offending field path.
    Decode(DecodeError),
}

impl SyntaxConfig {
    /// Resolves the syntax configuration from the ordered candidate sources,
    /// most specific first: parse, merge with the compiled-in default as the
    /// lowest-precedence source, and decode strictly.
    pub fn load(sources: &Vec<SourceText>) -> (r: Result<SyntaxConfig, SyntaxError>)
        ensures
            ({
                let merged = spec_fold_merge(
                    parsed_from(sources@, 0) + seq![toml_doc(spec_builtin_syntax_text()).unwrap()],
                    0,
                    MERGE_DEPTH as nat,
                );
                match r {
                    Ok(c) => first_bad_from(sources@, 0) == -1 && toml_doc(
                        spec_builtin_syntax_text(),
                    ) is Some && spec_decode_syntax(merged) == Some(c.model()),
                    Err(SyntaxError::Parse(p)) => {
                        let b = first_bad_from(sources@, 0);
                        b != -1 && p@ == sources@[b].path@
                    },
                    Err(SyntaxError::BuiltinInvalid) => first_bad_from(sources@, 0) == -1
                        && toml_doc(spec_builtin_syntax_text()) is None,
                    Err(SyntaxError::Decode(_)) => first_bad_from(sources@, 0) == -1 && toml_doc(
                        spec_builtin_syntax_text(),
                    ) is Some && spec_decode_syntax(merged) is None,
                }
            }),
    {
        let builtin = builtin_syntax_text();
        let merged = match load_merged(sources, builtin, MERGE_DEPTH) {
            Ok(v) => v,
            Err(LoadError::Parse(p)) => {
                return Err(SyntaxError::Parse(p));
            },
            Err(LoadError::BuiltinInvalid) => {
                return Err(SyntaxError::BuiltinInvalid);
            },
        };
        match decode_syntax(&merged) {
            Ok(c) => Ok(c),
            Err(e) => Err(SyntaxError::Decode(e)),
        }
    }

    /// The syntax configuration of the compiled-in default source alone;
    /// `None` only if that source does not parse and decode, which a correct
    /// build never exhibits.
    pub fn load_default() -> (r: Option<SyntaxConfig>)
        ensures
            match r {
                Some(c) => toml_doc(spec_builtin_syntax_text()) is Some && spec_decode_syntax(
                    toml_doc(spec_builtin_syntax_text()).unwrap(),
                ) == Some(c.model()),
                None => toml_doc(spec_builtin_syntax_text()) is None || spec_decode_syntax(
                    toml_doc(spec_builtin_syntax_text()).unwrap(),
                ) is None,
            },
    {
        let text = builtin_syntax_text();
        match crate::loader::parse_value(text) {
            Some(v) => match decode_syntax(&v) {
                Ok(c) => Some(c),
                Err(_) => None,
            },
            None => None,
        }
    }
}

} // verus!
