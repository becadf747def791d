//! The health check: which diagnostics the user asked for, and what the
//! configured languages contribute to them. Probing the system for the named
//! programs, and printing, are the caller's concern.

use vstd::prelude::*;

use crate::config::language::LanguageConfig;
use crate::config::language::SpecLanguage;
use crate::text::str_is;

verus! {

/// Mathematical model of [`HealthCategory`].
pub enum SpecHealthCategory {
    All,
    Clipboard,
    Languages,
    Language(Seq<char>),
}

/// What the health check should cover.
#[derive(Debug)]
pub enum HealthCategory {
    All,
    Clipboard,
    Languages,
    Language(String),
}

impl HealthCategory {
    /// The mathematical value of this category.
    pub open spec fn model(self) -> SpecHealthCategory {
        match self {
            HealthCategory::All => SpecHealthCategory::All,
            HealthCategory::Clipboard => SpecHealthCategory::Clipboard,
            HealthCategory::Languages => SpecHealthCategory::Languages,
            HealthCategory::Language(s) => SpecHealthCategory::Language(s@),
        }
    }

    /// The category an optional command-line argument names.
    pub fn from_arg(arg: Option<String>) -> (r: Self)
        ensures
            r.model() == spec_category(arg.deep_view()),
    {
        match arg {
            None => HealthCategory::All,
            Some(s) => {
                if str_is(&s, "all") {
                    HealthCategory::All
                } else if str_is(&s, "clipboard") {
                    HealthCategory::Clipboard
                } else if str_is(&s, "languages") {
                    HealthCategory::Languages
                } else {
                    HealthCategory::Language(s)
                }
            },
        }
    }
}

/// The category an optional argument names: a known word, or a language.
pub open spec fn spec_category(arg: Option<Seq<char>>) -> SpecHealthCategory {
    match arg {
        None => SpecHealthCategory::All,
        Some(s) => if s == "all"@ {
            SpecHealthCategory::All
        } else if s == "clipboard"@ {
            SpecHealthCategory::Clipboard
        } else if s == "languages"@ {
            SpecHealthCategory::Languages
        } else {
            SpecHealthCategory::Language(s)
        },
    }
}

/// The models of a list of language entries.
pub open spec fn langs_model(s: Seq<LanguageConfig>) -> Seq<SpecLanguage> {
    Seq::new(s.len(), |i: int| s[i].model())
}

/// The first position at or after `i` of the language named `nm`, or `-1`.
pub open spec fn lang_idx_from(langs: Seq<SpecLanguage>, nm: Seq<char>, i: int) -> int
    decreases langs.len() - i,
{
    if i < 0 || i >= langs.len() {
        -1
    } else if langs[i].name == nm {
        i
    } else {
        lang_idx_from(langs, nm, i + 1)
    }
}

/// The names of the languages whose name begins with `c`, in order.
pub open spec fn spec_suggestions(langs: Seq<SpecLanguage>, c: char) -> Seq<Seq<char>>
    decreases langs.len(),
{
    if langs.len() == 0 {
        Seq::empty()
    } else {
        spec_suggestions(langs.drop_last(), c) + if langs.last().name.len() > 0
            && langs.last().name[0] == c {
            seq![langs.last().name]
        } else {
            Seq::empty()
        }
    }
}

/// What a health check reports before the system is probed.
#[derive(Debug)]
pub enum HealthPlan {
    /// The clipboard diagnostics, not implemented yet.
    Clipboard,
    /// One row per configured language, in configuration order.
    Languages(Vec<LanguageConfig>),
    /// One language looked up by name; when it is absent, the names that
    /// share its first letter, as suggestions.
    Single { found: Option<LanguageConfig>, suggestions: Vec<String> },
}

/// The health check.
#[derive(Debug)]
pub struct Health {}

impl Health {
    /// What the asked-for category reports, given the configured languages.
    #[verifier::loop_isolation(false)]
    pub fn check(category: HealthCategory, langs: &Vec<LanguageConfig>) -> (r: HealthPlan)
        requires
            (category.model() matches SpecHealthCategory::Language(nm) ==> nm.len() > 0),
        ensures
            ({
                let m = langs_model(langs@);
                match category.model() {
                    SpecHealthCategory::Clipboard => r is Clipboard,
                    SpecHealthCategory::Language(nm) => {
                        let j = lang_idx_from(m, nm, 0);
                        &&& r is Single
                        &&& (match r {
                            HealthPlan::Single { found, suggestions } => {
                                &&& (j >= 0 ==> (found matches Some(f) && f.model() == m[j]))
                                &&& (j < 0 ==> found is None && suggestions.deep_view()
                                    == spec_suggestions(m, nm[0]))
                            },
                            _ => true,
                        })
                    },
                    _ => (match r {
                        HealthPlan::Languages(rows) => langs_model(rows@) == m,
                        _ => false,
                    }),
                }
            }),
    {
        let ghost m = langs_model(langs@);
        match category {
            HealthCategory::Clipboard => HealthPlan::Clipboard,
            HealthCategory::Language(nm) => {
                let mut i: usize = 0;
                while i < langs.len()
                    invariant
                        i <= langs.len(),
                        m.len() == langs@.len(),
                        lang_idx_from(m, nm@, 0) == lang_idx_from(m, nm@, i as int),
                    decreases langs.len() - i,
                {
                    if str_is(&langs[i].name, nm.as_str()) {
                        return HealthPlan::Single {
                            found: Some(langs[i].clone()),
                            suggestions: Vec::new(),
                        };
                    }
                    i = i + 1;
                }
                let c = nm.as_str().get_char(0);
                let mut suggestions: Vec<String> = Vec::new();
                let mut k: usize = 0;
                while k < langs.len()
                    invariant
                        k <= langs.len(),
                        m.len() == langs@.len(),
                        suggestions.deep_view() == spec_suggestions(m.subrange(0, k as int), c),
                    decreases langs.len() - k,
                {
                    proof {
                        assert(m.subrange(0, k as int + 1).drop_last() =~= m.subrange(0, k as int));
                        assert(m.subrange(0, k as int + 1).last() == m[k as int]);
                    }
                    if crate::text::starts_with_char(&langs[k].name, c) {
                        let ghost before = suggestions.deep_view();
                        suggestions.push(langs[k].name.clone());
                        proof {
                            assert(suggestions.deep_view() =~= before + seq![m[k as int].name]);
                        }
                    }
                    k = k + 1;
                }
                proof {
                    assert(m.subrange(0, m.len() as int) =~= m);
                }
                HealthPlan::Single { found: None, suggestions }
            },
            _ => {
                let mut rows: Vec<LanguageConfig> = Vec::new();
                let mut i: usize = 0;
                while i < langs.len()
                    invariant
                        i <= langs.len(),
                        rows@.len() == i,
                        forall|j: int| 0 <= j < i ==> (#[trigger] rows@[j]).model()
                            == langs@[j].model(),
                    decreases langs.len() - i,
                {
                    rows.push(langs[i].clone());
                    i = i + 1;
                }
                proof {
                    assert(langs_model(rows@) =~= m);
                }
                HealthPlan::Languages(rows)
            },
        }
    }
}

} // verus!
