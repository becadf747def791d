//! One language entry of the syntax configuration, decoded strictly from a
//! structured value.

use vstd::prelude::*;

use crate::config::DecodeError;
use crate::merge::SpecEntry;
use crate::text::str_is;
use crate::value::deep_entries;
use crate::value::deep_seq;
use crate::value::lemma_deep_entries;
use crate::value::lemma_deep_seq;
use crate::value::ConfigValue;
use crate::value::SpecValue;

verus! {

/// Mathematical model of [`LanguageConfig`].
pub struct SpecLanguage {
    pub name: Seq<char>,
    pub file_types: Seq<Seq<char>>,
    pub roots: Seq<Seq<char>>,
    pub language_server: Option<Seq<char>>,
    pub debugger: Option<Seq<char>>,
}

/// One language: its correlation name, its file types and project-root
/// markers, and its optional language-server and debugger program names.
#[derive(Debug)]
pub struct LanguageConfig {
    pub name: String,
    pub file_types: Vec<String>,
    pub roots: Vec<String>,
    pub language_server: Option<String>,
    pub debugger: Option<String>,
}

impl LanguageConfig {
    /// The mathematical value of this entry.
    pub open spec fn model(self) -> SpecLanguage {
        SpecLanguage {
            name: self.name@,
            file_types: self.file_types.deep_view(),
            roots: self.roots.deep_view(),
            language_server: self.language_server.deep_view(),
            debugger: self.debugger.deep_view(),
        }
    }

    /// The empty entry every field of which a decode may fill in.
    pub fn empty() -> (r: Self)
        ensures
            r.model() == (SpecLanguage {
                name: Seq::<char>::empty(),
                file_types: Seq::<Seq<char>>::empty(),
                roots: Seq::<Seq<char>>::empty(),
                language_server: None,
                debugger: None,
            }),
    {
        let r = LanguageConfig {
            name: String::new(),
            file_types: Vec::new(),
            roots: Vec::new(),
            language_server: None,
            debugger: None,
        };
        proof {
            assert(r.file_types.deep_view() =~= Seq::<Seq<char>>::empty());
            assert(r.roots.deep_view() =~= Seq::<Seq<char>>::empty());
        }
        r
    }
}

impl Clone for LanguageConfig {
    /// A copy standing for the same entry.
    fn clone(&self) -> (r: Self)
        ensures
            r.model() == self.model(),
    {
        let r = LanguageConfig {
            name: self.name.clone(),
            file_types: clone_strings(&self.file_types),
            roots: clone_strings(&self.roots),
            language_server: clone_opt_string(&self.language_server),
            debugger: clone_opt_string(&self.debugger),
        };
        r
    }
}

/// A copy of a list of strings, element by element.
pub fn clone_strings(v: &Vec<String>) -> (r: Vec<String>)
    ensures
        r.deep_view() == v.deep_view(),
{
    let mut out: Vec<String> = Vec::new();
    let mut i: usize = 0;
    while i < v.len()
        invariant
            i <= v.len(),
            out@.len() == i,
            forall|j: int| 0 <= j < i ==> out@[j]@ == v@[j]@,
        decreases v.len() - i,
    {
        out.push(v[i].clone());
        i = i + 1;
    }
    proof {
        assert(out.deep_view() =~= v.deep_view());
    }
    out
}

/// A copy of an optional string.
pub fn clone_opt_string(v: &Option<String>) -> (r: Option<String>)
    ensures
        r.deep_view() == v.deep_view(),
{
    match v {
        Some(s) => Some(s.clone()),
        None => None,
    }
}

/// The strings of an array value, from position `i` on: every element must
/// be a string, else the array is refused.
pub open spec fn spec_str_list_from(items: Seq<SpecValue>, i: int) -> Option<Seq<Seq<char>>>
    decreases items.len() - i,
{
    if i < 0 || i >= items.len() {
        Some(Seq::empty())
    } else {
        match items[i] {
            SpecValue::Text(s) => match spec_str_list_from(items, i + 1) {
                Some(rest) => Some(seq![s] + rest),
                None => None,
            },
            _ => None,
        }
    }
}

/// The strings of a value: an array of strings, and nothing else.
pub open spec fn spec_str_list(v: SpecValue) -> Option<Seq<Seq<char>>> {
    match v {
        SpecValue::Array(items) => spec_str_list_from(items, 0),
        _ => None,
    }
}

/// Reads a list of strings out of a structured value.
#[verifier::loop_isolation(false)]
pub fn decode_str_list(v: &ConfigValue) -> (r: Option<Vec<String>>)
    ensures
        match r {
            Some(xs) => spec_str_list(v.deep()) == Some(xs.deep_view()),
            None => spec_str_list(v.deep()) is None,
        },
{
    match v {
        ConfigValue::Array(items) => {
            proof {
                lemma_deep_seq(items@);
            }
            let ghost s = deep_seq(items@);
            let mut out: Vec<String> = Vec::new();
            let mut i: usize = 0;
            while i < items.len()
                invariant
                    i <= items.len(),
                    out@.len() == i,
                    forall|j: int| 0 <= j < i ==> s[j] == SpecValue::Text(out@[j]@),
                decreases items.len() - i,
            {
                match &items[i] {
                    ConfigValue::Text(t) => {
                        out.push(t.clone());
                    },
                    _ => {
                        proof {
                            lemma_str_list_bad_from(s, 0, i as int);
                        }
                        return None;
                    },
                }
                i = i + 1;
            }
            proof {
                lemma_str_list_all_text(s, out.deep_view());
            }
            Some(out)
        },
        _ => None,
    }
}

/// An element that is not a string refuses the whole array, from any earlier
/// position on.
proof fn lemma_str_list_bad_from(s: Seq<SpecValue>, i: int, b: int)
    requires
        0 <= i <= b < s.len(),
        !(s[b] is Text),
    ensures
        spec_str_list_from(s, i) is None,
    decreases s.len() - i,
{
    if i < b {
        lemma_str_list_bad_from(s, i + 1, b);
    }
}

/// An array every element of which is the matching string decodes to exactly
/// those strings.
proof fn lemma_str_list_all_text(s: Seq<SpecValue>, xs: Seq<Seq<char>>)
    requires
        s.len() == xs.len(),
        forall|j: int| 0 <= j < s.len() ==> s[j] == SpecValue::Text(xs[j]),
    ensures
        spec_str_list_from(s, 0) == Some(xs),
{
    lemma_str_list_all_text_from(s, xs, 0);
}

proof fn lemma_str_list_all_text_from(s: Seq<SpecValue>, xs: Seq<Seq<char>>, i: int)
    requires
        0 <= i <= s.len(),
        s.len() == xs.len(),
        forall|j: int| 0 <= j < s.len() ==> s[j] == SpecValue::Text(xs[j]),
    ensures
        spec_str_list_from(s, i) == Some(xs.subrange(i, xs.len() as int)),
    decreases s.len() - i,
{
    if i >= s.len() {
        assert(xs.subrange(i, xs.len() as int) =~= Seq::<Seq<char>>::empty());
    } else {
        lemma_str_list_all_text_from(s, xs, i + 1);
        assert(seq![xs[i]] + xs.subrange(i + 1, xs.len() as int) =~= xs.subrange(
            i,
            xs.len() as int,
        ));
    }
}

/// Folds the entries from position `i` on over `acc`: each recognized key
/// replaces its field when its value has the right type; an unrecognized key
/// or a mistyped value refuses the whole entry.
pub open spec fn spec_decode_language_from(t: Seq<SpecEntry>, i: int, acc: SpecLanguage) -> Option<
    SpecLanguage,
>
    decreases t.len() - i,
{
    if i < 0 || i >= t.len() {
        Some(acc)
    } else if t[i].0 == "name"@ {
        match t[i].1 {
            SpecValue::Text(s) => spec_decode_language_from(t, i + 1, SpecLanguage { name: s, ..acc }),
            _ => None,
        }
    } else if t[i].0 == "file-types"@ {
        match spec_str_list(t[i].1) {
            Some(xs) => spec_decode_language_from(t, i + 1, SpecLanguage { file_types: xs, ..acc }),
            None => None,
        }
    } else if t[i].0 == "roots"@ {
        match spec_str_list(t[i].1) {
            Some(xs) => spec_decode_language_from(t, i + 1, SpecLanguage { roots: xs, ..acc }),
            None => None,
        }
    } else if t[i].0 == "language-server"@ {
        match t[i].1 {
            SpecValue::Text(s) => spec_decode_language_from(
                t,
                i + 1,
                SpecLanguage { language_server: Some(s), ..acc },
            ),
            _ => None,
        }
    } else if t[i].0 == "debugger"@ {
        match t[i].1 {
            SpecValue::Text(s) => spec_decode_language_from(
                t,
                i + 1,
                SpecLanguage { debugger: Some(s), ..acc },
            ),
            _ => None,
        }
    } else {
        None
    }
}

/// The strict decode of one language entry: a table of recognized keys over
/// the empty entry; anything else refused.
pub open spec fn spec_decode_language(v: SpecValue) -> Option<SpecLanguage> {
    match v {
        SpecValue::Table(t) => spec_decode_language_from(
            t,
            0,
            SpecLanguage {
                name: Seq::empty(),
                file_types: Seq::empty(),
                roots: Seq::empty(),
                language_server: None,
                debugger: None,
            },
        ),
        _ => None,
    }
}

/// Decodes one language entry strictly from a structured value.
#[verifier::loop_isolation(false)]
pub fn decode_language(v: &ConfigValue) -> (r: Result<LanguageConfig, DecodeError>)
    ensures
        match r {
            Ok(c) => spec_decode_language(v.deep()) == Some(c.model()),
            Err(_) => spec_decode_language(v.deep()) is None,
        },
{
    match v {
        ConfigValue::Table(entries) => {
            proof {
                lemma_deep_entries(entries@);
            }
            let ghost t = deep_entries(entries@);
            let mut acc = LanguageConfig::empty();
            let mut i: usize = 0;
            while i < entries.len()
                invariant
                    i <= entries.len(),
                    spec_decode_language(v.deep()) == spec_decode_language_from(
                        t,
                        i as int,
                        acc.model(),
                    ),
                decreases entries.len() - i,
            {
                if str_is(&entries[i].0, "name") {
                    match &entries[i].1 {
                        ConfigValue::Text(s) => {
                            acc.name = s.clone();
                        },
                        _ => {
                            return Err(DecodeError { path: crate::text::str_of("language.name") });
                        },
                    }
                } else if str_is(&entries[i].0, "file-types") {
                    match decode_str_list(&entries[i].1) {
                        Some(xs) => {
                            acc.file_types = xs;
                        },
                        None => {
                            return Err(
                                DecodeError { path: crate::text::str_of("language.file-types") },
                            );
                        },
                    }
                } else if str_is(&entries[i].0, "roots") {
                    match decode_str_list(&entries[i].1) {
                        Some(xs) => {
                            acc.roots = xs;
                        },
                        None => {
                            return Err(DecodeError { path: crate::text::str_of("language.roots") });
                        },
                    }
                } else if str_is(&entries[i].0, "language-server") {
                    match &entries[i].1 {
                        ConfigValue::Text(s) => {
                            acc.language_server = Some(s.clone());
                        },
                        _ => {
                            return Err(
                                DecodeError { path: crate::text::str_of("language.language-server") },
                            );
                        },
                    }
                } else if str_is(&entries[i].0, "debugger") {
                    match &entries[i].1 {
                        ConfigValue::Text(s) => {
                            acc.debugger = Some(s.clone());
                        },
                        _ => {
                            return Err(
                                DecodeError { path: crate::text::str_of("language.debugger") },
                            );
                        },
                    }
                } else {
                    return Err(DecodeError { path: entries[i].0.clone() });
                }
                i = i + 1;
            }
            Ok(acc)
        },
        _ => Err(DecodeError { path: crate::text::str_of("language") }),
    }
}

} // verus!
