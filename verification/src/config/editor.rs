//! The editor options of the effective configuration, decoded strictly from
//! a structured value.

use vstd::prelude::*;

use crate::config::DecodeError;
use crate::merge::SpecEntry;
use crate::text::str_is;
use crate::value::deep_entries;
use crate::value::lemma_deep_entries;
use crate::value::ConfigValue;
use crate::value::SpecValue;

verus! {

/// Mathematical model of [`EditorConfig`].
pub struct SpecEditor {
    pub auto_pairs: bool,
    pub line_number: Seq<char>,
    pub mouse: bool,
}

/// Editor options, with documented defaults.
#[derive(Debug)]
pub struct EditorConfig {
    pub auto_pairs: bool,
    pub line_number: String,
    pub mouse: bool,
}

impl EditorConfig {
    /// The mathematical value of this configuration.
    pub open spec fn model(self) -> SpecEditor {
        SpecEditor { auto_pairs: self.auto_pairs, line_number: self.line_number@, mouse: self.mouse }
    }
}

/// The documented defaults: pair insertion on, absolute line numbers, mouse on.
pub open spec fn spec_default_editor() -> SpecEditor {
    SpecEditor { auto_pairs: true, line_number: "absolute"@, mouse: true }
}

impl Default for EditorConfig {
    /// The documented defaults.
    fn default() -> (r: Self)
        ensures
            r.model() == spec_default_editor(),
    {
        EditorConfig { auto_pairs: true, line_number: crate::text::str_of("absolute"), mouse: true }
    }
}

/// Folds the entries from position `i` on over `acc`: each recognized key
/// replaces its option when its value has the right type; an unrecognized key
/// or a mistyped value refuses the whole table.
pub open spec fn spec_decode_editor_from(t: Seq<SpecEntry>, i: int, acc: SpecEditor) -> Option<
    SpecEditor,
>
    decreases t.len() - i,
{
    if i < 0 || i >= t.len() {
        Some(acc)
    } else if t[i].0 == "auto-pairs"@ {
        match t[i].1 {
            SpecValue::Bool(b) => spec_decode_editor_from(
                t,
                i + 1,
                SpecEditor { auto_pairs: b, ..acc },
            ),
            _ => None,
        }
    } else if t[i].0 == "line-number"@ {
        match t[i].1 {
            SpecValue::Text(s) => spec_decode_editor_from(
                t,
                i + 1,
                SpecEditor { line_number: s, ..acc },
            ),
            _ => None,
        }
    } else if t[i].0 == "mouse"@ {
        match t[i].1 {
            SpecValue::Bool(b) => spec_decode_editor_from(t, i + 1, SpecEditor { mouse: b, ..acc }),
            _ => None,
        }
    } else {
        None
    }
}

/// The strict decode of an editor table: recognized options over the
/// defaults; anything else refused. A non-table is refused.
pub open spec fn spec_decode_editor(v: SpecValue) -> Option<SpecEditor> {
    match v {
        SpecValue::Table(t) => spec_decode_editor_from(t, 0, spec_default_editor()),
        _ => None,
    }
}

/// Decodes the editor options strictly from a structured value.
#[verifier::loop_isolation(false)]
pub fn decode_editor(v: &ConfigValue) -> (r: Result<EditorConfig, DecodeError>)
    ensures
        match r {
            Ok(c) => spec_decode_editor(v.deep()) == Some(c.model()),
            Err(_) => spec_decode_editor(v.deep()) is None,
        },
{
    match v {
        ConfigValue::Table(entries) => {
            proof {
                lemma_deep_entries(entries@);
            }
            let ghost t = deep_entries(entries@);
            let mut acc = EditorConfig::default();
            let mut i: usize = 0;
            while i < entries.len()
                invariant
                    i <= entries.len(),
                    spec_decode_editor_from(t, 0, spec_default_editor()) == spec_decode_editor_from(
                        t,
                        i as int,
                        acc.model(),
                    ),
                decreases entries.len() - i,
            {
                if str_is(&entries[i].0, "auto-pairs") {
                    match &entries[i].1 {
                        ConfigValue::Bool(b) => {
                            acc.auto_pairs = *b;
                        },
                        _ => {
                            return Err(DecodeError { path: crate::text::str_of("editor.auto-pairs") });
                        },
                    }
                } else if str_is(&entries[i].0, "line-number") {
                    match &entries[i].1 {
                        ConfigValue::Text(s) => {
                            acc.line_number = s.clone();
                        },
                        _ => {
                            return Err(
                                DecodeError { path: crate::text::str_of("editor.line-number") },
                            );
                        },
                    }
                } else if str_is(&entries[i].0, "mouse") {
                    match &entries[i].1 {
                        ConfigValue::Bool(b) => {
                            acc.mouse = *b;
                        },
                        _ => {
                            return Err(DecodeError { path: crate::text::str_of("editor.mouse") });
                        },
                    }
                } else {
                    return Err(DecodeError { path: entries[i].0.clone() });
                }
                i = i + 1;
            }
            Ok(acc)
        },
        _ => Err(DecodeError { path: crate::text::str_of("editor") }),
    }
}

} // verus!
