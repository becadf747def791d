//! The source loader: parses each candidate source text into a structured
//! value and folds the ordered sequence into one effective value. Reading the
//! files themselves is the caller's concern; a source whose file was missing
//! is handed in as `None` and silently skipped.

use vstd::prelude::*;

use crate::merge::merge;
use crate::merge::spec_merge;
use crate::value::SpecValue;
use crate::value::ConfigValue;
use crate::value::deep_seq;
use crate::value::lemma_deep_seq;

verus! {

broadcast use vstd::std_specs::vec::group_vec_axioms;

/// The TOML document a text parses to, or `None` when the text is not valid
/// TOML. The result depends on the text alone.
pub uninterp spec fn toml_doc(s: Seq<char>) -> Option<SpecValue>;

/// Carries a `toml::Value` over into the library's own value model, variant
/// by variant. Only called from `parse_toml`; Verus never sees either body.
#[verifier::external_body]
fn value_from_toml(v: toml::Value) -> ConfigValue {
    match v {
        toml::Value::String(s) => ConfigValue::Text(s),
        toml::Value::Integer(i) => ConfigValue::Int(i),
        toml::Value::Float(f) => ConfigValue::Float(f.to_bits()),
        toml::Value::Boolean(b) => ConfigValue::Bool(b),
        toml::Value::Datetime(d) => ConfigValue::Datetime(d.to_string()),
        toml::Value::Array(a) => ConfigValue::Array(a.into_iter().map(value_from_toml).collect()),
        toml::Value::Table(t) => ConfigValue::Table(
            t.into_iter().map(|(k, c)| (k, value_from_toml(c))).collect(),
        ),
    }
}

/// Relies on `toml::from_str::<toml::Value>`: whether a text parses, and what
/// it parses to, depend on the text alone; `value_from_toml` then carries the
/// parsed tree over unchanged.
#[verifier::external_body]
fn parse_toml(text: &str) -> (r: Option<ConfigValue>)
    ensures
        match r {
            Some(v) => toml_doc(text@) == Some(v.deep()),
            None => toml_doc(text@) is None,
        },
{
    toml::from_str::<toml::Value>(text).ok().map(value_from_toml)
}

/// Parses one source text into a structured value; `None` when the text is
/// not valid TOML.
pub fn parse_value(text: &str) -> (r: Option<ConfigValue>)
    ensures
        match r {
            Some(v) => toml_doc(text@) == Some(v.deep()),
            None => toml_doc(text@) is None,
        },
{
    parse_toml(text)
}

/// One candidate source: where it came from, and its text when the file was
/// present.
#[derive(Debug)]
pub struct SourceText {
    pub path: String,
    pub text: Option<String>,
}

/// Why a load failed.
#[derive(Debug)]
pub enum LoadError {
    /// A present source file is not valid TOML; carries its path.
    Parse(String),
    /// The compiled-in default source is not valid TOML. Never expected in a
    /// correct build.
    BuiltinInvalid,
}

/// The text a source contributes, if its file was present.
pub open spec fn spec_text_of(s: SourceText) -> Option<Seq<char>> {
    match s.text {
        Some(t) => Some(t@),
        None => None,
    }
}

/// The position at or after `i` of the first present source whose text is not
/// valid TOML, or `-1`.
pub open spec fn first_bad_from(sources: Seq<SourceText>, i: int) -> int
    decreases sources.len() - i,
{
    if i < 0 || i >= sources.len() {
        -1
    } else {
        match spec_text_of(sources[i]) {
            Some(t) => if toml_doc(t) is None {
                i
            } else {
                first_bad_from(sources, i + 1)
            },
            None => first_bad_from(sources, i + 1),
        }
    }
}

/// The documents the present sources parse to, in order, from position `i`
/// on. Meaningful when every present text parses.
pub open spec fn parsed_from(sources: Seq<SourceText>, i: int) -> Seq<SpecValue>
    decreases sources.len() - i,
{
    if i < 0 || i >= sources.len() {
        Seq::empty()
    } else {
        match spec_text_of(sources[i]) {
            Some(t) => seq![toml_doc(t).unwrap()] + parsed_from(sources, i + 1),
            None => parsed_from(sources, i + 1),
        }
    }
}

/// The fold of the ordered documents, highest precedence first: each document
/// is merged, as the high-precedence side, over the fold of those after it.
/// An empty sequence folds to the empty table.
pub open spec fn spec_fold_merge(vs: Seq<SpecValue>, i: int, depth: nat) -> SpecValue
    decreases vs.len() - i,
{
    if i < 0 || i >= vs.len() {
        SpecValue::Table(Seq::empty())
    } else {
        spec_merge(vs[i], spec_fold_merge(vs, i + 1, depth), depth)
    }
}

/// Folds an ordered sequence of values, highest precedence first.
#[verifier::loop_isolation(false)]
pub fn fold_merge(values: Vec<ConfigValue>, depth: usize) -> (r: ConfigValue)
    ensures
        r.deep() == spec_fold_merge(deep_seq(values@), 0, depth as nat),
{
    proof {
        lemma_deep_seq(values@);
    }
    let ghost vs = deep_seq(values@);
    let mut acc = ConfigValue::empty_table();
    let mut k = values.len();
    let mut values = values;
    while k > 0
        invariant
            k <= values@.len(),
            vs == deep_seq(values@),
            vs.len() == values@.len(),
            acc.deep() == spec_fold_merge(vs, k as int, depth as nat),
        decreases k,
    {
        k = k - 1;
        let v = values[k].clone();
        acc = merge(v, acc, depth);
    }
    acc
}

/// Loads the ordered candidate sources, most specific first: parses each
/// present text, skips each absent one, parses the compiled-in default last,
/// and folds the sequence into one value. Fails on the first present source
/// that is not valid TOML, and on an invalid compiled-in default.
#[verifier::loop_isolation(false)]
pub fn load_merged(sources: &Vec<SourceText>, builtin: &str, depth: usize) -> (r: Result<
    ConfigValue,
    LoadError,
>)
    ensures
        match r {
            Ok(v) => first_bad_from(sources@, 0) == -1 && toml_doc(builtin@) is Some && v.deep()
                == spec_fold_merge(
                parsed_from(sources@, 0) + seq![toml_doc(builtin@).unwrap()],
                0,
                depth as nat,
            ),
            Err(LoadError::Parse(p)) => {
                let b = first_bad_from(sources@, 0);
                b != -1 && p@ == sources@[b].path@
            },
            Err(LoadError::BuiltinInvalid) => first_bad_from(sources@, 0) == -1 && toml_doc(
                builtin@,
            ) is None,
        },
{
    let mut parsed: Vec<ConfigValue> = Vec::new();
    let mut i: usize = 0;
    while i < sources.len()
        invariant
            i <= sources.len(),
            first_bad_from(sources@, 0) == first_bad_from(sources@, i as int),
            parsed_from(sources@, 0) =~= deep_seq(parsed@) + parsed_from(sources@, i as int),
        decreases sources.len() - i,
    {
        proof {
            lemma_deep_seq(parsed@);
        }
        match &sources[i].text {
            Some(t) => {
                match parse_value(t.as_str()) {
                    Some(v) => {
                        let ghost before = deep_seq(parsed@);
                        let ghost vd = v.deep();
                        parsed.push(v);
                        proof {
                            lemma_deep_seq(parsed@);
                            assert(deep_seq(parsed@) =~= before + seq![vd]);
                        }
                    },
                    None => {
                        return Err(LoadError::Parse(sources[i].path.clone()));
                    },
                }
            },
            None => {},
        }
        i = i + 1;
    }
    let built = match parse_value(builtin) {
        Some(v) => v,
        None => {
            return Err(LoadError::BuiltinInvalid);
        },
    };
    let ghost before = deep_seq(parsed@);
    let ghost bd = built.deep();
    proof {
        lemma_deep_seq(parsed@);
    }
    parsed.push(built);
    proof {
        lemma_deep_seq(parsed@);
        assert(deep_seq(parsed@) =~= before + seq![bd]);
        assert(deep_seq(parsed@) =~= parsed_from(sources@, 0) + seq![toml_doc(builtin@).unwrap()]);
    }
    Ok(fold_merge(parsed, depth))
}

} // verus!
