//! The structured value model: a recursive tagged union used as the
//! intermediate representation of every parsed configuration source.

use vstd::prelude::*;

verus! {

broadcast use vstd::std_specs::vec::group_vec_axioms;

/// Mathematical model of a [`ConfigValue`]: the same tree over `Seq` and `int`.
#[verifier::ext_equal]
pub enum SpecValue {
    Null,
    Bool(bool),
    Int(int),
    /// A float, kept as its raw bit pattern; never interpreted numerically.
    Float(u64),
    /// A date-time, kept in its textual form; never interpreted.
    Datetime(Seq<char>),
    Text(Seq<char>),
    Array(Seq<SpecValue>),
    Table(Seq<(Seq<char>, SpecValue)>),
}

/// A parsed-but-undecoded configuration value: scalar, array, or table of
/// string-keyed entries (insertion-ordered; merge ignores the order).
#[derive(Debug)]
pub enum ConfigValue {
    Null,
    Bool(bool),
    Int(i64),
    /// A float, carried as its raw bit pattern; never interpreted numerically.
    Float(u64),
    /// A date-time, carried in its textual form; never interpreted.
    Datetime(String),
    Text(String),
    Array(Vec<ConfigValue>),
    Table(Vec<(String, ConfigValue)>),
}

impl ConfigValue {
    /// The mathematical value this tree represents.
    pub open spec fn deep(self) -> SpecValue
        decreases self,
    {
        match self {
            ConfigValue::Null => SpecValue::Null,
            ConfigValue::Bool(b) => SpecValue::Bool(b),
            ConfigValue::Int(i) => SpecValue::Int(i as int),
            ConfigValue::Float(bits) => SpecValue::Float(bits),
            ConfigValue::Datetime(s) => SpecValue::Datetime(s@),
            ConfigValue::Text(s) => SpecValue::Text(s@),
            ConfigValue::Array(items) => SpecValue::Array(deep_seq(items@)),
            ConfigValue::Table(entries) => SpecValue::Table(deep_entries(entries@)),
        }
    }

    /// Programmatic construction of an empty table.
    pub fn empty_table() -> (r: ConfigValue)
        ensures
            r.deep() == SpecValue::Table(Seq::<(Seq<char>, SpecValue)>::empty()),
    {
        let r = ConfigValue::Table(Vec::new());
        proof {
            assert(r.deep() =~~= SpecValue::Table(Seq::<(Seq<char>, SpecValue)>::empty()));
        }
        r
    }
}

/// The models of a sequence of values.
pub open spec fn deep_seq(s: Seq<ConfigValue>) -> Seq<SpecValue>
    decreases s,
{
    if s.len() == 0 {
        Seq::empty()
    } else {
        seq![s[0].deep()] + deep_seq(s.subrange(1, s.len() as int))
    }
}

/// The models of a sequence of table entries.
pub open spec fn deep_entries(s: Seq<(String, ConfigValue)>) -> Seq<(Seq<char>, SpecValue)>
    decreases s,
{
    if s.len() == 0 {
        Seq::empty()
    } else {
        seq![(s[0].0@, s[0].1.deep())] + deep_entries(s.subrange(1, s.len() as int))
    }
}

/// `deep_seq` maps the model over the sequence, element by element.
pub broadcast proof fn lemma_deep_seq(s: Seq<ConfigValue>)
    ensures
        (#[trigger] deep_seq(s)).len() == s.len(),
        forall|i: int| 0 <= i < s.len() ==> deep_seq(s)[i] == s[i].deep(),
    decreases s.len(),
{
    if s.len() > 0 {
        lemma_deep_seq(s.subrange(1, s.len() as int));
    }
}

/// `deep_entries` maps the model over the entries, element by element.
pub broadcast proof fn lemma_deep_entries(s: Seq<(String, ConfigValue)>)
    ensures
        (#[trigger] deep_entries(s)).len() == s.len(),
        forall|i: int| 0 <= i < s.len() ==> deep_entries(s)[i] == (s[i].0@, s[i].1.deep()),
    decreases s.len(),
{
    if s.len() > 0 {
        lemma_deep_entries(s.subrange(1, s.len() as int));
    }
}

/// A label for each variant of the model, so that values of unlike variants
/// can be told apart.
pub open spec fn spec_tag(v: SpecValue) -> int {
    match v {
        SpecValue::Null => 0,
        SpecValue::Bool(_) => 1,
        SpecValue::Int(_) => 2,
        SpecValue::Float(_) => 3,
        SpecValue::Datetime(_) => 4,
        SpecValue::Text(_) => 5,
        SpecValue::Array(_) => 6,
        SpecValue::Table(_) => 7,
    }
}

impl ConfigValue {
    /// The label of this value's variant.
    fn tag(&self) -> (t: u8)
        ensures
            t as int == spec_tag(self.deep()),
    {
        match self {
            ConfigValue::Null => 0,
            ConfigValue::Bool(_) => 1,
            ConfigValue::Int(_) => 2,
            ConfigValue::Float(_) => 3,
            ConfigValue::Datetime(_) => 4,
            ConfigValue::Text(_) => 5,
            ConfigValue::Array(_) => 6,
            ConfigValue::Table(_) => 7,
        }
    }

    /// Whether two values stand for the same mathematical value.
    #[verifier::loop_isolation(false)]
    pub fn equal_value(a: &ConfigValue, b: &ConfigValue) -> (r: bool)
        ensures
            r == (a.deep() == b.deep()),
        decreases *a,
    {
        broadcast use lemma_deep_seq, lemma_deep_entries;

        if a.tag() != b.tag() {
            return false;
        }
        match (a, b) {
            (ConfigValue::Null, ConfigValue::Null) => true,
            (ConfigValue::Bool(x), ConfigValue::Bool(y)) => *x == *y,
            (ConfigValue::Int(x), ConfigValue::Int(y)) => *x == *y,
            (ConfigValue::Float(x), ConfigValue::Float(y)) => *x == *y,
            (ConfigValue::Datetime(x), ConfigValue::Datetime(y)) => *x == *y,
            (ConfigValue::Text(x), ConfigValue::Text(y)) => *x == *y,
            (ConfigValue::Array(xs), ConfigValue::Array(ys)) => {
                if xs.len() != ys.len() {
                    proof {
                        lemma_deep_seq(xs@);
                        lemma_deep_seq(ys@);
                        if a.deep() == b.deep() {
                            assert(deep_seq(xs@) == deep_seq(ys@));
                            assert(false);
                        }
                    }
                    return false;
                }
                let mut i: usize = 0;
                while i < xs.len()
                    invariant
                        i <= xs.len(),
                        forall|j: int| 0 <= j < i ==> xs@[j].deep() == ys@[j].deep(),
                    decreases xs.len() - i,
                {
                    proof {
                        assert(decreases_to!(*a => *xs));
                        assert(decreases_to!(*a => xs[i as int]));
                    }
                    if !ConfigValue::equal_value(&xs[i], &ys[i]) {
                        proof {
                            lemma_deep_seq(xs@);
                            lemma_deep_seq(ys@);
                            if a.deep() == b.deep() {
                                assert(deep_seq(xs@) == deep_seq(ys@));
                                assert(deep_seq(xs@)[i as int] == deep_seq(ys@)[i as int]);
                                assert(false);
                            }
                        }
                        return false;
                    }
                    i = i + 1;
                }
                proof {
                    assert(deep_seq(xs@) =~= deep_seq(ys@));
                }
                true
            },
            (ConfigValue::Table(xe), ConfigValue::Table(ye)) => {
                if xe.len() != ye.len() {
                    proof {
                        lemma_deep_entries(xe@);
                        lemma_deep_entries(ye@);
                        if a.deep() == b.deep() {
                            assert(deep_entries(xe@) == deep_entries(ye@));
                            assert(false);
                        }
                    }
                    return false;
                }
                let mut i: usize = 0;
                while i < xe.len()
                    invariant
                        i <= xe.len(),
                        forall|j: int| 0 <= j < i ==> xe@[j].0@ == ye@[j].0@ && xe@[j].1.deep()
                            == ye@[j].1.deep(),
                    decreases xe.len() - i,
                {
                    proof {
                        assert(decreases_to!(*a => *xe));
                        assert(decreases_to!(*a => xe[i as int].1));
                    }
                    let keys_match = xe[i].0 == ye[i].0;
                    if !keys_match {
                        proof {
                            lemma_deep_entries(xe@);
                            lemma_deep_entries(ye@);
                            if a.deep() == b.deep() {
                                assert(deep_entries(xe@)[i as int] == deep_entries(ye@)[i as int]);
                                assert(false);
                            }
                        }
                        return false;
                    }
                    if !ConfigValue::equal_value(&xe[i].1, &ye[i].1) {
                        proof {
                            lemma_deep_entries(xe@);
                            lemma_deep_entries(ye@);
                            if a.deep() == b.deep() {
                                assert(deep_entries(xe@)[i as int] == deep_entries(ye@)[i as int]);
                                assert(false);
                            }
                        }
                        return false;
                    }
                    i = i + 1;
                }
                proof {
                    assert(deep_entries(xe@) =~= deep_entries(ye@));
                }
                true
            },
            _ => false,
        }
    }
}

impl Clone for ConfigValue {
    /// A deep copy; the copy stands for the same mathematical value.
    #[verifier::loop_isolation(false)]
    fn clone(&self) -> (r: Self)
        ensures
            r.deep() == self.deep(),
        decreases *self,
    {
        broadcast use lemma_deep_seq, lemma_deep_entries;

        match self {
            ConfigValue::Null => ConfigValue::Null,
            ConfigValue::Bool(b) => ConfigValue::Bool(*b),
            ConfigValue::Int(i) => ConfigValue::Int(*i),
            ConfigValue::Float(bits) => ConfigValue::Float(*bits),
            ConfigValue::Datetime(s) => ConfigValue::Datetime(s.clone()),
            ConfigValue::Text(s) => ConfigValue::Text(s.clone()),
            ConfigValue::Array(items) => {
                let mut out: Vec<ConfigValue> = Vec::new();
                let mut i: usize = 0;
                while i < items.len()
                    invariant
                        i <= items.len(),
                        out@.len() == i,
                        forall|j: int| 0 <= j < i ==> out@[j].deep() == items@[j].deep(),
                    decreases items.len() - i,
                {
                    proof {
                        assert(decreases_to!(*self => *items));
                        assert(decreases_to!(*self => items[i as int]));
                    }
                    out.push(items[i].clone());
                    i = i + 1;
                }
                let r = ConfigValue::Array(out);
                proof {
                    assert(deep_seq(out@) =~= deep_seq(items@));
                    assert(r.deep() =~~= self.deep());
                }
                r
            },
            ConfigValue::Table(entries) => {
                let mut out: Vec<(String, ConfigValue)> = Vec::new();
                let mut i: usize = 0;
                while i < entries.len()
                    invariant
                        i <= entries.len(),
                        out@.len() == i,
                        forall|j: int| 0 <= j < i ==> out@[j].0@ == entries@[j].0@
                            && out@[j].1.deep() == entries@[j].1.deep(),
                    decreases entries.len() - i,
                {
                    proof {
                        assert(decreases_to!(*self => *entries));
                        assert(decreases_to!(*self => entries[i as int].1));
                    }
                    let key = entries[i].0.clone();
                    let child = entries[i].1.clone();
                    out.push((key, child));
                    i = i + 1;
                }
                let r = ConfigValue::Table(out);
                proof {
                    assert(deep_entries(out@) =~= deep_entries(entries@));
                    assert(r.deep() =~~= self.deep());
                }
                r
            },
        }
    }
}

} // verus!
