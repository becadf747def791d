//! Small verified helpers over strings.

use vstd::prelude::*;
use vstd::string::StringExecFns;

verus! {

/// Whether `s` holds exactly the text of `lit`.
pub fn str_is(s: &String, lit: &str) -> (r: bool)
    ensures
        r == (s@ == lit@),
{
    let other: String = String::from_str(lit);
    *s == other
}

/// A fresh owned copy of `lit`.
pub fn str_of(lit: &str) -> (r: String)
    ensures
        r@ == lit@,
{
    String::from_str(lit)
}

/// `base` with `suffix` appended.
pub fn str_concat(base: &str, suffix: &str) -> (r: String)
    ensures
        r@ == base@ + suffix@,
{
    let mut out: String = String::from_str(base);
    out.append(suffix);
    out
}

/// Whether `s` begins with the character `c`.
pub fn starts_with_char(s: &String, c: char) -> (r: bool)
    ensures
        r == (s@.len() > 0 && s@[0] == c),
{
    let t: &str = s.as_str();
    if t.unicode_len() == 0 {
        false
    } else {
        t.get_char(0) == c
    }
}

/// Whether `s` begins with two dashes.
pub fn starts_with_ddash(s: &String) -> (r: bool)
    ensures
        r == (s@.len() >= 2 && s@[0] == '-' && s@[1] == '-'),
{
    let t: &str = s.as_str();
    if t.unicode_len() < 2 {
        false
    } else {
        t.get_char(0) == '-' && t.get_char(1) == '-'
    }
}

} // verus!
