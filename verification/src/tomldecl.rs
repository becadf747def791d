//! Declaration of the outside TOML value type, so that the trusted parse
//! items may mention it.

use vstd::prelude::*;

verus! {

#[verifier::external_type_specification]
#[verifier::external_body]
pub struct ExTomlValue(toml::Value);

} // verus!
