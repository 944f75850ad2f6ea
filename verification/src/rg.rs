//! The general registry card (RG).

use crate::{EmitterOrg, Rg};
use vstd::prelude::*;

verus! {

impl Rg {
    /// Creates an RG from its code and the body that issued it.
    pub fn new(code: &str, emitter_org: EmitterOrg) -> (rg: Rg)
        ensures
            rg.code@ == code@,
            rg.emitter_org == emitter_org,
    {
        Rg { code: code.to_owned(), emitter_org }
    }

    /// Creates an RG from its code, given as an owned string, and the body
    /// that issued it.
    pub fn from_string(code: String, emitter_org: EmitterOrg) -> (rg: Rg)
        ensures
            rg.code == code,
            rg.emitter_org == emitter_org,
    {
        Rg { code, emitter_org }
    }
}

} // verus!
