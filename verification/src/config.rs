//! The remapping configuration: which keyboard to grab and the ordered
//! rule list the mapping table is driven by.
//!
//! Each rule is a triple `[original, replacement, extended]`. A zero in
//! the replacement slot means "keep the original code"; a zero in the
//! extended slot means "no extended code". Rules are matched first to
//! last by original code.

use vstd::prelude::*;

verus! {

#[derive(Clone, Debug)]
pub struct Config {
    /// Path of the physical keyboard device.
    pub keyboard: String,
    /// Ordered rule list `[original, replacement-or-0, extended-or-0]`.
    pub keys_map: Vec<[u32; 3]>,
}

impl Default for Config {
    /// An empty mapping and no device path.
    fn default() -> (r: Self)
        ensures
            r.keyboard@ == Seq::<char>::empty(),
            r.keys_map@ == Seq::<[u32; 3]>::empty(),
    {
        Config { keyboard: String::new(), keys_map: Vec::new() }
    }
}

} // verus!
