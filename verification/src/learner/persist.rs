//! Where learned rules are kept.

use vstd::prelude::*;

use crate::text;

verus! {

/// The file that holds the learned rules, in the data directory.
pub fn rules_path(data_dir: &str) -> (r: String)
    ensures
        r@ == text::path_join(data_dir@, "learned_rules.json"@),
{
    text::join_path(data_dir, "learned_rules.json")
}

}
