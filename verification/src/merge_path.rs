//! The merge path's own evidence: the comparison identity a repository's pre-push
//! hook judges a publication by, and whether a run root holds a recorded verdict.

use vstd::prelude::*;

use crate::gate;
use crate::text;

verus! {

/// The environment a publishing push hands the repository's pre-push hook, so the
/// gate it runs judges the same base the worker's gate already cleared.
pub fn comparison_env(remote: &str, base: &str) -> (env: Vec<(String, String)>)
    ensures
        text::pair_views(env@) == gate::spec_comparison_env(remote@, base@),
{
    gate::comparison_env(remote, base)
}

/// Whether a run root holds a preserved log: some regular file under one of its
/// branch directories carries the name such a log is written under. Each entry
/// is its file name and whether it is a regular file.
pub fn has_recorded_verdict(entries: &[(String, bool)]) -> (b: bool)
    ensures
        b == exists|i: int|
            0 <= i < entries@.len() && #[trigger] entries@[i].1 && text::spec_starts_with(
                entries@[i].0@,
                "gate-"@,
            ) && text::spec_ends_with(entries@[i].0@, ".log"@),
{
    let mut k: usize = 0;
    while k < entries.len()
        invariant
            k <= entries@.len(),
            forall|i: int|
                0 <= i < k ==> !(#[trigger] entries@[i].1 && text::spec_starts_with(
                    entries@[i].0@,
                    "gate-"@,
                ) && text::spec_ends_with(entries@[i].0@, ".log"@)),
        decreases entries.len() - k,
    {
        if entries[k].1 && gate::is_verdict_name(&entries[k].0) {
            return true;
        }
        k = k + 1;
    }
    false
}

} // verus!
