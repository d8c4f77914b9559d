//! The vocabulary of fusing the tiers of an analysis.
use vstd::prelude::*;
use crate::text::{contains, contains_str, lower_chars, lowercase};

verus! {

/// How the results of the analysis tiers are fused.
#[derive(Debug, Clone, Copy, PartialEq, Eq, Structural)]
pub enum FusionStrategy {
    WeightedConsensus,
    MajorityVote,
    HighestConfidence,
    EvidenceBased,
}

/// Where a fused result stands after validation.
#[derive(Debug, Clone, Copy, PartialEq, Eq, Structural)]
pub enum ValidationStatus {
    Validated,
    Pending,
    Rejected,
}

/// The words that mark a business capability as high value.
pub open spec fn high_value_keywords() -> Seq<Seq<char>> {
    seq!["payment"@, "user"@, "auth"@, "api"@, "data"@, "analytics"@, "security"@]
}

/// Whether a capability is of high business value: its name, lowercased,
/// mentions one of the high-value words.
pub fn is_high_value_capability(capability: &str) -> (r: bool)
    ensures
        r == exists|i: int| 0 <= i < high_value_keywords().len() && contains(
            lowercase(capability@),
            #[trigger] high_value_keywords()[i],
        ),
{
    let low = lower_chars(capability);
    let words: Vec<&str> = vec!["payment", "user", "auth", "api", "data", "analytics", "security"];
    assert(words@.map_values(|w: &str| w@) =~= high_value_keywords());
    let mut i: usize = 0;
    while i < words.len()
        invariant
            i <= words@.len(),
            words@.map_values(|w: &str| w@) == high_value_keywords(),
            low@ == lowercase(capability@),
            forall|j: int| 0 <= j < i ==> !contains(lowercase(capability@), #[trigger] high_value_keywords()[j]),
        decreases words@.len() - i,
    {
        assert(high_value_keywords()[i as int] == words@[i as int]@);
        if contains_str(&low, words[i]) {
            return true;
        }
        i = i + 1;
    }
    false
}

} // verus!
