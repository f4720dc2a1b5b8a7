//! The earlier safety data model.

use vstd::prelude::*;

verus! {

/// The category of harm a verdict or a rule speaks of, as the earlier
/// wire format graded them.
#[derive(Debug, Clone, PartialEq, Eq, Structural)]
pub enum HarmCategory {
    HarmCategoryUnspecified,
    HarmCategorySevere,
    HarmCategorySevereRecurring,
    HarmCategorySeverePersistent,
    HarmCategoryModerate,
    HarmCategoryModerateRecurring,
    HarmCategoryModeratePersistent,
    HarmCategoryMild,
    HarmCategoryMildRecurring,
    HarmCategoryMildPersistent,
}

/// The threshold for blocking responses of a category.
#[derive(Debug, Clone, PartialEq, Eq, Structural)]
pub enum HarmBlockThreshold {
    HarmBlockThresholdUnspecified,
    HarmBlockThresholdLow,
    HarmBlockThresholdMedium,
    HarmBlockThresholdHigh,
}

} // verus!
