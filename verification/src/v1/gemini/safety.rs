//! The safety data for HarmCategory, HarmBlockThreshold and HarmProbability,
//! together with the wire names under which the API transports them.

use vstd::prelude::*;

use crate::text::str_eq;

verus! {

/// The safety category to configure a threshold for.
#[derive(Debug, Clone, PartialEq, Eq, Structural)]
pub enum HarmCategory {
    HarmCategorySexuallyExplicit,
    HarmCategoryHateSpeech,
    HarmCategoryHarassment,
    HarmCategoryDangerousContent,
}

/// For a request: the safety category to configure a threshold for.
/// For a response: the harm probability levels in the content.
#[derive(Debug, Clone, PartialEq, Eq, Structural)]
pub enum HarmProbability {
    HarmProbabilityUnspecified,
    Negligible,
    Low,
    Medium,
    High,
}

/// The threshold for blocking responses that could belong to the specified
/// safety category based on probability.
#[derive(Debug, Clone, PartialEq, Eq, Structural)]
pub enum HarmBlockThreshold {
    BlockNone,
    BlockLowAndAbove,
    BlockMedAndAbove,
    BlockHighAndAbove,
}

/// The wire name of a harm category.
pub open spec fn harm_category_name(c: HarmCategory) -> Seq<char> {
    match c {
        HarmCategory::HarmCategorySexuallyExplicit => "HARM_CATEGORY_SEXUALLY_EXPLICIT"@,
        HarmCategory::HarmCategoryHateSpeech => "HARM_CATEGORY_HATE_SPEECH"@,
        HarmCategory::HarmCategoryHarassment => "HARM_CATEGORY_HARASSMENT"@,
        HarmCategory::HarmCategoryDangerousContent => "HARM_CATEGORY_DANGEROUS_CONTENT"@,
    }
}

/// The harm category with the given wire name, if any.
pub open spec fn harm_category_of_name(s: Seq<char>) -> Option<HarmCategory> {
    if s == "HARM_CATEGORY_SEXUALLY_EXPLICIT"@ {
        Some(HarmCategory::HarmCategorySexuallyExplicit)
    } else if s == "HARM_CATEGORY_HATE_SPEECH"@ {
        Some(HarmCategory::HarmCategoryHateSpeech)
    } else if s == "HARM_CATEGORY_HARASSMENT"@ {
        Some(HarmCategory::HarmCategoryHarassment)
    } else if s == "HARM_CATEGORY_DANGEROUS_CONTENT"@ {
        Some(HarmCategory::HarmCategoryDangerousContent)
    } else {
        None
    }
}

impl HarmCategory {
    /// The wire name of this category.
    pub fn to_name(&self) -> (r: String)
        ensures
            r@ == harm_category_name(*self),
    {
        match self {
            HarmCategory::HarmCategorySexuallyExplicit => "HARM_CATEGORY_SEXUALLY_EXPLICIT".to_owned(),
            HarmCategory::HarmCategoryHateSpeech => "HARM_CATEGORY_HATE_SPEECH".to_owned(),
            HarmCategory::HarmCategoryHarassment => "HARM_CATEGORY_HARASSMENT".to_owned(),
            HarmCategory::HarmCategoryDangerousContent => "HARM_CATEGORY_DANGEROUS_CONTENT".to_owned(),
        }
    }

    /// The category with the given wire name.
    pub fn from_name(s: &str) -> (r: Option<HarmCategory>)
        ensures
            r == harm_category_of_name(s@),
    {
        if str_eq(s, "HARM_CATEGORY_SEXUALLY_EXPLICIT") {
            Some(HarmCategory::HarmCategorySexuallyExplicit)
        } else if str_eq(s, "HARM_CATEGORY_HATE_SPEECH") {
            Some(HarmCategory::HarmCategoryHateSpeech)
        } else if str_eq(s, "HARM_CATEGORY_HARASSMENT") {
            Some(HarmCategory::HarmCategoryHarassment)
        } else if str_eq(s, "HARM_CATEGORY_DANGEROUS_CONTENT") {
            Some(HarmCategory::HarmCategoryDangerousContent)
        } else {
            None
        }
    }
}

/// Every harm category is recovered from its own wire name.
pub proof fn lemma_harm_category_name_round_trip(c: HarmCategory)
    ensures
        harm_category_of_name(harm_category_name(c)) == Some(c),
{
    reveal_strlit("HARM_CATEGORY_SEXUALLY_EXPLICIT");
    reveal_strlit("HARM_CATEGORY_HATE_SPEECH");
    reveal_strlit("HARM_CATEGORY_HARASSMENT");
    reveal_strlit("HARM_CATEGORY_DANGEROUS_CONTENT");
    assert("HARM_CATEGORY_SEXUALLY_EXPLICIT"@.len() == 31);
    assert("HARM_CATEGORY_HATE_SPEECH"@.len() == 25);
    assert("HARM_CATEGORY_HARASSMENT"@.len() == 24);
    assert("HARM_CATEGORY_DANGEROUS_CONTENT"@.len() == 31);
    assert("HARM_CATEGORY_SEXUALLY_EXPLICIT"@[14] != "HARM_CATEGORY_DANGEROUS_CONTENT"@[14]);
    match c {
        HarmCategory::HarmCategorySexuallyExplicit => {
            assert(harm_category_of_name(harm_category_name(c)) == Some(c));
        },
        HarmCategory::HarmCategoryHateSpeech => {
            assert(harm_category_of_name(harm_category_name(c)) == Some(c));
        },
        HarmCategory::HarmCategoryHarassment => {
            assert(harm_category_of_name(harm_category_name(c)) == Some(c));
        },
        HarmCategory::HarmCategoryDangerousContent => {
            assert(harm_category_of_name(harm_category_name(c)) == Some(c));
        },
    }
}

/// The wire name of a harm probability level.
pub open spec fn harm_probability_name(p: HarmProbability) -> Seq<char> {
    match p {
        HarmProbability::HarmProbabilityUnspecified => "HARM_PROBABILITY_UNSPECIFIED"@,
        HarmProbability::Negligible => "NEGLIGIBLE"@,
        HarmProbability::Low => "LOW"@,
        HarmProbability::Medium => "MEDIUM"@,
        HarmProbability::High => "HIGH"@,
    }
}

/// The harm probability level with the given wire name, if any.
pub open spec fn harm_probability_of_name(s: Seq<char>) -> Option<HarmProbability> {
    if s == "HARM_PROBABILITY_UNSPECIFIED"@ {
        Some(HarmProbability::HarmProbabilityUnspecified)
    } else if s == "NEGLIGIBLE"@ {
        Some(HarmProbability::Negligible)
    } else if s == "LOW"@ {
        Some(HarmProbability::Low)
    } else if s == "MEDIUM"@ {
        Some(HarmProbability::Medium)
    } else if s == "HIGH"@ {
        Some(HarmProbability::High)
    } else {
        None
    }
}

impl HarmProbability {
    /// The wire name of this probability level.
    pub fn to_name(&self) -> (r: String)
        ensures
            r@ == harm_probability_name(*self),
    {
        match self {
            HarmProbability::HarmProbabilityUnspecified => "HARM_PROBABILITY_UNSPECIFIED".to_owned(),
            HarmProbability::Negligible => "NEGLIGIBLE".to_owned(),
            HarmProbability::Low => "LOW".to_owned(),
            HarmProbability::Medium => "MEDIUM".to_owned(),
            HarmProbability::High => "HIGH".to_owned(),
        }
    }

    /// The probability level with the given wire name.
    pub fn from_name(s: &str) -> (r: Option<HarmProbability>)
        ensures
            r == harm_probability_of_name(s@),
    {
        if str_eq(s, "HARM_PROBABILITY_UNSPECIFIED") {
            Some(HarmProbability::HarmProbabilityUnspecified)
        } else if str_eq(s, "NEGLIGIBLE") {
            Some(HarmProbability::Negligible)
        } else if str_eq(s, "LOW") {
            Some(HarmProbability::Low)
        } else if str_eq(s, "MEDIUM") {
            Some(HarmProbability::Medium)
        } else if str_eq(s, "HIGH") {
            Some(HarmProbability::High)
        } else {
            None
        }
    }
}

/// Every harm probability level is recovered from its own wire name.
pub proof fn lemma_harm_probability_name_round_trip(p: HarmProbability)
    ensures
        harm_probability_of_name(harm_probability_name(p)) == Some(p),
{
    reveal_strlit("HARM_PROBABILITY_UNSPECIFIED");
    reveal_strlit("NEGLIGIBLE");
    reveal_strlit("LOW");
    reveal_strlit("MEDIUM");
    reveal_strlit("HIGH");
    assert("HARM_PROBABILITY_UNSPECIFIED"@.len() == 28);
    assert("NEGLIGIBLE"@.len() == 10);
    assert("LOW"@.len() == 3);
    assert("MEDIUM"@.len() == 6);
    assert("HIGH"@.len() == 4);
    match p {
        HarmProbability::HarmProbabilityUnspecified => {
            assert(harm_probability_of_name(harm_probability_name(p)) == Some(p));
        },
        HarmProbability::Negligible => {
            assert(harm_probability_of_name(harm_probability_name(p)) == Some(p));
        },
        HarmProbability::Low => {
            assert(harm_probability_of_name(harm_probability_name(p)) == Some(p));
        },
        HarmProbability::Medium => {
            assert(harm_probability_of_name(harm_probability_name(p)) == Some(p));
        },
        HarmProbability::High => {
            assert(harm_probability_of_name(harm_probability_name(p)) == Some(p));
        },
    }
}

/// The wire name of a blocking threshold.
pub open spec fn harm_block_threshold_name(t: HarmBlockThreshold) -> Seq<char> {
    match t {
        HarmBlockThreshold::BlockNone => "BLOCK_NONE"@,
        HarmBlockThreshold::BlockLowAndAbove => "BLOCK_LOW_AND_ABOVE"@,
        HarmBlockThreshold::BlockMedAndAbove => "BLOCK_MED_AND_ABOVE"@,
        HarmBlockThreshold::BlockHighAndAbove => "BLOCK_HIGH_AND_ABOVE"@,
    }
}

/// The blocking threshold with the given wire name, if any.
pub open spec fn harm_block_threshold_of_name(s: Seq<char>) -> Option<HarmBlockThreshold> {
    if s == "BLOCK_NONE"@ {
        Some(HarmBlockThreshold::BlockNone)
    } else if s == "BLOCK_LOW_AND_ABOVE"@ {
        Some(HarmBlockThreshold::BlockLowAndAbove)
    } else if s == "BLOCK_MED_AND_ABOVE"@ {
        Some(HarmBlockThreshold::BlockMedAndAbove)
    } else if s == "BLOCK_HIGH_AND_ABOVE"@ {
        Some(HarmBlockThreshold::BlockHighAndAbove)
    } else {
        None
    }
}

impl HarmBlockThreshold {
    /// The wire name of this threshold.
    pub fn to_name(&self) -> (r: String)
        ensures
            r@ == harm_block_threshold_name(*self),
    {
        match self {
            HarmBlockThreshold::BlockNone => "BLOCK_NONE".to_owned(),
            HarmBlockThreshold::BlockLowAndAbove => "BLOCK_LOW_AND_ABOVE".to_owned(),
            HarmBlockThreshold::BlockMedAndAbove => "BLOCK_MED_AND_ABOVE".to_owned(),
            HarmBlockThreshold::BlockHighAndAbove => "BLOCK_HIGH_AND_ABOVE".to_owned(),
        }
    }

    /// The threshold with the given wire name.
    pub fn from_name(s: &str) -> (r: Option<HarmBlockThreshold>)
        ensures
            r == harm_block_threshold_of_name(s@),
    {
        if str_eq(s, "BLOCK_NONE") {
            Some(HarmBlockThreshold::BlockNone)
        } else if str_eq(s, "BLOCK_LOW_AND_ABOVE") {
            Some(HarmBlockThreshold::BlockLowAndAbove)
        } else if str_eq(s, "BLOCK_MED_AND_ABOVE") {
            Some(HarmBlockThreshold::BlockMedAndAbove)
        } else if str_eq(s, "BLOCK_HIGH_AND_ABOVE") {
            Some(HarmBlockThreshold::BlockHighAndAbove)
        } else {
            None
        }
    }
}

/// Every blocking threshold is recovered from its own wire name.
pub proof fn lemma_harm_block_threshold_name_round_trip(t: HarmBlockThreshold)
    ensures
        harm_block_threshold_of_name(harm_block_threshold_name(t)) == Some(t),
{
    reveal_strlit("BLOCK_NONE");
    reveal_strlit("BLOCK_LOW_AND_ABOVE");
    reveal_strlit("BLOCK_MED_AND_ABOVE");
    reveal_strlit("BLOCK_HIGH_AND_ABOVE");
    assert("BLOCK_NONE"@.len() == 10);
    assert("BLOCK_LOW_AND_ABOVE"@.len() == 19);
    assert("BLOCK_MED_AND_ABOVE"@.len() == 19);
    assert("BLOCK_HIGH_AND_ABOVE"@.len() == 20);
    assert("BLOCK_LOW_AND_ABOVE"@[6] != "BLOCK_MED_AND_ABOVE"@[6]);
    match t {
        HarmBlockThreshold::BlockNone => {
            assert(harm_block_threshold_of_name(harm_block_threshold_name(t)) == Some(t));
        },
        HarmBlockThreshold::BlockLowAndAbove => {
            assert(harm_block_threshold_of_name(harm_block_threshold_name(t)) == Some(t));
        },
        HarmBlockThreshold::BlockMedAndAbove => {
            assert(harm_block_threshold_of_name(harm_block_threshold_name(t)) == Some(t));
        },
        HarmBlockThreshold::BlockHighAndAbove => {
            assert(harm_block_threshold_of_name(harm_block_threshold_name(t)) == Some(t));
        },
    }
}

} // verus!
