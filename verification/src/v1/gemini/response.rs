//! The response payload: candidates, safety ratings, usage counts and the
//! token-count reply, decoded from the JSON the service returns.

use vstd::prelude::*;

use crate::elems_view;
use crate::json::int_field;
use crate::json::json_obj_get;
use crate::json::json_seq_view;
use crate::json::lemma_json_seq_view;
use crate::json::obj_get;
use crate::json::opt_str_field;
use crate::json::str_field;
use crate::json::Json;
use crate::json::JsonView;
use crate::opt_view;
use super::content_of_json;
use super::Content;
use super::ContentView;
use super::safety::harm_category_of_name;
use super::safety::harm_probability_of_name;
use super::safety::HarmCategory;
use super::safety::HarmProbability;
use crate::text::str_eq;

verus! {

/// The token count for a given prompt.
#[derive(Debug, Clone, PartialEq, Eq, Structural)]
pub struct TokenCount {
    pub total_tokens: u64,
}

/// Reads a token count back out of a JSON value: a `totalTokens` integer.
pub open spec fn token_count_of_json(j: JsonView) -> Option<int> {
    match j {
        JsonView::Obj(fs) => match int_field(fs, "totalTokens"@) {
            Some(n) => if 0 <= n <= u64::MAX {
                Some(n)
            } else {
                None
            },
            None => None,
        },
        _ => None,
    }
}

impl TokenCount {
    /// Reads a token count back out of a JSON object.
    pub fn from_json(j: &Json) -> (r: Option<TokenCount>)
        ensures
            match r {
                Some(t) => token_count_of_json(j@) == Some(t.total_tokens as int),
                None => token_count_of_json(j@) is None,
            },
    {
        match j {
            Json::Obj(fields) => match json_obj_get(fields, "totalTokens") {
                Some(Json::Int(n)) => {
                    if *n >= 0 {
                        Some(TokenCount { total_tokens: *n as u64 })
                    } else {
                        None
                    }
                },
                _ => None,
            },
            _ => None,
        }
    }
}

/// Prompt and candidate token usage reported with a response.
#[derive(Debug, Clone, PartialEq, Eq, Structural)]
pub struct UsageMetadata {
    pub prompt_token_count: u64,
    pub candidates_token_count: u64,
}

impl View for UsageMetadata {
    type V = UsageMetadata;

    open spec fn view(&self) -> UsageMetadata {
        *self
    }
}

/// Reads usage metadata back out of a JSON value: its two token counts.
pub open spec fn usage_metadata_of_json(j: JsonView) -> Option<UsageMetadata> {
    match j {
        JsonView::Obj(fs) => match (
            int_field(fs, "promptTokenCount"@),
            int_field(fs, "candidatesTokenCount"@),
        ) {
            (Some(p), Some(c)) => if 0 <= p <= u64::MAX && 0 <= c <= u64::MAX {
                Some(
                    UsageMetadata {
                        prompt_token_count: p as u64,
                        candidates_token_count: c as u64,
                    },
                )
            } else {
                None
            },
            _ => None,
        },
        _ => None,
    }
}

impl UsageMetadata {
    /// Reads usage metadata back out of a JSON object.
    pub fn from_json(j: &Json) -> (r: Option<UsageMetadata>)
        ensures
            match r {
                Some(u) => usage_metadata_of_json(j@) == Some(u),
                None => usage_metadata_of_json(j@) is None,
            },
    {
        match j {
            Json::Obj(fields) => {
                let prompt_token_count: u64 = match json_obj_get(fields, "promptTokenCount") {
                    Some(Json::Int(n)) => {
                        if *n >= 0 {
                            *n as u64
                        } else {
                            return None;
                        }
                    },
                    _ => {
                        return None;
                    },
                };
                let candidates_token_count: u64 = match json_obj_get(
                    fields,
                    "candidatesTokenCount",
                ) {
                    Some(Json::Int(n)) => {
                        if *n >= 0 {
                            *n as u64
                        } else {
                            return None;
                        }
                    },
                    _ => {
                        return None;
                    },
                };
                Some(UsageMetadata { prompt_token_count, candidates_token_count })
            },
            _ => None,
        }
    }
}

/// One safety rating: how likely a category of harm is in the content,
/// and whether the content was blocked for it.
#[derive(Debug, Clone, PartialEq, Eq, Structural)]
pub struct SafetyRating {
    pub category: HarmCategory,
    pub probability: HarmProbability,
    pub blocked: bool,
}

impl View for SafetyRating {
    type V = SafetyRating;

    open spec fn view(&self) -> SafetyRating {
        *self
    }
}

/// Reads a safety rating back out of a JSON value.  A missing `blocked`
/// field means not blocked.
pub open spec fn safety_rating_of_json(j: JsonView) -> Option<SafetyRating> {
    match j {
        JsonView::Obj(fs) => match (str_field(fs, "category"@), str_field(fs, "probability"@)) {
            (Some(cn), Some(pn)) => match (
                harm_category_of_name(cn),
                harm_probability_of_name(pn),
            ) {
                (Some(category), Some(probability)) => match obj_get(fs, "blocked"@) {
                    None => Some(SafetyRating { category, probability, blocked: false }),
                    Some(JsonView::Bool(b)) => Some(SafetyRating { category, probability, blocked: b }),
                    Some(_) => None,
                },
                _ => None,
            },
            _ => None,
        },
        _ => None,
    }
}

impl SafetyRating {
    /// Reads a safety rating back out of a JSON object.
    pub fn from_json(j: &Json) -> (r: Option<SafetyRating>)
        ensures
            match r {
                Some(s) => safety_rating_of_json(j@) == Some(s),
                None => safety_rating_of_json(j@) is None,
            },
    {
        match j {
            Json::Obj(fields) => {
                let category: HarmCategory = match json_obj_get(fields, "category") {
                    Some(Json::Str(s)) => match HarmCategory::from_name(s.as_str()) {
                        Some(c) => c,
                        None => {
                            return None;
                        },
                    },
                    _ => {
                        return None;
                    },
                };
                let probability: HarmProbability = match json_obj_get(fields, "probability") {
                    Some(Json::Str(s)) => match HarmProbability::from_name(s.as_str()) {
                        Some(p) => p,
                        None => {
                            return None;
                        },
                    },
                    _ => {
                        return None;
                    },
                };
                let blocked: bool = match json_obj_get(fields, "blocked") {
                    None => false,
                    Some(Json::Bool(b)) => *b,
                    Some(_) => {
                        return None;
                    },
                };
                Some(SafetyRating { category, probability, blocked })
            },
            _ => None,
        }
    }
}

/// Reads a list of safety ratings back out of JSON array elements; any bad element
/// spoils the whole list.
pub open spec fn ratings_of_json(js: Seq<JsonView>) -> Option<Seq<SafetyRating>>
    decreases js.len(),
{
    if js.len() == 0 {
        Some(Seq::empty())
    } else {
        match (ratings_of_json(js.drop_last()), safety_rating_of_json(js.last())) {
            (Some(xs), Some(x)) => Some(xs.push(x)),
            _ => None,
        }
    }
}

proof fn lemma_ratings_of_json_fails(js: Seq<JsonView>, i: int)
    requires
        0 <= i < js.len(),
        safety_rating_of_json(js[i]) is None,
    ensures
        ratings_of_json(js) is None,
    decreases js.len(),
{
    if i < js.len() - 1 {
        assert(js.drop_last()[i] == js[i]);
        lemma_ratings_of_json_fails(js.drop_last(), i);
    }
}

/// Reads each element of a JSON array.
pub fn ratings_from_json(items: &Vec<Json>) -> (r: Option<Vec<SafetyRating>>)
    ensures
        match r {
            Some(v) => ratings_of_json(json_seq_view(items@)) == Some(elems_view(v@)),
            None => ratings_of_json(json_seq_view(items@)) is None,
        },
{
    let ghost js = json_seq_view(items@);
    proof {
        lemma_json_seq_view(items@);
    }
    let mut out: Vec<SafetyRating> = Vec::new();
    let n = items.len();
    let mut i: usize = 0;
    while i < n
        invariant
            n == items@.len(),
            i <= n,
            out@.len() == i,
            js == json_seq_view(items@),
            js.len() == n,
            forall|k: int| 0 <= k < n ==> #[trigger] js[k] == items@[k]@,
            ratings_of_json(js.take(i as int)) == Some(elems_view(out@)),
        decreases n - i,
    {
        match SafetyRating::from_json(&items[i]) {
            Some(p) => {
                let ghost prev = out@;
                out.push(p);
                proof {
                    assert(js.take(i + 1 as int).drop_last() =~= js.take(i as int));
                    assert(js.take(i + 1 as int).last() == js[i as int]);
                    assert(elems_view(out@) =~= elems_view(prev).push(p@));
                }
            },
            None => {
                proof {
                    lemma_ratings_of_json_fails(js, i as int);
                }
                return None;
            },
        }
        i = i + 1;
    }
    proof {
        assert(js.take(n as int) =~= js);
    }
    Some(out)
}

/// Prompt-level feedback: the safety ratings of the prompt itself.
#[derive(Debug, Clone)]
pub struct PromptFeedback {
    pub safety_ratings: Vec<SafetyRating>,
}

/// The mathematical shape of [`PromptFeedback`].
#[verifier::ext_equal]
pub struct PromptFeedbackView {
    pub safety_ratings: Seq<SafetyRating>,
}

impl View for PromptFeedback {
    type V = PromptFeedbackView;

    open spec fn view(&self) -> PromptFeedbackView {
        PromptFeedbackView { safety_ratings: elems_view(self.safety_ratings@) }
    }
}

/// Reads prompt feedback back out of a JSON value: its `safetyRatings`.
pub open spec fn prompt_feedback_of_json(j: JsonView) -> Option<PromptFeedbackView> {
    match j {
        JsonView::Obj(fs) => match obj_get(fs, "safetyRatings"@) {
            Some(JsonView::Arr(js)) => match ratings_of_json(js) {
                Some(rs) => Some(PromptFeedbackView { safety_ratings: rs }),
                None => None,
            },
            _ => None,
        },
        _ => None,
    }
}

impl PromptFeedback {
    /// Reads prompt feedback back out of a JSON object.
    pub fn from_json(j: &Json) -> (r: Option<PromptFeedback>)
        ensures
            match r {
                Some(f) => prompt_feedback_of_json(j@) == Some(f@),
                None => prompt_feedback_of_json(j@) is None,
            },
    {
        match j {
            Json::Obj(fields) => match json_obj_get(fields, "safetyRatings") {
                Some(Json::Arr(items)) => match ratings_from_json(items) {
                    Some(rs) => Some(PromptFeedback { safety_ratings: rs }),
                    None => None,
                },
                _ => None,
            },
            _ => None,
        }
    }
}

/// One proposed output of the model, with its safety ratings.
#[derive(Debug, Clone)]
pub struct Candidate {
    pub content: Content,
    pub finish_reason: Option<String>,
    pub index: Option<i32>,
    pub safety_ratings: Vec<SafetyRating>,
}

/// The mathematical shape of [`Candidate`].
#[verifier::ext_equal]
pub struct CandidateView {
    pub content: ContentView,
    pub finish_reason: Option<Seq<char>>,
    pub index: Option<int>,
    pub safety_ratings: Seq<SafetyRating>,
}

impl View for Candidate {
    type V = CandidateView;

    open spec fn view(&self) -> CandidateView {
        CandidateView {
            content: self.content@,
            finish_reason: opt_view(self.finish_reason),
            index: match self.index {
                Some(n) => Some(n as int),
                None => None,
            },
            safety_ratings: elems_view(self.safety_ratings@),
        }
    }
}

/// Reads a candidate back out of a JSON value.  `content` and
/// `safetyRatings` are required; `finishReason` and `index` optional.
pub open spec fn candidate_of_json(j: JsonView) -> Option<CandidateView> {
    match j {
        JsonView::Obj(fs) => {
            let content = match obj_get(fs, "content"@) {
                Some(cj) => content_of_json(cj),
                None => None,
            };
            let finish_reason = opt_str_field(fs, "finishReason"@);
            let index = match obj_get(fs, "index"@) {
                None => Some(None),
                Some(JsonView::Null) => Some(None),
                Some(JsonView::Int(n)) => if i32::MIN <= n <= i32::MAX {
                    Some(Some(n))
                } else {
                    None
                },
                Some(_) => None,
            };
            let safety_ratings = match obj_get(fs, "safetyRatings"@) {
                Some(JsonView::Arr(js)) => ratings_of_json(js),
                _ => None,
            };
            match (content, finish_reason, index, safety_ratings) {
                (Some(c), Some(fr), Some(ix), Some(rs)) => Some(
                    CandidateView {
                        content: c,
                        finish_reason: fr,
                        index: ix,
                        safety_ratings: rs,
                    },
                ),
                _ => None,
            }
        },
        _ => None,
    }
}

impl Candidate {
    /// Reads a candidate back out of a JSON object.
    pub fn from_json(j: &Json) -> (r: Option<Candidate>)
        ensures
            match r {
                Some(c) => candidate_of_json(j@) == Some(c@),
                None => candidate_of_json(j@) is None,
            },
    {
        match j {
            Json::Obj(fields) => {
                let content: Content = match json_obj_get(fields, "content") {
                    Some(cj) => match Content::from_json(cj) {
                        Some(c) => c,
                        None => {
                            return None;
                        },
                    },
                    None => {
                        return None;
                    },
                };
                let finish_reason: Option<String> = match json_obj_get(fields, "finishReason") {
                    None => None,
                    Some(Json::Null) => None,
                    Some(Json::Str(s)) => Some(s.clone()),
                    Some(_) => {
                        return None;
                    },
                };
                let index: Option<i32> = match json_obj_get(fields, "index") {
                    None => None,
                    Some(Json::Null) => None,
                    Some(Json::Int(n)) => {
                        if *n >= i32::MIN as i64 && *n <= i32::MAX as i64 {
                            Some(*n as i32)
                        } else {
                            return None;
                        }
                    },
                    Some(_) => {
                        return None;
                    },
                };
                let safety_ratings: Vec<SafetyRating> = match json_obj_get(
                    fields,
                    "safetyRatings",
                ) {
                    Some(Json::Arr(items)) => match ratings_from_json(items) {
                        Some(rs) => rs,
                        None => {
                            return None;
                        },
                    },
                    _ => {
                        return None;
                    },
                };
                Some(Candidate { content, finish_reason, index, safety_ratings })
            },
            _ => None,
        }
    }
}

/// Reads a list of candidates back out of JSON array elements; any bad element
/// spoils the whole list.
pub open spec fn candidates_of_json(js: Seq<JsonView>) -> Option<Seq<CandidateView>>
    decreases js.len(),
{
    if js.len() == 0 {
        Some(Seq::empty())
    } else {
        match (candidates_of_json(js.drop_last()), candidate_of_json(js.last())) {
            (Some(xs), Some(x)) => Some(xs.push(x)),
            _ => None,
        }
    }
}

proof fn lemma_candidates_of_json_fails(js: Seq<JsonView>, i: int)
    requires
        0 <= i < js.len(),
        candidate_of_json(js[i]) is None,
    ensures
        candidates_of_json(js) is None,
    decreases js.len(),
{
    if i < js.len() - 1 {
        assert(js.drop_last()[i] == js[i]);
        lemma_candidates_of_json_fails(js.drop_last(), i);
    }
}

/// Reads each element of a JSON array.
pub fn candidates_from_json(items: &Vec<Json>) -> (r: Option<Vec<Candidate>>)
    ensures
        match r {
            Some(v) => candidates_of_json(json_seq_view(items@)) == Some(elems_view(v@)),
            None => candidates_of_json(json_seq_view(items@)) is None,
        },
{
    let ghost js = json_seq_view(items@);
    proof {
        lemma_json_seq_view(items@);
    }
    let mut out: Vec<Candidate> = Vec::new();
    let n = items.len();
    let mut i: usize = 0;
    while i < n
        invariant
            n == items@.len(),
            i <= n,
            out@.len() == i,
            js == json_seq_view(items@),
            js.len() == n,
            forall|k: int| 0 <= k < n ==> #[trigger] js[k] == items@[k]@,
            candidates_of_json(js.take(i as int)) == Some(elems_view(out@)),
        decreases n - i,
    {
        match Candidate::from_json(&items[i]) {
            Some(p) => {
                let ghost prev = out@;
                out.push(p);
                proof {
                    assert(js.take(i + 1 as int).drop_last() =~= js.take(i as int));
                    assert(js.take(i + 1 as int).last() == js[i as int]);
                    assert(elems_view(out@) =~= elems_view(prev).push(p@));
                }
            },
            None => {
                proof {
                    lemma_candidates_of_json_fails(js, i as int);
                }
                return None;
            },
        }
        i = i + 1;
    }
    proof {
        assert(js.take(n as int) =~= js);
    }
    Some(out)
}

/// A full, non-streamed reply of the model: its candidates and optional
/// feedback and usage counts.
#[derive(Debug, Clone)]
pub struct GeminiResponse {
    pub candidates: Vec<Candidate>,
    pub prompt_feedback: Option<PromptFeedback>,
    pub usage_metadata: Option<UsageMetadata>,
}

/// The mathematical shape of [`GeminiResponse`].
#[verifier::ext_equal]
pub struct GeminiResponseView {
    pub candidates: Seq<CandidateView>,
    pub prompt_feedback: Option<PromptFeedbackView>,
    pub usage_metadata: Option<UsageMetadata>,
}

impl View for GeminiResponse {
    type V = GeminiResponseView;

    open spec fn view(&self) -> GeminiResponseView {
        GeminiResponseView {
            candidates: elems_view(self.candidates@),
            prompt_feedback: opt_view(self.prompt_feedback),
            usage_metadata: opt_view(self.usage_metadata),
        }
    }
}

/// Reads a response back out of a JSON value.  `candidates` is required;
/// feedback and usage are optional.
pub open spec fn gemini_response_of_json(j: JsonView) -> Option<GeminiResponseView> {
    match j {
        JsonView::Obj(fs) => {
            let candidates = match obj_get(fs, "candidates"@) {
                Some(JsonView::Arr(js)) => candidates_of_json(js),
                _ => None,
            };
            let prompt_feedback = match crate::json::opt_field(fs, "promptFeedback"@) {
                None => Some(None),
                Some(fj) => match prompt_feedback_of_json(fj) {
                    Some(f) => Some(Some(f)),
                    None => None,
                },
            };
            let usage_metadata = match crate::json::opt_field(fs, "usageMetadata"@) {
                None => Some(None),
                Some(uj) => match usage_metadata_of_json(uj) {
                    Some(u) => Some(Some(u)),
                    None => None,
                },
            };
            match (candidates, prompt_feedback, usage_metadata) {
                (Some(cs), Some(pf), Some(um)) => Some(
                    GeminiResponseView {
                        candidates: cs,
                        prompt_feedback: pf,
                        usage_metadata: um,
                    },
                ),
                _ => None,
            }
        },
        _ => None,
    }
}

impl GeminiResponse {
    /// Reads a response back out of a JSON object.
    pub fn from_json(j: &Json) -> (r: Option<GeminiResponse>)
        ensures
            match r {
                Some(g) => gemini_response_of_json(j@) == Some(g@),
                None => gemini_response_of_json(j@) is None,
            },
    {
        match j {
            Json::Obj(fields) => {
                let candidates: Vec<Candidate> = match json_obj_get(fields, "candidates") {
                    Some(Json::Arr(items)) => match candidates_from_json(items) {
                        Some(cs) => cs,
                        None => {
                            return None;
                        },
                    },
                    _ => {
                        return None;
                    },
                };
                let prompt_feedback: Option<PromptFeedback> = match json_obj_get(
                    fields,
                    "promptFeedback",
                ) {
                    None => None,
                    Some(Json::Null) => None,
                    Some(fj) => match PromptFeedback::from_json(fj) {
                        Some(f) => Some(f),
                        None => {
                            return None;
                        },
                    },
                };
                let usage_metadata: Option<UsageMetadata> = match json_obj_get(
                    fields,
                    "usageMetadata",
                ) {
                    None => None,
                    Some(Json::Null) => None,
                    Some(uj) => match UsageMetadata::from_json(uj) {
                        Some(u) => Some(u),
                        None => {
                            return None;
                        },
                    },
                };
                Some(GeminiResponse { candidates, prompt_feedback, usage_metadata })
            },
            _ => None,
        }
    }

    /// The billed character count of the response: every code point of
    /// every candidate part text, spaces excluded, saturating at the word
    /// range.
    pub fn get_response_character_count(&self) -> (r: usize)
        ensures
            r == crate::text::clamp_usize(candidates_text_units(elems_view(self.candidates@))),
    {
        let ghost cv = elems_view(self.candidates@);
        let mut acc: usize = 0;
        let n = self.candidates.len();
        let mut i: usize = 0;
        while i < n
            invariant
                n == self.candidates@.len(),
                i <= n,
                cv == elems_view(self.candidates@),
                cv.len() == n,
                acc == crate::text::clamp_usize(candidates_text_units(cv.take(i as int))),
            decreases n - i,
        {
            let units = super::parts_text_units_exec(&self.candidates[i].content.parts);
            assert(cv[i as int].content.parts == elems_view(
                self.candidates@[i as int].content.parts@,
            ));
            acc = crate::text::sat_add(acc, units);
            proof {
                assert(cv.take(i + 1 as int).drop_last() =~= cv.take(i as int));
                assert(cv.take(i + 1 as int).last() == cv[i as int]);
            }
            i = i + 1;
        }
        proof {
            assert(cv.take(n as int) =~= cv);
        }
        acc
    }
}

/// The billed characters of a candidate list.
pub open spec fn candidates_text_units(cs: Seq<CandidateView>) -> nat
    decreases cs.len(),
{
    if cs.len() == 0 {
        0
    } else {
        candidates_text_units(cs.drop_last()) + super::parts_text_units(cs.last().content.parts)
    }
}

/// The reason why the model stopped generating tokens.
#[derive(Debug, Clone, PartialEq, Eq, Structural)]
pub enum FinishReason {
    FinishReasonUnspecified,
    FinishReasonStop,
    FinishReasonMaxTokens,
    FinishReasonSafety,
    FinishReasonRecitation,
    FinishReasonOther,
}

/// The wire name of a finish reason.
pub open spec fn finish_reason_name(f: FinishReason) -> Seq<char> {
    match f {
        FinishReason::FinishReasonUnspecified => "FINISH_REASON_UNSPECIFIED"@,
        FinishReason::FinishReasonStop => "FINISH_REASON_STOP"@,
        FinishReason::FinishReasonMaxTokens => "FINISH_REASON_MAX_TOKENS"@,
        FinishReason::FinishReasonSafety => "FINISH_REASON_SAFETY"@,
        FinishReason::FinishReasonRecitation => "FINISH_REASON_RECITATION"@,
        FinishReason::FinishReasonOther => "FINISH_REASON_OTHER"@,
    }
}

/// The finish reason with the given wire name, if any.
pub open spec fn finish_reason_of_name(s: Seq<char>) -> Option<FinishReason> {
    if s == "FINISH_REASON_UNSPECIFIED"@ {
        Some(FinishReason::FinishReasonUnspecified)
    } else if s == "FINISH_REASON_STOP"@ {
        Some(FinishReason::FinishReasonStop)
    } else if s == "FINISH_REASON_MAX_TOKENS"@ {
        Some(FinishReason::FinishReasonMaxTokens)
    } else if s == "FINISH_REASON_SAFETY"@ {
        Some(FinishReason::FinishReasonSafety)
    } else if s == "FINISH_REASON_RECITATION"@ {
        Some(FinishReason::FinishReasonRecitation)
    } else if s == "FINISH_REASON_OTHER"@ {
        Some(FinishReason::FinishReasonOther)
    } else {
        None
    }
}

impl FinishReason {
    /// The finish reason with the given wire name.
    pub fn from_name(s: &str) -> (r: Option<FinishReason>)
        ensures
            r == finish_reason_of_name(s@),
    {
        if str_eq(s, "FINISH_REASON_UNSPECIFIED") {
            Some(FinishReason::FinishReasonUnspecified)
        } else if str_eq(s, "FINISH_REASON_STOP") {
            Some(FinishReason::FinishReasonStop)
        } else if str_eq(s, "FINISH_REASON_MAX_TOKENS") {
            Some(FinishReason::FinishReasonMaxTokens)
        } else if str_eq(s, "FINISH_REASON_SAFETY") {
            Some(FinishReason::FinishReasonSafety)
        } else if str_eq(s, "FINISH_REASON_RECITATION") {
            Some(FinishReason::FinishReasonRecitation)
        } else if str_eq(s, "FINISH_REASON_OTHER") {
            Some(FinishReason::FinishReasonOther)
        } else {
            None
        }
    }
}

} // verus!
