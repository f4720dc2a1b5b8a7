//! The earlier response data model.

use vstd::prelude::*;

verus! {

/// A role tag together with the parts it authored, as the earlier wire
/// format carried them.
#[derive(Debug, Clone)]
pub struct Content {
    pub parts: Option<Vec<Part>>,
    pub role: Role,
}

/// One text unit of a reply.
#[derive(Debug, Clone)]
pub struct Part {
    pub text: String,
}

/// The author of a piece of content: the caller or the model.
#[derive(Debug, Clone, PartialEq, Eq, Structural)]
pub enum Role {
    User,
    Model,
}

/// The reason why the model stopped generating tokens, as the earlier
/// wire format named them.
#[derive(Debug, Clone, PartialEq, Eq, Structural)]
pub enum FinishReason {
    FinishReasonUnspecified,
    FinishReasonLength,
    FinishReasonStopSequence,
    FinishReasonMaxTokens,
    FinishReasonTimeout,
    FinishReasonPromptSuggestion,
    FinishReasonEos,
    FinishReasonNumCandidates,
    FinishReasonUserInitiated,
    FinishReasonMaxChars,
    FinishReasonMaxExamples,
    FinishReasonMaxTime,
    FinishReasonMaxTokensPerExample,
    FinishReasonMaxTokensPerPass,
    FinishReasonMaxTokensTotal,
    FinishReasonMaxTokensPerResponse,
    FinishReasonMaxTokensPerPrompt,
    FinishReasonMaxTokensPerInput,
    FinishReasonMaxTokensPerInputPrefix,
    FinishReasonMaxTokensPerInputSuffix,
    FinishReasonMaxTokensPerInputPass,
    FinishReasonMaxTokensPerInputTotal,
    FinishReasonMaxTokensPerInputResponse,
    FinishReasonMaxTokensPerInputPrompt,
    FinishReasonMaxCharsPerExample,
    FinishReasonMaxCharsPerPass,
    FinishReasonMaxCharsTotal,
    FinishReasonMaxCharsPerResponse,
    FinishReasonMaxCharsPerPrompt,
    FinishReasonMaxCharsPerInput,
    FinishReasonMaxCharsPerInputPrefix,
    FinishReasonMaxCharsPerInputSuffix,
    FinishReasonMaxCharsPerInputPass,
    FinishReasonMaxCharsPerInputTotal,
    FinishReasonMaxCharsPerInputResponse,
    FinishReasonMaxCharsPerInputPrompt,
    FinishReasonMaxExamplesPerPass,
    FinishReasonMaxExamplesTotal,
    FinishReasonMaxExamplesPerResponse,
    FinishReasonMaxExamplesPerPrompt,
    FinishReasonMaxExamplesPerInput,
    FinishReasonMaxExamplesPerInputPrefix,
    FinishReasonMaxExamplesPerInputSuffix,
    FinishReasonMaxExamplesPerInputPass,
    FinishReasonMaxExamplesPerInputTotal,
    FinishReasonMaxExamplesPerInputResponse,
    FinishReasonMaxExamplesPerInputPrompt,
    FinishReasonMaxTimePerPass,
    FinishReasonMaxTimeTotal,
    FinishReasonMaxTimePerResponse,
    FinishReasonMaxTimePerPrompt,
    FinishReasonMaxTimePerInput,
    FinishReasonMaxTimePerInputPrefix,
    FinishReasonMaxTimePerInputSuffix,
    FinishReasonMaxTimePerInputPass,
    FinishReasonMaxTimePerInputTotal,
    FinishReasonMaxTimePerInputResponse,
    FinishReasonMaxTimePerInputPrompt,
    FinishReasonMaxPasses,
    FinishReasonMaxPassesPerResponse,
    FinishReasonMaxPassesPerPrompt,
    FinishReasonMaxPassesPerInput,
    FinishReasonMaxPass,
}

} // verus!
