//! The REST API binding: request URLs for the public endpoint, the client
//! value, and the mapping from HTTP outcomes to typed results and errors.

use vstd::prelude::*;

use crate::text::dec_chars;
use crate::text::u64_to_dec_string;
use crate::v1::errors::GoogleAPIError;
use crate::v1::gemini::model_name;
use crate::v1::gemini::response_type_suffix;
use crate::v1::gemini::Model;
use crate::v1::gemini::ResponseType;

verus! {

/// The public API endpoint every key-authenticated URL starts with.
pub open spec fn public_api_base_chars() -> Seq<char> {
    "https://generativelanguage.googleapis.com/v1"@
}

/// The base URL of the public API.
pub fn public_api_url_base() -> (r: String)
    ensures
        r@ == public_api_base_chars(),
{
    "https://generativelanguage.googleapis.com/v1".to_owned()
}

/// The public URL for an operation: the model path, the operation suffix
/// where one applies, and the API key as the `key` query parameter.
pub open spec fn public_url_chars(m: Model, key: Seq<char>, t: ResponseType) -> Seq<char> {
    match t {
        ResponseType::GetModelList => public_api_base_chars() + "/models?key="@ + key,
        ResponseType::GetModel => public_api_base_chars() + "/models/"@ + model_name(m)
            + "?key="@ + key,
        _ => public_api_base_chars() + "/models/"@ + model_name(m) + ":"@
            + response_type_suffix(t) + "?key="@ + key,
    }
}

/// A request URL.
#[derive(Debug, Clone)]
pub struct Url {
    pub url: String,
}

impl Url {
    /// Builds the public-endpoint URL for a model, key and operation kind.
    pub fn new(model: &Model, api_key: String, response_type: &ResponseType) -> (r: Url)
        ensures
            r.url@ == public_url_chars(*model, api_key@, *response_type),
    {
        let mut url = public_api_url_base();
        match response_type {
            ResponseType::GetModelList => {
                url.append("/models?key=");
                url.append(api_key.as_str());
            },
            ResponseType::GetModel => {
                url.append("/models/");
                let name = model.to_display_string();
                url.append(name.as_str());
                url.append("?key=");
                url.append(api_key.as_str());
            },
            _ => {
                url.append("/models/");
                let name = model.to_display_string();
                url.append(name.as_str());
                url.append(":");
                let suffix = response_type.to_display_string();
                url.append(suffix.as_str());
                url.append("?key=");
                url.append(api_key.as_str());
            },
        }
        proof {
            assert(url@ =~= public_url_chars(*model, api_key@, *response_type));
        }
        Url { url }
    }
}

/// Manages one API connection: its resolved URL, model, addressing mode
/// and operation kind.
#[derive(Debug, Clone)]
pub struct Client {
    pub url: String,
    pub model: Model,
    pub region: Option<String>,
    pub project_id: Option<String>,
    pub response_type: ResponseType,
}

impl Client {
    /// A public client for the default model and a generate call.
    pub fn new(api_key: String) -> (r: Client)
        ensures
            r.url@ == public_url_chars(Model::GeminiPro, api_key@, ResponseType::GenerateContent),
            r.model == Model::GeminiPro,
            r.region is None,
            r.project_id is None,
            r.response_type == ResponseType::GenerateContent,
    {
        let url = Url::new(&Model::default(), api_key, &ResponseType::GenerateContent);
        Client {
            url: url.url,
            model: Model::default(),
            region: None,
            project_id: None,
            response_type: ResponseType::GenerateContent,
        }
    }

    /// A public client for the default model and a chosen operation kind.
    pub fn new_from_response_type(response_type: ResponseType, api_key: String) -> (r: Client)
        ensures
            r.url@ == public_url_chars(Model::GeminiPro, api_key@, response_type),
            r.model == Model::GeminiPro,
            r.region is None,
            r.project_id is None,
            r.response_type == response_type,
    {
        let url = Url::new(&Model::default(), api_key, &response_type);
        Client {
            url: url.url,
            model: Model::default(),
            region: None,
            project_id: None,
            response_type,
        }
    }

    /// A public client for a chosen model and a generate call.
    pub fn new_from_model(model: Model, api_key: String) -> (r: Client)
        ensures
            r.url@ == public_url_chars(model, api_key@, ResponseType::GenerateContent),
            r.model == model,
            r.region is None,
            r.project_id is None,
            r.response_type == ResponseType::GenerateContent,
    {
        let url = Url::new(&model, api_key, &ResponseType::GenerateContent);
        Client {
            url: url.url,
            model,
            region: None,
            project_id: None,
            response_type: ResponseType::GenerateContent,
        }
    }

    /// A public client for a chosen model and operation kind.
    pub fn new_from_model_response_type(
        model: Model,
        api_key: String,
        response_type: ResponseType,
    ) -> (r: Client)
        ensures
            r.url@ == public_url_chars(model, api_key@, response_type),
            r.model == model,
            r.region is None,
            r.project_id is None,
            r.response_type == response_type,
    {
        let url = Url::new(&model, api_key, &response_type);
        Client { url: url.url, model, region: None, project_id: None, response_type }
    }
}

/// Relies on `reqwest::StatusCode::canonical_reason`: a fixed table from
/// code to reason phrase, the same on every machine.
pub uninterp spec fn reason_phrase_of(code: int) -> Option<Seq<char>>;

/// Relies on `reqwest::StatusCode::canonical_reason` (the argument is
/// converted with `from_u16`): the canonical reason phrase of a status
/// code, where the table has one.
#[verifier::external_body]
fn canonical_reason_text(code: u16) -> (r: Option<String>)
    ensures
        match r {
            Some(s) => reason_phrase_of(code as int) == Some(s@),
            None => reason_phrase_of(code as int) is None,
        },
{
    match reqwest::StatusCode::from_u16(code) {
        Ok(status) => status.canonical_reason().map(|s| s.to_owned()),
        Err(_) => None,
    }
}

/// The message of a status error: the code in decimal and its reason
/// phrase, or a fixed phrase for a code the table does not know.
pub open spec fn status_error_message_chars(code: u16) -> Seq<char> {
    "HTTP Error: "@ + dec_chars(code as nat) + ": "@ + (match reason_phrase_of(code as int) {
        Some(p) => p,
        None => "Unknown Status"@,
    })
}

impl Client {
    /// The error for a non-success HTTP status: it carries the code it was
    /// given, and its message names that code and is never empty.
    pub fn new_error_from_status_code(&self, code: u16) -> (r: GoogleAPIError)
        ensures
            r.code == Some(code),
            r.message@ == status_error_message_chars(code),
            r.message@.len() > 0,
    {
        let mut message = String::new();
        message.append("HTTP Error: ");
        let d = u64_to_dec_string(code as u64);
        message.append(d.as_str());
        message.append(": ");
        match canonical_reason_text(code) {
            Some(p) => {
                message.append(p.as_str());
            },
            None => {
                message.append("Unknown Status");
            },
        }
        proof {
            assert(message@ =~= status_error_message_chars(code));
            reveal_strlit("HTTP Error: ");
            assert("HTTP Error: "@.len() == 12);
        }
        GoogleAPIError { message, code: Some(code) }
    }
}

/// Everything up to the first `?` of a URL: the query, and any secret in
/// it, is cut off.
pub open spec fn strip_query_chars(s: Seq<char>) -> Seq<char>
    decreases s.len(),
{
    if s.len() == 0 {
        s
    } else if s[0] == '?' {
        Seq::empty()
    } else {
        seq![s[0]] + strip_query_chars(s.drop_first())
    }
}

/// The stripped URL is a prefix of the original and holds no `?`.
pub proof fn lemma_strip_query_chars(s: Seq<char>)
    ensures
        strip_query_chars(s).len() <= s.len(),
        strip_query_chars(s) == s.take(strip_query_chars(s).len() as int),
        forall|i: int|
            0 <= i < strip_query_chars(s).len() ==> #[trigger] strip_query_chars(s)[i] != '?',
    decreases s.len(),
{
    if s.len() > 0 && s[0] != '?' {
        lemma_strip_query_chars(s.drop_first());
        let r = strip_query_chars(s);
        let rest = strip_query_chars(s.drop_first());
        assert(r =~= seq![s[0]] + rest);
        assert(r == s.take(r.len() as int)) by {
            assert(rest == s.drop_first().take(rest.len() as int));
            assert(r =~= s.take(r.len() as int));
        }
    }
}

/// Cuts the query, and any secret in it, off a URL.
pub fn strip_query(url: &str) -> (r: String)
    ensures
        r@ == strip_query_chars(url@),
{
    let chars = crate::text::str_to_chars(url);
    let n = chars.len();
    let mut i: usize = 0;
    let mut out: Vec<char> = Vec::new();
    while i < n && chars[i] != '?'
        invariant
            n == chars@.len(),
            chars@ == url@,
            i <= n,
            out@.len() == i,
            forall|k: int| 0 <= k < i ==> #[trigger] out@[k] == url@[k],
            forall|k: int| 0 <= k < i ==> #[trigger] url@[k] != '?',
        decreases n - i,
    {
        out.push(chars[i]);
        i = i + 1;
    }
    proof {
        lemma_strip_query_prefix(url@, out@);
    }
    crate::text::chars_to_string(&out)
}

/// A `?`-free prefix that either spans the whole text or stops at a `?`
/// is exactly the stripped text.
proof fn lemma_strip_query_prefix(s: Seq<char>, p: Seq<char>)
    requires
        p.len() <= s.len(),
        forall|k: int| 0 <= k < p.len() ==> #[trigger] p[k] == s[k],
        forall|k: int| 0 <= k < p.len() ==> #[trigger] s[k] != '?',
        p.len() < s.len() ==> s[p.len() as int] == '?',
    ensures
        strip_query_chars(s) == p,
    decreases s.len(),
{
    if s.len() == 0 {
        assert(p =~= strip_query_chars(s));
    } else if p.len() == 0 {
        assert(s[0] == '?');
        assert(strip_query_chars(s) =~= p);
    } else {
        assert(p[0] == s[0] && s[0] != '?');
        let p2 = p.drop_first();
        let s2 = s.drop_first();
        assert forall|k: int| 0 <= k < p2.len() implies #[trigger] p2[k] == s2[k] by {
            assert(p2[k] == p[k + 1]);
            assert(s2[k] == s[k + 1]);
        }
        assert forall|k: int| 0 <= k < p2.len() implies #[trigger] s2[k] != '?' by {
            assert(s2[k] == s[k + 1]);
            assert(p[k + 1] == s[k + 1]);
        }
        assert(p2.len() < s2.len() ==> s2[p2.len() as int] == '?') by {
            if p2.len() < s2.len() {
                assert(s2[p2.len() as int] == s[p.len() as int]);
            }
        }
        lemma_strip_query_prefix(s2, p2);
        assert(strip_query_chars(s) =~= seq![s[0]] + strip_query_chars(s2));
        assert(strip_query_chars(s) =~= p);
    }
}


/// Reads a complete body as one response object.
pub open spec fn parsed_response(s: Seq<char>) -> Option<
    crate::v1::gemini::response::GeminiResponseView,
> {
    match crate::json::parse::parse_text(s) {
        Some(j) => crate::v1::gemini::response::gemini_response_of_json(j),
        None => None,
    }
}

/// Reads a complete body as one token count.
pub open spec fn parsed_token_count(s: Seq<char>) -> Option<int> {
    match crate::json::parse::parse_text(s) {
        Some(j) => crate::v1::gemini::response::token_count_of_json(j),
        None => None,
    }
}

/// Reads a complete body as one model record.
pub open spec fn parsed_model(s: Seq<char>) -> Option<crate::v1::gemini::ModelInformationView> {
    match crate::json::parse::parse_text(s) {
        Some(j) => crate::v1::gemini::model_information_of_json(j),
        None => None,
    }
}

/// Reads a complete body as the model list record.
pub open spec fn parsed_model_list(s: Seq<char>) -> Option<
    crate::v1::gemini::ModelInformationListView,
> {
    match crate::json::parse::parse_text(s) {
        Some(j) => crate::v1::gemini::model_information_list_of_json(j),
        None => None,
    }
}

/// A status code in the success class.
pub open spec fn is_success(code: u16) -> bool {
    200 <= code < 300
}

/// True when the status code is in the success class.
pub fn is_success_status(code: u16) -> (r: bool)
    ensures
        r == is_success(code),
{
    200 <= code && code < 300
}

/// The message of a deserialization error for a response object.
pub open spec fn deser_response_message() -> Seq<char> {
    "Failed to deserialize API response into v1::gemini::response::GeminiResponse"@
}

/// The message of a deserialization error for a token count.
pub open spec fn deser_token_count_message() -> Seq<char> {
    "Failed to deserialize API response into v1::gemini::response::TokenCount"@
}

/// The message of a deserialization error for a model record.
pub open spec fn deser_model_message() -> Seq<char> {
    "Failed to deserialize API response into v1::gemini::ModelInformation"@
}

/// The message of a deserialization error for the model list.
pub open spec fn deser_model_list_message() -> Seq<char> {
    "Failed to deserialize API response into v1::gemini::ModelInformationList"@
}

/// The name under which an operation kind appears in diagnostics.
pub open spec fn response_type_diag_name(t: ResponseType) -> Seq<char> {
    match t {
        ResponseType::GenerateContent => "GenerateContent"@,
        ResponseType::StreamGenerateContent => "StreamGenerateContent"@,
        ResponseType::GetModel => "GetModel"@,
        ResponseType::GetModelList => "GetModelList"@,
        ResponseType::CountTokens => "CountTokens"@,
        ResponseType::EmbedContent => "EmbedContent"@,
        ResponseType::BatchEmbedContents => "BatchEmbedContents"@,
    }
}

/// The message of an unsupported-operation error.
pub open spec fn unsupported_message_chars(t: ResponseType) -> Seq<char> {
    "Unsupported response type: "@ + response_type_diag_name(t)
}

/// A streamed or non-streamed result of a post call.
#[derive(Debug)]
pub enum PostResult {
    Rest(crate::v1::gemini::response::GeminiResponse),
    Streamed(crate::v1::stream::StreamedGeminiResponse),
    Count(crate::v1::gemini::response::TokenCount),
}

impl PostResult {
    /// The single-shot response, if this result is one.
    pub fn rest(self) -> (r: Option<crate::v1::gemini::response::GeminiResponse>)
        ensures
            match self {
                PostResult::Rest(g) => r == Some(g),
                _ => r is None,
            },
    {
        match self {
            PostResult::Rest(response) => Some(response),
            _ => None,
        }
    }

    /// The streamed response, if this result is one.
    pub fn streamed(self) -> (r: Option<crate::v1::stream::StreamedGeminiResponse>)
        ensures
            match self {
                PostResult::Streamed(s) => r is Some,
                _ => r is None,
            },
    {
        match self {
            PostResult::Streamed(streamed_response) => Some(streamed_response),
            _ => None,
        }
    }

    /// The token count, if this result is one.
    pub fn count(self) -> (r: Option<crate::v1::gemini::response::TokenCount>)
        ensures
            match self {
                PostResult::Count(c) => r == Some(c),
                _ => r is None,
            },
    {
        match self {
            PostResult::Count(response) => Some(response),
            _ => None,
        }
    }
}

impl Client {
    /// Builds the deserialization error naming the target type.
    fn deser_error(&self, message: &str) -> (r: GoogleAPIError)
        ensures
            r.code is None,
            r.message@ == message@,
    {
        GoogleAPIError { message: message.to_owned(), code: None }
    }

    /// The error for an operation kind this client does not post.
    pub fn new_unsupported_operation_error(&self) -> (r: GoogleAPIError)
        ensures
            r.code is None,
            r.message@ == unsupported_message_chars(self.response_type),
    {
        let mut message = String::new();
        message.append("Unsupported response type: ");
        let name: &str = match self.response_type {
            ResponseType::GenerateContent => "GenerateContent",
            ResponseType::StreamGenerateContent => "StreamGenerateContent",
            ResponseType::GetModel => "GetModel",
            ResponseType::GetModelList => "GetModelList",
            ResponseType::CountTokens => "CountTokens",
            ResponseType::EmbedContent => "EmbedContent",
            ResponseType::BatchEmbedContents => "BatchEmbedContents",
        };
        message.append(name);
        proof {
            assert(message@ =~= unsupported_message_chars(self.response_type));
        }
        GoogleAPIError { message, code: None }
    }

    /// Dispatches one completed HTTP exchange: on success the body is
    /// decoded as the result the configured operation kind calls for; a
    /// non-success status becomes a status error; a body that does not
    /// match the schema becomes a deserialization error; an operation
    /// kind the post path does not implement becomes an
    /// unsupported-operation error.
    pub fn process_post_response(&self, status: u16, body: &str) -> (r: Result<
        PostResult,
        GoogleAPIError,
    >)
        ensures
            match self.response_type {
                ResponseType::GenerateContent => match r {
                    Ok(PostResult::Rest(g)) => is_success(status) && parsed_response(body@)
                        == Some(g@),
                    Err(e) => if !is_success(status) {
                        e.code == Some(status) && e.message@ == status_error_message_chars(status)
                    } else {
                        e.code is None && e.message@ == deser_response_message()
                            && parsed_response(body@) is None
                    },
                    _ => false,
                },
                ResponseType::CountTokens => match r {
                    Ok(PostResult::Count(c)) => is_success(status) && parsed_token_count(body@)
                        == Some(c.total_tokens as int),
                    Err(e) => if !is_success(status) {
                        e.code == Some(status) && e.message@ == status_error_message_chars(status)
                    } else {
                        e.code is None && e.message@ == deser_token_count_message()
                            && parsed_token_count(body@) is None
                    },
                    _ => false,
                },
                ResponseType::StreamGenerateContent => match r {
                    Ok(PostResult::Streamed(s)) => is_success(status) && s.phase
                        == crate::v1::stream::StreamPhase::Start && s.buf@ == body@,
                    Err(e) => !is_success(status) && e.code == Some(status) && e.message@
                        == status_error_message_chars(status),
                    _ => false,
                },
                _ => match r {
                    Err(e) => e.code is None && e.message@ == unsupported_message_chars(
                        self.response_type,
                    ),
                    _ => false,
                },
            },
    {
        match self.response_type {
            ResponseType::GenerateContent => {
                if !is_success_status(status) {
                    return Err(self.new_error_from_status_code(status));
                }
                let parsed = match crate::json::Json::parse_text_str(body) {
                    Some(v) => crate::v1::gemini::response::GeminiResponse::from_json(&v),
                    None => None,
                };
                match parsed {
                    Some(g) => Ok(PostResult::Rest(g)),
                    None => Err(
                        self.deser_error(
                            "Failed to deserialize API response into v1::gemini::response::GeminiResponse",
                        ),
                    ),
                }
            },
            ResponseType::CountTokens => {
                if !is_success_status(status) {
                    return Err(self.new_error_from_status_code(status));
                }
                let parsed = match crate::json::Json::parse_text_str(body) {
                    Some(v) => crate::v1::gemini::response::TokenCount::from_json(&v),
                    None => None,
                };
                match parsed {
                    Some(c) => Ok(PostResult::Count(c)),
                    None => Err(
                        self.deser_error(
                            "Failed to deserialize API response into v1::gemini::response::TokenCount",
                        ),
                    ),
                }
            },
            ResponseType::StreamGenerateContent => {
                if !is_success_status(status) {
                    return Err(self.new_error_from_status_code(status));
                }
                let mut stream = crate::v1::stream::StreamedGeminiResponse::new_stream();
                stream.push_chunk(body);
                Ok(PostResult::Streamed(stream))
            },
            _ => Err(self.new_unsupported_operation_error()),
        }
    }

    /// Validates the status of a streamed exchange and opens an empty
    /// decoder for its body.
    pub fn start_streamed_response(&self, status: u16) -> (r: Result<
        crate::v1::stream::StreamedGeminiResponse,
        GoogleAPIError,
    >)
        ensures
            match r {
                Ok(s) => is_success(status) && s.phase == crate::v1::stream::StreamPhase::Start
                    && s.buf@ == Seq::<char>::empty(),
                Err(e) => !is_success(status) && e.code == Some(status) && e.message@
                    == status_error_message_chars(status),
            },
    {
        if is_success_status(status) {
            Ok(crate::v1::stream::StreamedGeminiResponse::new_stream())
        } else {
            Err(self.new_error_from_status_code(status))
        }
    }

    /// Decodes one completed model-information exchange.
    pub fn process_get_model_response(&self, status: u16, body: &str) -> (r: Result<
        crate::v1::gemini::ModelInformation,
        GoogleAPIError,
    >)
        ensures
            match r {
                Ok(m) => is_success(status) && parsed_model(body@) == Some(m@),
                Err(e) => if !is_success(status) {
                    e.code == Some(status) && e.message@ == status_error_message_chars(status)
                } else {
                    e.code is None && e.message@ == deser_model_message() && parsed_model(
                        body@,
                    ) is None
                },
            },
    {
        if !is_success_status(status) {
            return Err(self.new_error_from_status_code(status));
        }
        let parsed = match crate::json::Json::parse_text_str(body) {
            Some(v) => crate::v1::gemini::ModelInformation::from_json(&v),
            None => None,
        };
        match parsed {
            Some(m) => Ok(m),
            None => Err(
                self.deser_error("Failed to deserialize API response into v1::gemini::ModelInformation"),
            ),
        }
    }

    /// Decodes one completed model-list exchange.
    pub fn process_get_model_list_response(&self, status: u16, body: &str) -> (r: Result<
        crate::v1::gemini::ModelInformationList,
        GoogleAPIError,
    >)
        ensures
            match r {
                Ok(l) => is_success(status) && parsed_model_list(body@) == Some(l@),
                Err(e) => if !is_success(status) {
                    e.code == Some(status) && e.message@ == status_error_message_chars(status)
                } else {
                    e.code is None && e.message@ == deser_model_list_message()
                        && parsed_model_list(body@) is None
                },
            },
    {
        if !is_success_status(status) {
            return Err(self.new_error_from_status_code(status));
        }
        let parsed = match crate::json::Json::parse_text_str(body) {
            Some(v) => crate::v1::gemini::ModelInformationList::from_json(&v),
            None => None,
        };
        match parsed {
            Some(l) => Ok(l),
            None => Err(
                self.deser_error(
                    "Failed to deserialize API response into v1::gemini::ModelInformationList",
                ),
            ),
        }
    }
}

} // verus!
