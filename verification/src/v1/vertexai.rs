//! The private (Vertex AI) addressing mode: project- and region-scoped
//! URLs, the client constructors for them, and the secret-free textual
//! rendering of a client.

use vstd::prelude::*;

use crate::opt_view;
use crate::v1::api::public_url_chars;
use crate::v1::api::Client;
use crate::v1::api::Url;
use crate::v1::gemini::model_name;
use crate::v1::gemini::response_type_suffix;
use crate::v1::gemini::Model;
use crate::v1::gemini::ResponseType;

verus! {

/// The private URL for an operation: region-scoped host, project and
/// region in the path, and no key anywhere.
pub open spec fn vertex_url_chars(
    m: Model,
    region: Seq<char>,
    project_id: Seq<char>,
    t: ResponseType,
) -> Seq<char> {
    "https://"@ + region + "-aiplatform.googleapis.com/v1"@ + "/projects/"@ + project_id
        + "/locations/"@ + region + "/publishers/google/models/"@ + model_name(m) + ":"@
        + response_type_suffix(t)
}

/// The host template of the private endpoint, with the region still to be
/// filled in.
pub fn vertex_ai_api_url_base() -> (r: String)
    ensures
        r@ == "https://{region}-aiplatform.googleapis.com/v1"@,
{
    "https://{region}-aiplatform.googleapis.com/v1".to_owned()
}

/// The scope the private endpoint's bearer token is requested for.
pub fn gcp_api_auth_scope() -> (r: String)
    ensures
        r@ == "https://www.googleapis.com/auth/cloud-platform"@,
{
    "https://www.googleapis.com/auth/cloud-platform".to_owned()
}

impl Url {
    /// Builds the private-endpoint URL for a model, region, project and
    /// operation kind.
    pub fn new_from_region_project_id(
        model: &Model,
        region: String,
        project_id: String,
        response_type: &ResponseType,
    ) -> (r: Url)
        ensures
            r.url@ == vertex_url_chars(*model, region@, project_id@, *response_type),
    {
        let mut url = String::new();
        url.append("https://");
        url.append(region.as_str());
        url.append("-aiplatform.googleapis.com/v1");
        url.append("/projects/");
        url.append(project_id.as_str());
        url.append("/locations/");
        url.append(region.as_str());
        url.append("/publishers/google/models/");
        let name = model.to_display_string();
        url.append(name.as_str());
        url.append(":");
        let suffix = response_type.to_display_string();
        url.append(suffix.as_str());
        proof {
            assert(url@ =~= vertex_url_chars(*model, region@, project_id@, *response_type));
        }
        Url { url }
    }
}

impl Client {
    /// A private client for the default model and a streamed generate
    /// call.
    pub fn new_from_region_project_id(region: String, project_id: String) -> (r: Client)
        ensures
            r.url@ == vertex_url_chars(
                Model::GeminiPro,
                region@,
                project_id@,
                ResponseType::StreamGenerateContent,
            ),
            r.model == Model::GeminiPro,
            opt_view(r.region) == Some(region@),
            opt_view(r.project_id) == Some(project_id@),
            r.response_type == ResponseType::StreamGenerateContent,
    {
        Client::new_from_region_project_id_response_type(
            region,
            project_id,
            ResponseType::StreamGenerateContent,
        )
    }

    /// A private client for the default model and a chosen operation kind.
    pub fn new_from_region_project_id_response_type(
        region: String,
        project_id: String,
        response_type: ResponseType,
    ) -> (r: Client)
        ensures
            r.url@ == vertex_url_chars(Model::GeminiPro, region@, project_id@, response_type),
            r.model == Model::GeminiPro,
            opt_view(r.region) == Some(region@),
            opt_view(r.project_id) == Some(project_id@),
            r.response_type == response_type,
    {
        let url = Url::new_from_region_project_id(
            &Model::default(),
            region.clone(),
            project_id.clone(),
            &response_type,
        );
        Client {
            url: url.url,
            model: Model::default(),
            region: Some(region),
            project_id: Some(project_id),
            response_type,
        }
    }

    /// A private client for a chosen model and a streamed generate call.
    pub fn new_from_model_region_project_id(
        model: Model,
        region: String,
        project_id: String,
    ) -> (r: Client)
        ensures
            r.url@ == vertex_url_chars(
                model,
                region@,
                project_id@,
                ResponseType::StreamGenerateContent,
            ),
            r.model == model,
            opt_view(r.region) == Some(region@),
            opt_view(r.project_id) == Some(project_id@),
            r.response_type == ResponseType::StreamGenerateContent,
    {
        let url = Url::new_from_region_project_id(
            &model,
            region.clone(),
            project_id.clone(),
            &ResponseType::StreamGenerateContent,
        );
        Client {
            url: url.url,
            model,
            region: Some(region),
            project_id: Some(project_id),
            response_type: ResponseType::StreamGenerateContent,
        }
    }
}

/// The placeholder shown in place of an API key.
pub open spec fn redacted_key_chars() -> Seq<char> {
    "*************"@
}

/// An optional text, quoted, as the rendering shows it.
pub open spec fn opt_quoted_chars(o: Option<Seq<char>>) -> Seq<char> {
    match o {
        Some(s) => "Some(\""@ + s + "\")"@,
        None => "None"@,
    }
}

/// The textual rendering of a client.  For a private client the stored
/// URL is shown: it was built from region, project and model alone.  For
/// a public client the stored URL holds the API key, so the rendering
/// shows a URL rebuilt around the redaction placeholder instead: the key
/// is not an input of this function's public branch at all.
pub open spec fn client_display_chars(c: Client) -> Seq<char> {
    if c.region is Some && c.project_id is Some {
        "GenerativeAiClient { url: \""@ + c.url@ + "\", model: "@ + model_name(c.model)
            + ", region: "@ + opt_quoted_chars(opt_view(c.region)) + ", project_id: "@
            + opt_quoted_chars(opt_view(c.project_id)) + " }"@
    } else {
        "GenerativeAiClient { url: \""@ + public_url_chars(
            c.model,
            redacted_key_chars(),
            c.response_type,
        ) + "\", model: "@ + model_name(c.model) + ", region: "@ + opt_quoted_chars(
            opt_view(c.region),
        ) + ", project_id: "@ + opt_quoted_chars(opt_view(c.project_id)) + " }"@
    }
}

/// Appends the quoted form of an optional text.
fn append_opt_quoted(out: &mut String, o: &Option<String>)
    ensures
        final(out)@ == old(out)@ + opt_quoted_chars(opt_view(*o)),
{
    match o {
        Some(s) => {
            out.append("Some(\"");
            out.append(s.as_str());
            out.append("\")");
            proof {
                assert(out@ =~= old(out)@ + opt_quoted_chars(opt_view(*o)));
            }
        },
        None => {
            out.append("None");
            proof {
                assert(out@ =~= old(out)@ + opt_quoted_chars(opt_view(*o)));
            }
        },
    }
}

impl Client {
    /// Renders this client for humans without leaking a secret: a public
    /// client's URL is rebuilt around the redaction placeholder, so the
    /// API key never reaches the output.
    pub fn to_display_string(&self) -> (r: String)
        ensures
            r@ == client_display_chars(*self),
    {
        let mut out = String::new();
        out.append("GenerativeAiClient { url: \"");
        if self.region.is_some() && self.project_id.is_some() {
            out.append(self.url.as_str());
        } else {
            let redacted = Url::new(&self.model, "*************".to_owned(), &self.response_type);
            out.append(redacted.url.as_str());
        }
        out.append("\", model: ");
        let name = self.model.to_display_string();
        out.append(name.as_str());
        out.append(", region: ");
        append_opt_quoted(&mut out, &self.region);
        out.append(", project_id: ");
        append_opt_quoted(&mut out, &self.project_id);
        out.append(" }");
        proof {
            assert(out@ =~= client_display_chars(*self));
        }
        out
    }
}

/// The rendering of a public client is the same whatever URL the client
/// carries: the API key, which lives only inside that URL, cannot reach
/// the output.
pub proof fn lemma_public_display_is_key_free(c1: Client, c2: Client)
    requires
        c1.region is None || c1.project_id is None,
        c1.model == c2.model,
        opt_view(c1.region) == opt_view(c2.region),
        opt_view(c1.project_id) == opt_view(c2.project_id),
        c1.response_type == c2.response_type,
    ensures
        client_display_chars(c1) == client_display_chars(c2),
{
    assert(c2.region is None || c2.project_id is None);
}

} // verus!
