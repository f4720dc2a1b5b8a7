//! The shared text-interaction data model: roles, parts and contents, the
//! model and operation-kind enums, and model information records.

use vstd::prelude::*;

pub mod request;
pub mod response;
pub mod safety;

use crate::elems_view;
use crate::json::json_fields_view;
use crate::json::json_obj_get;
use crate::json::json_seq_view;
use crate::json::lemma_json_seq_view;
use crate::json::obj_get;
use crate::json::opt_field;
use crate::json::opt_str_field;
use crate::json::push_field;
use crate::json::str_field;
use crate::json::Json;
use crate::json::JsonView;
use crate::opt_view;
use crate::text::str_eq;
use self::request::file_data_of_json;
use self::request::file_data_to_json;
use self::request::inline_data_of_json;
use self::request::inline_data_to_json;
use self::request::lemma_file_data_round_trip;
use self::request::lemma_inline_data_round_trip;
use self::request::lemma_video_metadata_round_trip;
use self::request::video_metadata_of_json;
use self::request::video_metadata_to_json;
use self::request::FileData;
use self::request::FileDataView;
use self::request::InlineData;
use self::request::InlineDataView;
use self::request::VideoMetadata;
use self::request::VideoMetadataView;

verus! {

/// The type of response expected from the API; its wire name ends the
/// request URL.
#[derive(Debug, Clone, PartialEq, Eq, Structural)]
pub enum ResponseType {
    GenerateContent,
    StreamGenerateContent,
    GetModel,
    GetModelList,
    CountTokens,
    EmbedContent,
    BatchEmbedContents,
}

impl Default for ResponseType {
    /// The default operation kind is a single-shot generate call.
    fn default() -> (r: ResponseType)
        ensures
            r == ResponseType::GenerateContent,
    {
        ResponseType::GenerateContent
    }
}

/// The URL suffix of an operation kind.  Getting a model or the model list
/// has no suffix: the bare model URL is the endpoint.
pub open spec fn response_type_suffix(t: ResponseType) -> Seq<char> {
    match t {
        ResponseType::GenerateContent => "generateContent"@,
        ResponseType::StreamGenerateContent => "streamGenerateContent"@,
        ResponseType::GetModel => ""@,
        ResponseType::GetModelList => ""@,
        ResponseType::CountTokens => "countTokens"@,
        ResponseType::EmbedContent => "embedContent"@,
        ResponseType::BatchEmbedContents => "batchEmbedContents"@,
    }
}

impl ResponseType {
    /// The URL suffix of this operation kind.
    pub fn to_display_string(&self) -> (r: String)
        ensures
            r@ == response_type_suffix(*self),
    {
        match self {
            ResponseType::GenerateContent => "generateContent".to_owned(),
            ResponseType::StreamGenerateContent => "streamGenerateContent".to_owned(),
            ResponseType::GetModel => "".to_owned(),
            ResponseType::GetModelList => "".to_owned(),
            ResponseType::CountTokens => "countTokens".to_owned(),
            ResponseType::EmbedContent => "embedContent".to_owned(),
            ResponseType::BatchEmbedContents => "batchEmbedContents".to_owned(),
        }
    }
}

/// A specific Google generative model.
#[derive(Debug, Clone, PartialEq, Eq, Structural)]
pub enum Model {
    GeminiPro,
    Gemini1_5Pro,
    GeminiProVision,
}

impl Default for Model {
    /// The default model.
    fn default() -> (r: Model)
        ensures
            r == Model::GeminiPro,
    {
        Model::GeminiPro
    }
}

/// The name under which a model appears in request URLs.
pub open spec fn model_name(m: Model) -> Seq<char> {
    match m {
        Model::GeminiPro => "gemini-pro"@,
        Model::Gemini1_5Pro => "gemini-1.5-pro-latest"@,
        Model::GeminiProVision => "gemini-pro-vision"@,
    }
}

impl Model {
    /// The URL name of this model.
    pub fn to_display_string(&self) -> (r: String)
        ensures
            r@ == model_name(*self),
    {
        match self {
            Model::GeminiPro => "gemini-pro".to_owned(),
            Model::Gemini1_5Pro => "gemini-1.5-pro-latest".to_owned(),
            Model::GeminiProVision => "gemini-pro-vision".to_owned(),
        }
    }
}

/// The author of a piece of content: the caller or the model.
#[derive(Debug, Clone, PartialEq, Eq, Structural)]
pub enum Role {
    User,
    Model,
}

/// The wire name of a role.
pub open spec fn role_name(r: Role) -> Seq<char> {
    match r {
        Role::User => "user"@,
        Role::Model => "model"@,
    }
}

/// The role with the given wire name, if any.
pub open spec fn role_of_name(s: Seq<char>) -> Option<Role> {
    if s == "user"@ {
        Some(Role::User)
    } else if s == "model"@ {
        Some(Role::Model)
    } else {
        None
    }
}

impl Role {
    /// The wire name of this role.
    pub fn to_name(&self) -> (r: String)
        ensures
            r@ == role_name(*self),
    {
        match self {
            Role::User => "user".to_owned(),
            Role::Model => "model".to_owned(),
        }
    }

    /// The role with the given wire name.
    pub fn from_name(s: &str) -> (r: Option<Role>)
        ensures
            r == role_of_name(s@),
    {
        if str_eq(s, "user") {
            Some(Role::User)
        } else if str_eq(s, "model") {
            Some(Role::Model)
        } else {
            None
        }
    }
}

/// Every role is recovered from its own wire name.
pub proof fn lemma_role_name_round_trip(r: Role)
    ensures
        role_of_name(role_name(r)) == Some(r),
{
    reveal_strlit("user");
    reveal_strlit("model");
    assert("user"@.len() == 4);
    assert("model"@.len() == 5);
    match r {
        Role::User => {
            assert(role_of_name(role_name(r)) == Some(r));
        },
        Role::Model => {
            assert(role_of_name(role_name(r)) == Some(r));
        },
    }
}

/// One unit of a content: exactly one of the four payload forms should be
/// populated.
#[derive(Debug, Clone)]
pub struct Part {
    pub text: Option<String>,
    pub inline_data: Option<InlineData>,
    pub file_data: Option<FileData>,
    pub video_metadata: Option<VideoMetadata>,
}

/// The mathematical shape of [`Part`].
#[verifier::ext_equal]
pub struct PartView {
    pub text: Option<Seq<char>>,
    pub inline_data: Option<InlineDataView>,
    pub file_data: Option<FileDataView>,
    pub video_metadata: Option<VideoMetadataView>,
}

impl View for Part {
    type V = PartView;

    open spec fn view(&self) -> PartView {
        PartView {
            text: opt_view(self.text),
            inline_data: opt_view(self.inline_data),
            file_data: opt_view(self.file_data),
            video_metadata: opt_view(self.video_metadata),
        }
    }
}

/// A part whose nested integers fit the wire types.
pub open spec fn part_view_wf(p: PartView) -> bool {
    match p.video_metadata {
        Some(vm) => request::video_metadata_view_wf(vm),
        None => true,
    }
}

/// True when at most one of the four payload forms is populated.
pub open spec fn part_is_union(p: PartView) -> bool {
    let populated = (if p.text is Some { 1int } else { 0int })
        + (if p.inline_data is Some { 1int } else { 0int })
        + (if p.file_data is Some { 1int } else { 0int })
        + (if p.video_metadata is Some { 1int } else { 0int });
    populated <= 1
}

/// The JSON object for a part: one key per populated payload form, in the
/// order text, inlineData, fileData, videoMetadata; absent forms contribute
/// no key at all.
pub open spec fn part_to_json(p: PartView) -> JsonView {
    JsonView::Obj(part_json_fields(p))
}

/// The field list of [`part_to_json`].
pub open spec fn part_json_fields(p: PartView) -> Seq<(Seq<char>, JsonView)> {
    (match p.text {
        Some(t) => seq![("text"@, JsonView::Str(t))],
        None => Seq::empty(),
    }) + (match p.inline_data {
        Some(d) => seq![("inlineData"@, inline_data_to_json(d))],
        None => Seq::empty(),
    }) + (match p.file_data {
        Some(d) => seq![("fileData"@, file_data_to_json(d))],
        None => Seq::empty(),
    }) + (match p.video_metadata {
        Some(v) => seq![("videoMetadata"@, video_metadata_to_json(v))],
        None => Seq::empty(),
    })
}

/// Reads a part back out of a JSON value.
pub open spec fn part_of_json(j: JsonView) -> Option<PartView> {
    match j {
        JsonView::Obj(fs) => {
            let text = opt_str_field(fs, "text"@);
            let inline_data = match opt_field(fs, "inlineData"@) {
                None => Some(None),
                Some(dj) => match inline_data_of_json(dj) {
                    Some(d) => Some(Some(d)),
                    None => None,
                },
            };
            let file_data = match opt_field(fs, "fileData"@) {
                None => Some(None),
                Some(dj) => match file_data_of_json(dj) {
                    Some(d) => Some(Some(d)),
                    None => None,
                },
            };
            let video_metadata = match opt_field(fs, "videoMetadata"@) {
                None => Some(None),
                Some(dj) => match video_metadata_of_json(dj) {
                    Some(d) => Some(Some(d)),
                    None => None,
                },
            };
            match (text, inline_data, file_data, video_metadata) {
                (Some(t), Some(idv), Some(fdv), Some(vmv)) => Some(
                    PartView { text: t, inline_data: idv, file_data: fdv, video_metadata: vmv },
                ),
                _ => None,
            }
        },
        _ => None,
    }
}

impl Part {
    /// Renders this part as its JSON object.
    pub fn to_json(&self) -> (r: Json)
        ensures
            r@ == part_to_json(self@),
    {
        let mut fields: Vec<(String, Json)> = Vec::new();
        if let Some(t) = &self.text {
            push_field(&mut fields, "text", Json::Str(t.clone()));
        }
        if let Some(d) = &self.inline_data {
            push_field(&mut fields, "inlineData", d.to_json());
        }
        if let Some(d) = &self.file_data {
            push_field(&mut fields, "fileData", d.to_json());
        }
        if let Some(v) = &self.video_metadata {
            push_field(&mut fields, "videoMetadata", v.to_json());
        }
        let r = Json::Obj(fields);
        proof {
            assert(json_fields_view(fields@) =~= part_json_fields(self@));
        }
        r
    }

    /// Reads a part back out of a JSON object.
    pub fn from_json(j: &Json) -> (r: Option<Part>)
        ensures
            match r {
                Some(p) => part_of_json(j@) == Some(p@),
                None => part_of_json(j@) is None,
            },
    {
        match j {
            Json::Obj(fields) => {
                let text: Option<String> = match json_obj_get(fields, "text") {
                    None => None,
                    Some(Json::Null) => None,
                    Some(Json::Str(s)) => Some(s.clone()),
                    Some(_) => {
                        return None;
                    },
                };
                let inline_data: Option<InlineData> = match json_obj_get(fields, "inlineData") {
                    None => None,
                    Some(Json::Null) => None,
                    Some(dj) => match InlineData::from_json(dj) {
                        Some(d) => Some(d),
                        None => {
                            return None;
                        },
                    },
                };
                let file_data: Option<FileData> = match json_obj_get(fields, "fileData") {
                    None => None,
                    Some(Json::Null) => None,
                    Some(dj) => match FileData::from_json(dj) {
                        Some(d) => Some(d),
                        None => {
                            return None;
                        },
                    },
                };
                let video_metadata: Option<VideoMetadata> = match json_obj_get(
                    fields,
                    "videoMetadata",
                ) {
                    None => None,
                    Some(Json::Null) => None,
                    Some(dj) => match VideoMetadata::from_json(dj) {
                        Some(d) => Some(d),
                        None => {
                            return None;
                        },
                    },
                };
                Some(Part { text, inline_data, file_data, video_metadata })
            },
            _ => None,
        }
    }
}

proof fn lemma_part_keys() 
    ensures
        "text"@.len() == 4,
        "inlineData"@.len() == 10,
        "fileData"@.len() == 8,
        "videoMetadata"@.len() == 13,
{
    reveal_strlit("text");
    reveal_strlit("inlineData");
    reveal_strlit("fileData");
    reveal_strlit("videoMetadata");
}

/// A part decodes back to itself.
pub proof fn lemma_part_round_trip(p: PartView)
    requires
        part_view_wf(p),
    ensures
        part_of_json(part_to_json(p)) == Some(p),
{
    lemma_part_keys();
    reveal_strlit("text");
    reveal_strlit("inlineData");
    reveal_strlit("fileData");
    reveal_strlit("videoMetadata");
    reveal_with_fuel(crate::json::obj_get, 6);
    let fs = part_json_fields(p);
    if let Some(d) = p.inline_data {
        lemma_inline_data_round_trip(d);
    }
    if let Some(d) = p.file_data {
        lemma_file_data_round_trip(d);
    }
    if let Some(v) = p.video_metadata {
        lemma_video_metadata_round_trip(v);
    }
    match (p.text, p.inline_data, p.file_data, p.video_metadata) {
        (Some(t), Some(idv), Some(fdv), Some(vmv)) => {
            assert(fs =~= seq![("text"@, JsonView::Str(t)), ("inlineData"@, inline_data_to_json(idv)), ("fileData"@, file_data_to_json(fdv)), ("videoMetadata"@, video_metadata_to_json(vmv))]);
            assert(part_of_json(part_to_json(p)) == Some(p));
        },
        (Some(t), Some(idv), Some(fdv), None) => {
            assert(fs =~= seq![("text"@, JsonView::Str(t)), ("inlineData"@, inline_data_to_json(idv)), ("fileData"@, file_data_to_json(fdv))]);
            assert(part_of_json(part_to_json(p)) == Some(p));
        },
        (Some(t), Some(idv), None, Some(vmv)) => {
            assert(fs =~= seq![("text"@, JsonView::Str(t)), ("inlineData"@, inline_data_to_json(idv)), ("videoMetadata"@, video_metadata_to_json(vmv))]);
            assert(part_of_json(part_to_json(p)) == Some(p));
        },
        (Some(t), Some(idv), None, None) => {
            assert(fs =~= seq![("text"@, JsonView::Str(t)), ("inlineData"@, inline_data_to_json(idv))]);
            assert(part_of_json(part_to_json(p)) == Some(p));
        },
        (Some(t), None, Some(fdv), Some(vmv)) => {
            assert(fs =~= seq![("text"@, JsonView::Str(t)), ("fileData"@, file_data_to_json(fdv)), ("videoMetadata"@, video_metadata_to_json(vmv))]);
            assert(part_of_json(part_to_json(p)) == Some(p));
        },
        (Some(t), None, Some(fdv), None) => {
            assert(fs =~= seq![("text"@, JsonView::Str(t)), ("fileData"@, file_data_to_json(fdv))]);
            assert(part_of_json(part_to_json(p)) == Some(p));
        },
        (Some(t), None, None, Some(vmv)) => {
            assert(fs =~= seq![("text"@, JsonView::Str(t)), ("videoMetadata"@, video_metadata_to_json(vmv))]);
            assert(part_of_json(part_to_json(p)) == Some(p));
        },
        (Some(t), None, None, None) => {
            assert(fs =~= seq![("text"@, JsonView::Str(t))]);
            assert(part_of_json(part_to_json(p)) == Some(p));
        },
        (None, Some(idv), Some(fdv), Some(vmv)) => {
            assert(fs =~= seq![("inlineData"@, inline_data_to_json(idv)), ("fileData"@, file_data_to_json(fdv)), ("videoMetadata"@, video_metadata_to_json(vmv))]);
            assert(part_of_json(part_to_json(p)) == Some(p));
        },
        (None, Some(idv), Some(fdv), None) => {
            assert(fs =~= seq![("inlineData"@, inline_data_to_json(idv)), ("fileData"@, file_data_to_json(fdv))]);
            assert(part_of_json(part_to_json(p)) == Some(p));
        },
        (None, Some(idv), None, Some(vmv)) => {
            assert(fs =~= seq![("inlineData"@, inline_data_to_json(idv)), ("videoMetadata"@, video_metadata_to_json(vmv))]);
            assert(part_of_json(part_to_json(p)) == Some(p));
        },
        (None, Some(idv), None, None) => {
            assert(fs =~= seq![("inlineData"@, inline_data_to_json(idv))]);
            assert(part_of_json(part_to_json(p)) == Some(p));
        },
        (None, None, Some(fdv), Some(vmv)) => {
            assert(fs =~= seq![("fileData"@, file_data_to_json(fdv)), ("videoMetadata"@, video_metadata_to_json(vmv))]);
            assert(part_of_json(part_to_json(p)) == Some(p));
        },
        (None, None, Some(fdv), None) => {
            assert(fs =~= seq![("fileData"@, file_data_to_json(fdv))]);
            assert(part_of_json(part_to_json(p)) == Some(p));
        },
        (None, None, None, Some(vmv)) => {
            assert(fs =~= seq![("videoMetadata"@, video_metadata_to_json(vmv))]);
            assert(part_of_json(part_to_json(p)) == Some(p));
        },
        (None, None, None, None) => {
            assert(fs =~= Seq::<(Seq<char>, JsonView)>::empty());
            assert(part_of_json(part_to_json(p)) == Some(p));
        },
    }
}

/// The JSON array elements of a part list, in order.
pub open spec fn parts_to_json(ps: Seq<PartView>) -> Seq<JsonView> {
    Seq::new(ps.len(), |i: int| part_to_json(ps[i]))
}

/// Reads a part list back out of JSON array elements; any bad element spoils
/// the whole list.
pub open spec fn parts_of_json(js: Seq<JsonView>) -> Option<Seq<PartView>>
    decreases js.len(),
{
    if js.len() == 0 {
        Some(Seq::empty())
    } else {
        match (parts_of_json(js.drop_last()), part_of_json(js.last())) {
            (Some(ps), Some(p)) => Some(ps.push(p)),
            _ => None,
        }
    }
}

proof fn lemma_parts_of_json_fails(js: Seq<JsonView>, i: int)
    requires
        0 <= i < js.len(),
        part_of_json(js[i]) is None,
    ensures
        parts_of_json(js) is None,
    decreases js.len(),
{
    if i < js.len() - 1 {
        assert(js.drop_last()[i] == js[i]);
        lemma_parts_of_json_fails(js.drop_last(), i);
    }
}

/// A part list decodes back to itself.
pub proof fn lemma_parts_round_trip(ps: Seq<PartView>)
    requires
        forall|i: int| 0 <= i < ps.len() ==> part_view_wf(#[trigger] ps[i]),
    ensures
        parts_of_json(parts_to_json(ps)) == Some(ps),
    decreases ps.len(),
{
    if ps.len() > 0 {
        assert(parts_to_json(ps).drop_last() =~= parts_to_json(ps.drop_last()));
        lemma_parts_round_trip(ps.drop_last());
        lemma_part_round_trip(ps.last());
        assert(ps.drop_last().push(ps.last()) =~= ps);
    }
}

/// Renders each part of a list.
pub fn parts_to_json_exec(parts: &Vec<Part>) -> (r: Vec<Json>)
    ensures
        json_seq_view(r@) == parts_to_json(elems_view(parts@)),
{
    let mut out: Vec<Json> = Vec::new();
    let n = parts.len();
    let mut i: usize = 0;
    proof {
        lemma_json_seq_view(out@);
    }
    while i < n
        invariant
            n == parts@.len(),
            i <= n,
            out@.len() == i,
            json_seq_view(out@) =~= parts_to_json(elems_view(parts@)).take(i as int),
        decreases n - i,
    {
        let ghost prev = out@;
        out.push(parts[i].to_json());
        proof {
            assert(out@.drop_last() =~= prev);
            assert(json_seq_view(out@) =~= parts_to_json(elems_view(parts@)).take(i + 1 as int));
        }
        i = i + 1;
    }
    proof {
        assert(parts_to_json(elems_view(parts@)).take(n as int) =~= parts_to_json(
            elems_view(parts@),
        ));
    }
    out
}

/// Reads each part of a JSON array.
pub fn parts_from_json(items: &Vec<Json>) -> (r: Option<Vec<Part>>)
    ensures
        match r {
            Some(v) => parts_of_json(json_seq_view(items@)) == Some(elems_view(v@)),
            None => parts_of_json(json_seq_view(items@)) is None,
        },
{
    let ghost js = json_seq_view(items@);
    proof {
        lemma_json_seq_view(items@);
    }
    let mut out: Vec<Part> = Vec::new();
    let n = items.len();
    let mut i: usize = 0;
    while i < n
        invariant
            n == items@.len(),
            i <= n,
            out@.len() == i,
            js == json_seq_view(items@),
            js.len() == n,
            forall|k: int| 0 <= k < n ==> #[trigger] js[k] == items@[k]@,
            parts_of_json(js.take(i as int)) == Some(elems_view(out@)),
        decreases n - i,
    {
        match Part::from_json(&items[i]) {
            Some(p) => {
                let ghost prev = out@;
                out.push(p);
                proof {
                    assert(js.take(i + 1 as int).drop_last() =~= js.take(i as int));
                    assert(js.take(i + 1 as int).last() == js[i as int]);
                    assert(elems_view(out@) =~= elems_view(prev).push(p@));
                }
            },
            None => {
                proof {
                    lemma_parts_of_json_fails(js, i as int);
                }
                return None;
            },
        }
        i = i + 1;
    }
    proof {
        assert(js.take(n as int) =~= js);
    }
    Some(out)
}

/// A role tag together with the ordered parts it authored.
#[derive(Debug, Clone)]
pub struct Content {
    pub role: Role,
    pub parts: Vec<Part>,
}

/// The mathematical shape of [`Content`].
#[verifier::ext_equal]
pub struct ContentView {
    pub role: Role,
    pub parts: Seq<PartView>,
}

impl View for Content {
    type V = ContentView;

    open spec fn view(&self) -> ContentView {
        ContentView { role: self.role, parts: elems_view(self.parts@) }
    }
}

/// A content whose parts fit the wire types.
pub open spec fn content_view_wf(c: ContentView) -> bool {
    forall|i: int| 0 <= i < c.parts.len() ==> part_view_wf(#[trigger] c.parts[i])
}

/// The JSON object for a content: its `role` name and its `parts` array.
pub open spec fn content_to_json(c: ContentView) -> JsonView {
    JsonView::Obj(
        seq![
            ("role"@, JsonView::Str(role_name(c.role))),
            ("parts"@, JsonView::Arr(parts_to_json(c.parts))),
        ],
    )
}

/// Reads a content back out of a JSON value.  A missing `parts` field is an
/// empty part list.
pub open spec fn content_of_json(j: JsonView) -> Option<ContentView> {
    match j {
        JsonView::Obj(fs) => match str_field(fs, "role"@) {
            Some(rn) => match role_of_name(rn) {
                Some(role) => match obj_get(fs, "parts"@) {
                    None => Some(ContentView { role, parts: Seq::empty() }),
                    Some(JsonView::Arr(js)) => match parts_of_json(js) {
                        Some(ps) => Some(ContentView { role, parts: ps }),
                        None => None,
                    },
                    Some(_) => None,
                },
                None => None,
            },
            None => None,
        },
        _ => None,
    }
}

impl Content {
    /// Renders this content as its JSON object.
    pub fn to_json(&self) -> (r: Json)
        ensures
            r@ == content_to_json(self@),
    {
        let mut fields: Vec<(String, Json)> = Vec::new();
        push_field(&mut fields, "role", Json::Str(self.role.to_name()));
        push_field(&mut fields, "parts", Json::Arr(parts_to_json_exec(&self.parts)));
        let r = Json::Obj(fields);
        proof {
            assert(json_fields_view(fields@) =~= content_to_json(self@)->Obj_0);
        }
        r
    }

    /// Reads a content back out of a JSON object.
    pub fn from_json(j: &Json) -> (r: Option<Content>)
        ensures
            match r {
                Some(c) => content_of_json(j@) == Some(c@),
                None => content_of_json(j@) is None,
            },
    {
        match j {
            Json::Obj(fields) => {
                let role: Role = match json_obj_get(fields, "role") {
                    Some(Json::Str(s)) => match Role::from_name(s.as_str()) {
                        Some(role) => role,
                        None => {
                            return None;
                        },
                    },
                    _ => {
                        return None;
                    },
                };
                let parts: Vec<Part> = match json_obj_get(fields, "parts") {
                    None => Vec::new(),
                    Some(Json::Arr(items)) => match parts_from_json(items) {
                        Some(ps) => ps,
                        None => {
                            return None;
                        },
                    },
                    Some(_) => {
                        return None;
                    },
                };
                Some(Content { role, parts })
            },
            _ => None,
        }
    }
}

/// A content decodes back to itself.
pub proof fn lemma_content_round_trip(c: ContentView)
    requires
        content_view_wf(c),
    ensures
        content_of_json(content_to_json(c)) == Some(c),
{
    reveal_strlit("role");
    reveal_strlit("parts");
    assert("role"@.len() == 4);
    assert("parts"@.len() == 5);
    reveal_with_fuel(crate::json::obj_get, 4);
    let fs = content_to_json(c)->Obj_0;
    assert(fs.drop_first() =~= seq![("parts"@, JsonView::Arr(parts_to_json(c.parts)))]);
    lemma_role_name_round_trip(c.role);
    lemma_parts_round_trip(c.parts);
}


/// The billed characters of one part: those of its text, if any.
pub open spec fn part_text_units(p: PartView) -> nat {
    match p.text {
        Some(t) => crate::text::text_unit_count(t),
        None => 0,
    }
}

/// The billed characters of a part list.
pub open spec fn parts_text_units(ps: Seq<PartView>) -> nat
    decreases ps.len(),
{
    if ps.len() == 0 {
        0
    } else {
        parts_text_units(ps.drop_last()) + part_text_units(ps.last())
    }
}

/// Counts the billed characters of a part list, saturating at the word
/// range.
pub fn parts_text_units_exec(parts: &Vec<Part>) -> (r: usize)
    ensures
        r == crate::text::clamp_usize(parts_text_units(elems_view(parts@))),
{
    let ghost pv = elems_view(parts@);
    let mut acc: usize = 0;
    let n = parts.len();
    let mut i: usize = 0;
    while i < n
        invariant
            n == parts@.len(),
            i <= n,
            pv == elems_view(parts@),
            pv.len() == n,
            acc == crate::text::clamp_usize(parts_text_units(pv.take(i as int))),
        decreases n - i,
    {
        let unit: usize = match &parts[i].text {
            Some(t) => crate::text::count_text_units(t.as_str()),
            None => 0,
        };
        assert(unit == part_text_units(pv[i as int]));
        acc = crate::text::sat_add(acc, unit);
        proof {
            assert(pv.take(i + 1 as int).drop_last() =~= pv.take(i as int));
            assert(pv.take(i + 1 as int).last() == pv[i as int]);
        }
        i = i + 1;
    }
    proof {
        assert(pv.take(n as int) =~= pv);
    }
    acc
}


/// What the service reports about one model.  The two sampling defaults
/// are carried as decimal number text, exactly as they come off the wire.
#[derive(Debug, Clone)]
pub struct ModelInformation {
    pub name: String,
    pub version: String,
    pub display_name: String,
    pub description: String,
    pub input_token_limit: i32,
    pub output_token_limit: i32,
    pub supported_generation_methods: Vec<String>,
    pub temperature: Option<String>,
    pub top_p: Option<String>,
    pub top_k: Option<i32>,
}

/// The mathematical shape of [`ModelInformation`].
#[verifier::ext_equal]
pub struct ModelInformationView {
    pub name: Seq<char>,
    pub version: Seq<char>,
    pub display_name: Seq<char>,
    pub description: Seq<char>,
    pub input_token_limit: int,
    pub output_token_limit: int,
    pub supported_generation_methods: Seq<Seq<char>>,
    pub temperature: Option<Seq<char>>,
    pub top_p: Option<Seq<char>>,
    pub top_k: Option<int>,
}

impl View for ModelInformation {
    type V = ModelInformationView;

    open spec fn view(&self) -> ModelInformationView {
        ModelInformationView {
            name: self.name@,
            version: self.version@,
            display_name: self.display_name@,
            description: self.description@,
            input_token_limit: self.input_token_limit as int,
            output_token_limit: self.output_token_limit as int,
            supported_generation_methods: elems_view(self.supported_generation_methods@),
            temperature: opt_view(self.temperature),
            top_p: opt_view(self.top_p),
            top_k: match self.top_k {
                Some(n) => Some(n as int),
                None => None,
            },
        }
    }
}

/// Reads a model record back out of a JSON value.
pub open spec fn model_information_of_json(j: JsonView) -> Option<ModelInformationView> {
    match j {
        JsonView::Obj(fs) => {
            let name = str_field(fs, "name"@);
            let version = str_field(fs, "version"@);
            let display_name = str_field(fs, "displayName"@);
            let description = str_field(fs, "description"@);
            let input_token_limit = match crate::json::int_field(fs, "inputTokenLimit"@) {
                Some(n) => if i32::MIN <= n <= i32::MAX {
                    Some(n)
                } else {
                    None
                },
                None => None,
            };
            let output_token_limit = match crate::json::int_field(fs, "outputTokenLimit"@) {
                Some(n) => if i32::MIN <= n <= i32::MAX {
                    Some(n)
                } else {
                    None
                },
                None => None,
            };
            let methods = match obj_get(fs, "supportedGenerationMethods"@) {
                Some(JsonView::Arr(js)) => request::strings_of_json(js),
                _ => None,
            };
            let temperature = crate::json::opt_num_field(fs, "temperature"@);
            let top_p = crate::json::opt_num_field(fs, "topP"@);
            let top_k = match crate::json::opt_int_field(fs, "topK"@) {
                Some(Some(n)) => if i32::MIN <= n <= i32::MAX {
                    Some(Some(n))
                } else {
                    None
                },
                x => x,
            };
            match (name, version, display_name, description, input_token_limit,
                output_token_limit, methods, temperature, top_p, top_k) {
                (
                    Some(nm),
                    Some(vr),
                    Some(dn),
                    Some(ds),
                    Some(itl),
                    Some(otl),
                    Some(ms),
                    Some(t),
                    Some(tp),
                    Some(tk),
                ) => Some(
                    ModelInformationView {
                        name: nm,
                        version: vr,
                        display_name: dn,
                        description: ds,
                        input_token_limit: itl,
                        output_token_limit: otl,
                        supported_generation_methods: ms,
                        temperature: t,
                        top_p: tp,
                        top_k: tk,
                    },
                ),
                _ => None,
            }
        },
        _ => None,
    }
}

impl ModelInformation {
    /// Reads a model record back out of a JSON object.
    pub fn from_json(j: &Json) -> (r: Option<ModelInformation>)
        ensures
            match r {
                Some(m) => model_information_of_json(j@) == Some(m@),
                None => model_information_of_json(j@) is None,
            },
    {
        match j {
            Json::Obj(fields) => {
                let name: String = match json_obj_get(fields, "name") {
                    Some(Json::Str(s)) => s.clone(),
                    _ => {
                        return None;
                    },
                };
                let version: String = match json_obj_get(fields, "version") {
                    Some(Json::Str(s)) => s.clone(),
                    _ => {
                        return None;
                    },
                };
                let display_name: String = match json_obj_get(fields, "displayName") {
                    Some(Json::Str(s)) => s.clone(),
                    _ => {
                        return None;
                    },
                };
                let description: String = match json_obj_get(fields, "description") {
                    Some(Json::Str(s)) => s.clone(),
                    _ => {
                        return None;
                    },
                };
                let input_token_limit: i32 = match json_obj_get(fields, "inputTokenLimit") {
                    Some(Json::Int(n)) => {
                        if *n >= i32::MIN as i64 && *n <= i32::MAX as i64 {
                            *n as i32
                        } else {
                            return None;
                        }
                    },
                    _ => {
                        return None;
                    },
                };
                let output_token_limit: i32 = match json_obj_get(fields, "outputTokenLimit") {
                    Some(Json::Int(n)) => {
                        if *n >= i32::MIN as i64 && *n <= i32::MAX as i64 {
                            *n as i32
                        } else {
                            return None;
                        }
                    },
                    _ => {
                        return None;
                    },
                };
                let supported_generation_methods: Vec<String> = match json_obj_get(
                    fields,
                    "supportedGenerationMethods",
                ) {
                    Some(Json::Arr(items)) => match request::strings_from_json(items) {
                        Some(ms) => ms,
                        None => {
                            return None;
                        },
                    },
                    _ => {
                        return None;
                    },
                };
                let temperature: Option<String> = match json_obj_get(fields, "temperature") {
                    None => None,
                    Some(Json::Null) => None,
                    Some(Json::Int(n)) => Some(crate::text::i64_to_dec_string(*n)),
                    Some(Json::NumText(t)) => Some(t.clone()),
                    Some(_) => {
                        return None;
                    },
                };
                let top_p: Option<String> = match json_obj_get(fields, "topP") {
                    None => None,
                    Some(Json::Null) => None,
                    Some(Json::Int(n)) => Some(crate::text::i64_to_dec_string(*n)),
                    Some(Json::NumText(t)) => Some(t.clone()),
                    Some(_) => {
                        return None;
                    },
                };
                let top_k: Option<i32> = match json_obj_get(fields, "topK") {
                    None => None,
                    Some(Json::Null) => None,
                    Some(Json::Int(n)) => {
                        if *n >= i32::MIN as i64 && *n <= i32::MAX as i64 {
                            Some(*n as i32)
                        } else {
                            return None;
                        }
                    },
                    Some(_) => {
                        return None;
                    },
                };
                Some(
                    ModelInformation {
                        name,
                        version,
                        display_name,
                        description,
                        input_token_limit,
                        output_token_limit,
                        supported_generation_methods,
                        temperature,
                        top_p,
                        top_k,
                    },
                )
            },
            _ => None,
        }
    }
}

/// Reads a list of model records back out of JSON array elements.
pub open spec fn model_list_of_json(js: Seq<JsonView>) -> Option<Seq<ModelInformationView>>
    decreases js.len(),
{
    if js.len() == 0 {
        Some(Seq::empty())
    } else {
        match (model_list_of_json(js.drop_last()), model_information_of_json(js.last())) {
            (Some(ms), Some(m)) => Some(ms.push(m)),
            _ => None,
        }
    }
}

proof fn lemma_model_list_of_json_fails(js: Seq<JsonView>, i: int)
    requires
        0 <= i < js.len(),
        model_information_of_json(js[i]) is None,
    ensures
        model_list_of_json(js) is None,
    decreases js.len(),
{
    if i < js.len() - 1 {
        assert(js.drop_last()[i] == js[i]);
        lemma_model_list_of_json_fails(js.drop_last(), i);
    }
}

/// Reads each model record of a JSON array.
pub fn model_list_from_json(items: &Vec<Json>) -> (r: Option<Vec<ModelInformation>>)
    ensures
        match r {
            Some(v) => model_list_of_json(json_seq_view(items@)) == Some(elems_view(v@)),
            None => model_list_of_json(json_seq_view(items@)) is None,
        },
{
    let ghost js = json_seq_view(items@);
    proof {
        lemma_json_seq_view(items@);
    }
    let mut out: Vec<ModelInformation> = Vec::new();
    let n = items.len();
    let mut i: usize = 0;
    while i < n
        invariant
            n == items@.len(),
            i <= n,
            out@.len() == i,
            js == json_seq_view(items@),
            js.len() == n,
            forall|k: int| 0 <= k < n ==> #[trigger] js[k] == items@[k]@,
            model_list_of_json(js.take(i as int)) == Some(elems_view(out@)),
        decreases n - i,
    {
        match ModelInformation::from_json(&items[i]) {
            Some(m) => {
                let ghost prev = out@;
                out.push(m);
                proof {
                    assert(js.take(i + 1 as int).drop_last() =~= js.take(i as int));
                    assert(js.take(i + 1 as int).last() == js[i as int]);
                    assert(elems_view(out@) =~= elems_view(prev).push(m@));
                }
            },
            None => {
                proof {
                    lemma_model_list_of_json_fails(js, i as int);
                }
                return None;
            },
        }
        i = i + 1;
    }
    proof {
        assert(js.take(n as int) =~= js);
    }
    Some(out)
}

/// The models the service lists.
#[derive(Debug, Clone)]
pub struct ModelInformationList {
    pub models: Vec<ModelInformation>,
}

/// The mathematical shape of [`ModelInformationList`].
#[verifier::ext_equal]
pub struct ModelInformationListView {
    pub models: Seq<ModelInformationView>,
}

impl View for ModelInformationList {
    type V = ModelInformationListView;

    open spec fn view(&self) -> ModelInformationListView {
        ModelInformationListView { models: elems_view(self.models@) }
    }
}

/// Reads the model list record back out of a JSON value: its `models`
/// array.
pub open spec fn model_information_list_of_json(j: JsonView) -> Option<ModelInformationListView> {
    match j {
        JsonView::Obj(fs) => match obj_get(fs, "models"@) {
            Some(JsonView::Arr(js)) => match model_list_of_json(js) {
                Some(ms) => Some(ModelInformationListView { models: ms }),
                None => None,
            },
            _ => None,
        },
        _ => None,
    }
}

impl ModelInformationList {
    /// Reads the model list back out of a JSON object.
    pub fn from_json(j: &Json) -> (r: Option<ModelInformationList>)
        ensures
            match r {
                Some(l) => model_information_list_of_json(j@) == Some(l@),
                None => model_information_list_of_json(j@) is None,
            },
    {
        match j {
            Json::Obj(fields) => match json_obj_get(fields, "models") {
                Some(Json::Arr(items)) => match model_list_from_json(items) {
                    Some(ms) => Some(ModelInformationList { models: ms }),
                    None => None,
                },
                _ => None,
            },
            _ => None,
        }
    }
}

/// A part populated with text alone serializes to an object with exactly
/// the one key `text`; the other three union keys are absent, not null.
pub proof fn lemma_text_part_single_key(p: PartView)
    requires
        p.text is Some,
        p.inline_data is None,
        p.file_data is None,
        p.video_metadata is None,
    ensures
        part_to_json(p) == JsonView::Obj(seq![("text"@, JsonView::Str(p.text->0))]),
{
    assert(part_json_fields(p) =~= seq![("text"@, JsonView::Str(p.text->0))]);
}

} // verus!
