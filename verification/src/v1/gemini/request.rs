//! The request payload: the data a caller hands to the API, and the exact
//! JSON shape in which it goes over the wire.

use vstd::prelude::*;

use crate::elems_view;
use crate::json::int_field;
use crate::json::json_fields_view;
use crate::json::json_obj_get;
use crate::json::json_seq_view;
use crate::json::lemma_json_seq_view;
use crate::json::obj_get;
use crate::json::opt_field;
use crate::json::opt_int_field;
use crate::json::opt_num_field;
use crate::json::opt_str_field;
use crate::json::push_field;
use crate::json::str_field;
use crate::json::Json;
use crate::json::JsonView;
use crate::opt_view;
use super::content_of_json;
use super::content_to_json;
use super::content_view_wf;
use super::lemma_content_round_trip;
use super::Content;
use super::ContentView;
use super::safety::harm_block_threshold_name;
use super::safety::harm_block_threshold_of_name;
use super::safety::harm_category_name;
use super::safety::harm_category_of_name;
use super::safety::lemma_harm_block_threshold_name_round_trip;
use super::safety::lemma_harm_category_name_round_trip;
use super::safety::HarmBlockThreshold;
use super::safety::HarmCategory;

verus! {

/// Inline binary data: a mime type and a base64 payload.
#[derive(Debug, Clone)]
pub struct InlineData {
    pub mime_type: String,
    pub data: String,
}

/// The mathematical shape of [`InlineData`].
#[verifier::ext_equal]
pub struct InlineDataView {
    pub mime_type: Seq<char>,
    pub data: Seq<char>,
}

impl View for InlineData {
    type V = InlineDataView;

    open spec fn view(&self) -> InlineDataView {
        InlineDataView { mime_type: self.mime_type@, data: self.data@ }
    }
}

/// The JSON object for inline data: a `mimeType` and a `data` field.
pub open spec fn inline_data_to_json(v: InlineDataView) -> JsonView {
    JsonView::Obj(
        seq![
            ("mimeType"@, JsonView::Str(v.mime_type)),
            ("data"@, JsonView::Str(v.data)),
        ],
    )
}

/// Reads inline data back out of a JSON value.
pub open spec fn inline_data_of_json(j: JsonView) -> Option<InlineDataView> {
    match j {
        JsonView::Obj(fs) => match (str_field(fs, "mimeType"@), str_field(fs, "data"@)) {
            (Some(m), Some(d)) => Some(InlineDataView { mime_type: m, data: d }),
            _ => None,
        },
        _ => None,
    }
}

impl InlineData {
    /// Renders this value as its JSON object.
    pub fn to_json(&self) -> (r: Json)
        ensures
            r@ == inline_data_to_json(self@),
    {
        let mut fields: Vec<(String, Json)> = Vec::new();
        push_field(&mut fields, "mimeType", Json::Str(self.mime_type.clone()));
        push_field(&mut fields, "data", Json::Str(self.data.clone()));
        let r = Json::Obj(fields);
        proof {
            assert(json_fields_view(fields@) =~= inline_data_to_json(self@)->Obj_0);
        }
        r
    }

    /// Reads a value back out of a JSON object.
    pub fn from_json(j: &Json) -> (r: Option<InlineData>)
        ensures
            match r {
                Some(v) => inline_data_of_json(j@) == Some(v@),
                None => inline_data_of_json(j@) is None,
            },
    {
        match j {
            Json::Obj(fields) => {
                let mime_type: String = match json_obj_get(fields, "mimeType") {
                    Some(Json::Str(s)) => s.clone(),
                    _ => {
                        return None;
                    },
                };
                let data: String = match json_obj_get(fields, "data") {
                    Some(Json::Str(s)) => s.clone(),
                    _ => {
                        return None;
                    },
                };
                Some(InlineData { mime_type, data })
            },
            _ => None,
        }
    }
}

/// A value decodes back to itself.
pub proof fn lemma_inline_data_round_trip(v: InlineDataView)
    ensures
        inline_data_of_json(inline_data_to_json(v)) == Some(v),
{
    reveal_strlit("mimeType");
    reveal_strlit("data");
    assert("mimeType"@.len() == 8);
    assert("data"@.len() == 4);
    reveal_with_fuel(crate::json::obj_get, 4);
    let fs = inline_data_to_json(v)->Obj_0;
    assert(fs.drop_first() =~= seq![("data"@, JsonView::Str(v.data))]);
}

/// A reference to a file by URI.
#[derive(Debug, Clone)]
pub struct FileData {
    pub mime_type: String,
    pub file_uri: String,
}

/// The mathematical shape of [`FileData`].
#[verifier::ext_equal]
pub struct FileDataView {
    pub mime_type: Seq<char>,
    pub file_uri: Seq<char>,
}

impl View for FileData {
    type V = FileDataView;

    open spec fn view(&self) -> FileDataView {
        FileDataView { mime_type: self.mime_type@, file_uri: self.file_uri@ }
    }
}

/// The JSON object for file data: a `mimeType` and a `fileUri` field.
pub open spec fn file_data_to_json(v: FileDataView) -> JsonView {
    JsonView::Obj(
        seq![
            ("mimeType"@, JsonView::Str(v.mime_type)),
            ("fileUri"@, JsonView::Str(v.file_uri)),
        ],
    )
}

/// Reads file data back out of a JSON value.
pub open spec fn file_data_of_json(j: JsonView) -> Option<FileDataView> {
    match j {
        JsonView::Obj(fs) => match (str_field(fs, "mimeType"@), str_field(fs, "fileUri"@)) {
            (Some(m), Some(u)) => Some(FileDataView { mime_type: m, file_uri: u }),
            _ => None,
        },
        _ => None,
    }
}

impl FileData {
    /// Renders this value as its JSON object.
    pub fn to_json(&self) -> (r: Json)
        ensures
            r@ == file_data_to_json(self@),
    {
        let mut fields: Vec<(String, Json)> = Vec::new();
        push_field(&mut fields, "mimeType", Json::Str(self.mime_type.clone()));
        push_field(&mut fields, "fileUri", Json::Str(self.file_uri.clone()));
        let r = Json::Obj(fields);
        proof {
            assert(json_fields_view(fields@) =~= file_data_to_json(self@)->Obj_0);
        }
        r
    }

    /// Reads a value back out of a JSON object.
    pub fn from_json(j: &Json) -> (r: Option<FileData>)
        ensures
            match r {
                Some(v) => file_data_of_json(j@) == Some(v@),
                None => file_data_of_json(j@) is None,
            },
    {
        match j {
            Json::Obj(fields) => {
                let mime_type: String = match json_obj_get(fields, "mimeType") {
                    Some(Json::Str(s)) => s.clone(),
                    _ => {
                        return None;
                    },
                };
                let file_uri: String = match json_obj_get(fields, "fileUri") {
                    Some(Json::Str(s)) => s.clone(),
                    _ => {
                        return None;
                    },
                };
                Some(FileData { mime_type, file_uri })
            },
            _ => None,
        }
    }
}

/// A value decodes back to itself.
pub proof fn lemma_file_data_round_trip(v: FileDataView)
    ensures
        file_data_of_json(file_data_to_json(v)) == Some(v),
{
    reveal_strlit("mimeType");
    reveal_strlit("fileUri");
    assert("mimeType"@.len() == 8);
    assert("fileUri"@.len() == 7);
    reveal_with_fuel(crate::json::obj_get, 4);
    let fs = file_data_to_json(v)->Obj_0;
    assert(fs.drop_first() =~= seq![("fileUri"@, JsonView::Str(v.file_uri))]);
}

/// An offset into a video, in whole seconds plus nanoseconds.
#[derive(Debug, Clone)]
pub struct StartOffset {
    pub seconds: i32,
    pub nanos: i32,
}

/// The mathematical shape of [`StartOffset`].
#[verifier::ext_equal]
pub struct OffsetView {
    pub seconds: int,
    pub nanos: int,
}

impl View for StartOffset {
    type V = OffsetView;

    open spec fn view(&self) -> OffsetView {
        OffsetView { seconds: self.seconds as int, nanos: self.nanos as int }
    }
}

/// The end counterpart of [`StartOffset`].
#[derive(Debug, Clone)]
pub struct EndOffset {
    pub seconds: i32,
    pub nanos: i32,
}

impl View for EndOffset {
    type V = OffsetView;

    open spec fn view(&self) -> OffsetView {
        OffsetView { seconds: self.seconds as int, nanos: self.nanos as int }
    }
}

/// The JSON object for an offset: a `seconds` and a `nanos` field.
pub open spec fn offset_to_json(v: OffsetView) -> JsonView {
    JsonView::Obj(
        seq![("seconds"@, JsonView::Int(v.seconds)), ("nanos"@, JsonView::Int(v.nanos))],
    )
}

/// Reads an offset back out of a JSON value; both fields must be integers
/// that fit in `i32`.
pub open spec fn offset_of_json(j: JsonView) -> Option<OffsetView> {
    match j {
        JsonView::Obj(fs) => match (int_field(fs, "seconds"@), int_field(fs, "nanos"@)) {
            (Some(s), Some(n)) => if i32::MIN <= s <= i32::MAX && i32::MIN <= n <= i32::MAX {
                Some(OffsetView { seconds: s, nanos: n })
            } else {
                None
            },
            _ => None,
        },
        _ => None,
    }
}

/// Reads the two offset fields of a JSON object, shared by both offset types.
fn offset_fields_from_json(j: &Json) -> (r: Option<(i32, i32)>)
    ensures
        match r {
            Some((s, n)) => offset_of_json(j@) == Some(
                OffsetView { seconds: s as int, nanos: n as int },
            ),
            None => offset_of_json(j@) is None,
        },
{
    match j {
        Json::Obj(fields) => {
            let seconds: i32 = match json_obj_get(fields, "seconds") {
                Some(Json::Int(n)) => {
                    if *n >= i32::MIN as i64 && *n <= i32::MAX as i64 {
                        *n as i32
                    } else {
                        return None;
                    }
                },
                _ => {
                    return None;
                },
            };
            let nanos: i32 = match json_obj_get(fields, "nanos") {
                Some(Json::Int(n)) => {
                    if *n >= i32::MIN as i64 && *n <= i32::MAX as i64 {
                        *n as i32
                    } else {
                        return None;
                    }
                },
                _ => {
                    return None;
                },
            };
            Some((seconds, nanos))
        },
        _ => None,
    }
}

impl StartOffset {
    /// Renders this value as its JSON object.
    pub fn to_json(&self) -> (r: Json)
        ensures
            r@ == offset_to_json(self@),
    {
        offset_to_json_exec(self.seconds, self.nanos)
    }

    /// Reads a value back out of a JSON object.
    pub fn from_json(j: &Json) -> (r: Option<StartOffset>)
        ensures
            match r {
                Some(v) => offset_of_json(j@) == Some(v@),
                None => offset_of_json(j@) is None,
            },
    {
        match offset_fields_from_json(j) {
            Some((seconds, nanos)) => Some(StartOffset { seconds, nanos }),
            None => None,
        }
    }
}

impl EndOffset {
    /// Renders this value as its JSON object.
    pub fn to_json(&self) -> (r: Json)
        ensures
            r@ == offset_to_json(self@),
    {
        offset_to_json_exec(self.seconds, self.nanos)
    }

    /// Reads a value back out of a JSON object.
    pub fn from_json(j: &Json) -> (r: Option<EndOffset>)
        ensures
            match r {
                Some(v) => offset_of_json(j@) == Some(v@),
                None => offset_of_json(j@) is None,
            },
    {
        match offset_fields_from_json(j) {
            Some((seconds, nanos)) => Some(EndOffset { seconds, nanos }),
            None => None,
        }
    }
}

/// Builds the JSON object shared by both offset types.
fn offset_to_json_exec(seconds: i32, nanos: i32) -> (r: Json)
    ensures
        r@ == offset_to_json(OffsetView { seconds: seconds as int, nanos: nanos as int }),
{
    let mut fields: Vec<(String, Json)> = Vec::new();
    push_field(&mut fields, "seconds", Json::Int(seconds as i64));
    push_field(&mut fields, "nanos", Json::Int(nanos as i64));
    let r = Json::Obj(fields);
    proof {
        assert(json_fields_view(fields@) =~= offset_to_json(
            OffsetView { seconds: seconds as int, nanos: nanos as int },
        )->Obj_0);
    }
    r
}

/// An offset value decodes back to itself.
pub proof fn lemma_offset_round_trip(v: OffsetView)
    requires
        i32::MIN <= v.seconds <= i32::MAX,
        i32::MIN <= v.nanos <= i32::MAX,
    ensures
        offset_of_json(offset_to_json(v)) == Some(v),
{
    reveal_strlit("seconds");
    reveal_strlit("nanos");
    assert("seconds"@.len() == 7);
    assert("nanos"@.len() == 5);
    reveal_with_fuel(crate::json::obj_get, 4);
    let fs = offset_to_json(v)->Obj_0;
    assert(fs.drop_first() =~= seq![("nanos"@, JsonView::Int(v.nanos))]);
}

/// An offset whose fields fit the wire type.
pub open spec fn offset_view_wf(o: OffsetView) -> bool {
    i32::MIN <= o.seconds <= i32::MAX && i32::MIN <= o.nanos <= i32::MAX
}

/// A video metadata value whose offsets fit the wire types.
pub open spec fn video_metadata_view_wf(v: VideoMetadataView) -> bool {
    offset_view_wf(v.start_offset) && offset_view_wf(v.end_offset)
}

/// The start and end markers of a video segment.
#[derive(Debug, Clone)]
pub struct VideoMetadata {
    pub start_offset: StartOffset,
    pub end_offset: EndOffset,
}

/// The mathematical shape of [`VideoMetadata`].
#[verifier::ext_equal]
pub struct VideoMetadataView {
    pub start_offset: OffsetView,
    pub end_offset: OffsetView,
}

impl View for VideoMetadata {
    type V = VideoMetadataView;

    open spec fn view(&self) -> VideoMetadataView {
        VideoMetadataView { start_offset: self.start_offset@, end_offset: self.end_offset@ }
    }
}

/// The JSON object for video metadata: a `startOffset` and an `endOffset`.
pub open spec fn video_metadata_to_json(v: VideoMetadataView) -> JsonView {
    JsonView::Obj(
        seq![
            ("startOffset"@, offset_to_json(v.start_offset)),
            ("endOffset"@, offset_to_json(v.end_offset)),
        ],
    )
}

/// Reads video metadata back out of a JSON value.
pub open spec fn video_metadata_of_json(j: JsonView) -> Option<VideoMetadataView> {
    match j {
        JsonView::Obj(fs) => match (
            crate::json::obj_get(fs, "startOffset"@),
            crate::json::obj_get(fs, "endOffset"@),
        ) {
            (Some(sj), Some(ej)) => match (offset_of_json(sj), offset_of_json(ej)) {
                (Some(s), Some(e)) => Some(VideoMetadataView { start_offset: s, end_offset: e }),
                _ => None,
            },
            _ => None,
        },
        _ => None,
    }
}

impl VideoMetadata {
    /// Renders this value as its JSON object.
    pub fn to_json(&self) -> (r: Json)
        ensures
            r@ == video_metadata_to_json(self@),
    {
        let mut fields: Vec<(String, Json)> = Vec::new();
        push_field(&mut fields, "startOffset", self.start_offset.to_json());
        push_field(&mut fields, "endOffset", self.end_offset.to_json());
        let r = Json::Obj(fields);
        proof {
            assert(json_fields_view(fields@) =~= video_metadata_to_json(self@)->Obj_0);
        }
        r
    }

    /// Reads a value back out of a JSON object.
    pub fn from_json(j: &Json) -> (r: Option<VideoMetadata>)
        ensures
            match r {
                Some(v) => video_metadata_of_json(j@) == Some(v@),
                None => video_metadata_of_json(j@) is None,
            },
    {
        match j {
            Json::Obj(fields) => {
                let start_offset: StartOffset = match json_obj_get(fields, "startOffset") {
                    Some(sj) => match StartOffset::from_json(sj) {
                        Some(s) => s,
                        None => {
                            return None;
                        },
                    },
                    None => {
                        return None;
                    },
                };
                let end_offset: EndOffset = match json_obj_get(fields, "endOffset") {
                    Some(ej) => match EndOffset::from_json(ej) {
                        Some(e) => e,
                        None => {
                            return None;
                        },
                    },
                    None => {
                        return None;
                    },
                };
                Some(VideoMetadata { start_offset, end_offset })
            },
            _ => None,
        }
    }
}

/// A value decodes back to itself.
pub proof fn lemma_video_metadata_round_trip(v: VideoMetadataView)
    requires
        i32::MIN <= v.start_offset.seconds <= i32::MAX,
        i32::MIN <= v.start_offset.nanos <= i32::MAX,
        i32::MIN <= v.end_offset.seconds <= i32::MAX,
        i32::MIN <= v.end_offset.nanos <= i32::MAX,
    ensures
        video_metadata_of_json(video_metadata_to_json(v)) == Some(v),
{
    reveal_strlit("startOffset");
    reveal_strlit("endOffset");
    assert("startOffset"@.len() == 11);
    assert("endOffset"@.len() == 9);
    reveal_with_fuel(crate::json::obj_get, 4);
    let fs = video_metadata_to_json(v)->Obj_0;
    assert(fs.drop_first() =~= seq![("endOffset"@, offset_to_json(v.end_offset))]);
    lemma_offset_round_trip(v.start_offset);
    lemma_offset_round_trip(v.end_offset);
}


/// One safety rule: block at the given threshold for the given category.
#[derive(Debug, Clone, PartialEq, Eq, Structural)]
pub struct SafetySettings {
    pub category: HarmCategory,
    pub threshold: HarmBlockThreshold,
}

impl View for SafetySettings {
    type V = SafetySettings;

    open spec fn view(&self) -> SafetySettings {
        *self
    }
}

/// The JSON object for a safety rule: its `category` and `threshold` names.
pub open spec fn safety_settings_to_json(s: SafetySettings) -> JsonView {
    JsonView::Obj(
        seq![
            ("category"@, JsonView::Str(harm_category_name(s.category))),
            ("threshold"@, JsonView::Str(harm_block_threshold_name(s.threshold))),
        ],
    )
}

/// Reads a safety rule back out of a JSON value.
pub open spec fn safety_settings_of_json(j: JsonView) -> Option<SafetySettings> {
    match j {
        JsonView::Obj(fs) => match (str_field(fs, "category"@), str_field(fs, "threshold"@)) {
            (Some(cn), Some(tn)) => match (
                harm_category_of_name(cn),
                harm_block_threshold_of_name(tn),
            ) {
                (Some(category), Some(threshold)) => Some(SafetySettings { category, threshold }),
                _ => None,
            },
            _ => None,
        },
        _ => None,
    }
}

impl SafetySettings {
    /// Renders this rule as its JSON object.
    pub fn to_json(&self) -> (r: Json)
        ensures
            r@ == safety_settings_to_json(*self),
    {
        let mut fields: Vec<(String, Json)> = Vec::new();
        push_field(&mut fields, "category", Json::Str(self.category.to_name()));
        push_field(&mut fields, "threshold", Json::Str(self.threshold.to_name()));
        let r = Json::Obj(fields);
        proof {
            assert(json_fields_view(fields@) =~= safety_settings_to_json(*self)->Obj_0);
        }
        r
    }

    /// Reads a rule back out of a JSON object.
    pub fn from_json(j: &Json) -> (r: Option<SafetySettings>)
        ensures
            match r {
                Some(s) => safety_settings_of_json(j@) == Some(s),
                None => safety_settings_of_json(j@) is None,
            },
    {
        match j {
            Json::Obj(fields) => {
                let category: HarmCategory = match json_obj_get(fields, "category") {
                    Some(Json::Str(s)) => match HarmCategory::from_name(s.as_str()) {
                        Some(c) => c,
                        None => {
                            return None;
                        },
                    },
                    _ => {
                        return None;
                    },
                };
                let threshold: HarmBlockThreshold = match json_obj_get(fields, "threshold") {
                    Some(Json::Str(s)) => match HarmBlockThreshold::from_name(s.as_str()) {
                        Some(t) => t,
                        None => {
                            return None;
                        },
                    },
                    _ => {
                        return None;
                    },
                };
                Some(SafetySettings { category, threshold })
            },
            _ => None,
        }
    }
}

/// A safety rule decodes back to itself.
pub proof fn lemma_safety_settings_round_trip(s: SafetySettings)
    ensures
        safety_settings_of_json(safety_settings_to_json(s)) == Some(s),
{
    reveal_strlit("category");
    reveal_strlit("threshold");
    assert("category"@.len() == 8);
    assert("threshold"@.len() == 9);
    reveal_with_fuel(crate::json::obj_get, 4);
    let fs = safety_settings_to_json(s)->Obj_0;
    assert(fs.drop_first() =~= seq![
        ("threshold"@, JsonView::Str(harm_block_threshold_name(s.threshold))),
    ]);
    lemma_harm_category_name_round_trip(s.category);
    lemma_harm_block_threshold_name_round_trip(s.threshold);
}

/// A function made available to the model, with a JSON schema for its
/// parameters.
#[derive(Debug, Clone)]
pub struct FunctionDeclaration {
    pub name: String,
    pub description: String,
    pub parameters: Json,
}

/// The mathematical shape of [`FunctionDeclaration`].
#[verifier::ext_equal]
pub struct FunctionDeclarationView {
    pub name: Seq<char>,
    pub description: Seq<char>,
    pub parameters: JsonView,
}

impl View for FunctionDeclaration {
    type V = FunctionDeclarationView;

    open spec fn view(&self) -> FunctionDeclarationView {
        FunctionDeclarationView {
            name: self.name@,
            description: self.description@,
            parameters: self.parameters@,
        }
    }
}

/// The JSON object for a function declaration: its `name`, `description`
/// and `parameters` schema, spliced in verbatim.
pub open spec fn function_declaration_to_json(v: FunctionDeclarationView) -> JsonView {
    JsonView::Obj(
        seq![
            ("name"@, JsonView::Str(v.name)),
            ("description"@, JsonView::Str(v.description)),
            ("parameters"@, v.parameters),
        ],
    )
}

/// Reads a function declaration back out of a JSON value.
pub open spec fn function_declaration_of_json(j: JsonView) -> Option<FunctionDeclarationView> {
    match j {
        JsonView::Obj(fs) => match (
            str_field(fs, "name"@),
            str_field(fs, "description"@),
            obj_get(fs, "parameters"@),
        ) {
            (Some(n), Some(d), Some(p)) => Some(
                FunctionDeclarationView { name: n, description: d, parameters: p },
            ),
            _ => None,
        },
        _ => None,
    }
}

impl FunctionDeclaration {
    /// Renders this declaration as its JSON object.
    pub fn to_json(&self) -> (r: Json)
        ensures
            r@ == function_declaration_to_json(self@),
    {
        let mut fields: Vec<(String, Json)> = Vec::new();
        push_field(&mut fields, "name", Json::Str(self.name.clone()));
        push_field(&mut fields, "description", Json::Str(self.description.clone()));
        push_field(&mut fields, "parameters", self.parameters.clone());
        let r = Json::Obj(fields);
        proof {
            assert(json_fields_view(fields@) =~= function_declaration_to_json(self@)->Obj_0);
        }
        r
    }

    /// Reads a declaration back out of a JSON object.
    pub fn from_json(j: &Json) -> (r: Option<FunctionDeclaration>)
        ensures
            match r {
                Some(v) => function_declaration_of_json(j@) == Some(v@),
                None => function_declaration_of_json(j@) is None,
            },
    {
        match j {
            Json::Obj(fields) => {
                let name: String = match json_obj_get(fields, "name") {
                    Some(Json::Str(s)) => s.clone(),
                    _ => {
                        return None;
                    },
                };
                let description: String = match json_obj_get(fields, "description") {
                    Some(Json::Str(s)) => s.clone(),
                    _ => {
                        return None;
                    },
                };
                let parameters: Json = match json_obj_get(fields, "parameters") {
                    Some(p) => p.clone(),
                    None => {
                        return None;
                    },
                };
                Some(FunctionDeclaration { name, description, parameters })
            },
            _ => None,
        }
    }
}

/// A declaration decodes back to itself.
pub proof fn lemma_function_declaration_round_trip(v: FunctionDeclarationView)
    ensures
        function_declaration_of_json(function_declaration_to_json(v)) == Some(v),
{
    reveal_strlit("name");
    reveal_strlit("description");
    reveal_strlit("parameters");
    assert("name"@.len() == 4);
    assert("description"@.len() == 11);
    assert("parameters"@.len() == 10);
    reveal_with_fuel(crate::json::obj_get, 5);
    let fs = function_declaration_to_json(v)->Obj_0;
    assert(fs.drop_first() =~= seq![
        ("description"@, JsonView::Str(v.description)),
        ("parameters"@, v.parameters),
    ]);
    assert(fs.drop_first().drop_first() =~= seq![("parameters"@, v.parameters)]);
}

/// A set of function declarations handed to the model.
#[derive(Debug, Clone)]
pub struct Tools {
    pub function_declarations: Vec<FunctionDeclaration>,
}

/// The mathematical shape of [`Tools`].
#[verifier::ext_equal]
pub struct ToolsView {
    pub function_declarations: Seq<FunctionDeclarationView>,
}

impl View for Tools {
    type V = ToolsView;

    open spec fn view(&self) -> ToolsView {
        ToolsView { function_declarations: elems_view(self.function_declarations@) }
    }
}

/// The JSON object for a tool set: its `functionDeclarations` array.
pub open spec fn tools_to_json(t: ToolsView) -> JsonView {
    JsonView::Obj(
        seq![
            (
                "functionDeclarations"@,
                JsonView::Arr(function_declarations_to_json(t.function_declarations)),
            ),
        ],
    )
}

/// Reads a tool set back out of a JSON value.
pub open spec fn tools_of_json(j: JsonView) -> Option<ToolsView> {
    match j {
        JsonView::Obj(fs) => match obj_get(fs, "functionDeclarations"@) {
            Some(JsonView::Arr(js)) => match function_declarations_of_json(js) {
                Some(ds) => Some(ToolsView { function_declarations: ds }),
                _ => None,
            },
            _ => None,
        },
        _ => None,
    }
}

impl Tools {
    /// Renders this tool set as its JSON object.
    pub fn to_json(&self) -> (r: Json)
        ensures
            r@ == tools_to_json(self@),
    {
        let mut fields: Vec<(String, Json)> = Vec::new();
        push_field(
            &mut fields,
            "functionDeclarations",
            Json::Arr(function_declarations_to_json_exec(&self.function_declarations)),
        );
        let r = Json::Obj(fields);
        proof {
            assert(json_fields_view(fields@) =~= tools_to_json(self@)->Obj_0);
        }
        r
    }

    /// Reads a tool set back out of a JSON object.
    pub fn from_json(j: &Json) -> (r: Option<Tools>)
        ensures
            match r {
                Some(t) => tools_of_json(j@) == Some(t@),
                None => tools_of_json(j@) is None,
            },
    {
        match j {
            Json::Obj(fields) => {
                let function_declarations: Vec<FunctionDeclaration> = match json_obj_get(
                    fields,
                    "functionDeclarations",
                ) {
                    Some(Json::Arr(items)) => match function_declarations_from_json(items) {
                        Some(ds) => ds,
                        None => {
                            return None;
                        },
                    },
                    _ => {
                        return None;
                    },
                };
                Some(Tools { function_declarations })
            },
            _ => None,
        }
    }
}

/// A tool set decodes back to itself.
pub proof fn lemma_tools_round_trip(t: ToolsView)
    ensures
        tools_of_json(tools_to_json(t)) == Some(t),
{
    reveal_strlit("functionDeclarations");
    assert("functionDeclarations"@.len() == 20);
    reveal_with_fuel(crate::json::obj_get, 3);
    lemma_function_declarations_round_trip(t.function_declarations);
}

/// The JSON array elements of a list of safety rules, in order.
pub open spec fn settings_to_json(xs: Seq<SafetySettings>) -> Seq<JsonView> {
    Seq::new(xs.len(), |i: int| safety_settings_to_json(xs[i]))
}

/// Reads a list of safety rules back out of JSON array elements; any bad element
/// spoils the whole list.
pub open spec fn settings_of_json(js: Seq<JsonView>) -> Option<Seq<SafetySettings>>
    decreases js.len(),
{
    if js.len() == 0 {
        Some(Seq::empty())
    } else {
        match (settings_of_json(js.drop_last()), safety_settings_of_json(js.last())) {
            (Some(xs), Some(x)) => Some(xs.push(x)),
            _ => None,
        }
    }
}

proof fn lemma_settings_of_json_fails(js: Seq<JsonView>, i: int)
    requires
        0 <= i < js.len(),
        safety_settings_of_json(js[i]) is None,
    ensures
        settings_of_json(js) is None,
    decreases js.len(),
{
    if i < js.len() - 1 {
        assert(js.drop_last()[i] == js[i]);
        lemma_settings_of_json_fails(js.drop_last(), i);
    }
}

/// A list of safety rules decodes back to itself.
pub proof fn lemma_settings_round_trip(xs: Seq<SafetySettings>)
    ensures
        settings_of_json(settings_to_json(xs)) == Some(xs),
    decreases xs.len(),
{
    if xs.len() > 0 {
        assert(settings_to_json(xs).drop_last() =~= settings_to_json(xs.drop_last()));
        lemma_settings_round_trip(xs.drop_last());
        lemma_safety_settings_round_trip(xs.last());
        assert(xs.drop_last().push(xs.last()) =~= xs);
    }
}

/// Renders each element of the list.
pub fn settings_to_json_exec(items: &Vec<SafetySettings>) -> (r: Vec<Json>)
    ensures
        json_seq_view(r@) == settings_to_json(elems_view(items@)),
{
    let mut out: Vec<Json> = Vec::new();
    let n = items.len();
    let mut i: usize = 0;
    while i < n
        invariant
            n == items@.len(),
            i <= n,
            out@.len() == i,
            json_seq_view(out@) =~= settings_to_json(elems_view(items@)).take(i as int),
        decreases n - i,
    {
        let ghost prev = out@;
        out.push(items[i].to_json());
        proof {
            assert(out@.drop_last() =~= prev);
            assert(json_seq_view(out@) =~= settings_to_json(elems_view(items@)).take(i + 1 as int));
        }
        i = i + 1;
    }
    proof {
        assert(settings_to_json(elems_view(items@)).take(n as int) =~= settings_to_json(
            elems_view(items@),
        ));
    }
    out
}

/// Reads each element of a JSON array.
pub fn settings_from_json(items: &Vec<Json>) -> (r: Option<Vec<SafetySettings>>)
    ensures
        match r {
            Some(v) => settings_of_json(json_seq_view(items@)) == Some(elems_view(v@)),
            None => settings_of_json(json_seq_view(items@)) is None,
        },
{
    let ghost js = json_seq_view(items@);
    proof {
        lemma_json_seq_view(items@);
    }
    let mut out: Vec<SafetySettings> = Vec::new();
    let n = items.len();
    let mut i: usize = 0;
    while i < n
        invariant
            n == items@.len(),
            i <= n,
            out@.len() == i,
            js == json_seq_view(items@),
            js.len() == n,
            forall|k: int| 0 <= k < n ==> #[trigger] js[k] == items@[k]@,
            settings_of_json(js.take(i as int)) == Some(elems_view(out@)),
        decreases n - i,
    {
        match SafetySettings::from_json(&items[i]) {
            Some(p) => {
                let ghost prev = out@;
                out.push(p);
                proof {
                    assert(js.take(i + 1 as int).drop_last() =~= js.take(i as int));
                    assert(js.take(i + 1 as int).last() == js[i as int]);
                    assert(elems_view(out@) =~= elems_view(prev).push(p@));
                }
            },
            None => {
                proof {
                    lemma_settings_of_json_fails(js, i as int);
                }
                return None;
            },
        }
        i = i + 1;
    }
    proof {
        assert(js.take(n as int) =~= js);
    }
    Some(out)
}

/// The JSON array elements of a list of function declarations, in order.
pub open spec fn function_declarations_to_json(xs: Seq<FunctionDeclarationView>) -> Seq<JsonView> {
    Seq::new(xs.len(), |i: int| function_declaration_to_json(xs[i]))
}

/// Reads a list of function declarations back out of JSON array elements; any bad element
/// spoils the whole list.
pub open spec fn function_declarations_of_json(js: Seq<JsonView>) -> Option<Seq<FunctionDeclarationView>>
    decreases js.len(),
{
    if js.len() == 0 {
        Some(Seq::empty())
    } else {
        match (function_declarations_of_json(js.drop_last()), function_declaration_of_json(js.last())) {
            (Some(xs), Some(x)) => Some(xs.push(x)),
            _ => None,
        }
    }
}

proof fn lemma_function_declarations_of_json_fails(js: Seq<JsonView>, i: int)
    requires
        0 <= i < js.len(),
        function_declaration_of_json(js[i]) is None,
    ensures
        function_declarations_of_json(js) is None,
    decreases js.len(),
{
    if i < js.len() - 1 {
        assert(js.drop_last()[i] == js[i]);
        lemma_function_declarations_of_json_fails(js.drop_last(), i);
    }
}

/// A list of function declarations decodes back to itself.
pub proof fn lemma_function_declarations_round_trip(xs: Seq<FunctionDeclarationView>)
    ensures
        function_declarations_of_json(function_declarations_to_json(xs)) == Some(xs),
    decreases xs.len(),
{
    if xs.len() > 0 {
        assert(function_declarations_to_json(xs).drop_last() =~= function_declarations_to_json(xs.drop_last()));
        lemma_function_declarations_round_trip(xs.drop_last());
        lemma_function_declaration_round_trip(xs.last());
        assert(xs.drop_last().push(xs.last()) =~= xs);
    }
}

/// Renders each element of the list.
pub fn function_declarations_to_json_exec(items: &Vec<FunctionDeclaration>) -> (r: Vec<Json>)
    ensures
        json_seq_view(r@) == function_declarations_to_json(elems_view(items@)),
{
    let mut out: Vec<Json> = Vec::new();
    let n = items.len();
    let mut i: usize = 0;
    while i < n
        invariant
            n == items@.len(),
            i <= n,
            out@.len() == i,
            json_seq_view(out@) =~= function_declarations_to_json(elems_view(items@)).take(i as int),
        decreases n - i,
    {
        let ghost prev = out@;
        out.push(items[i].to_json());
        proof {
            assert(out@.drop_last() =~= prev);
            assert(json_seq_view(out@) =~= function_declarations_to_json(elems_view(items@)).take(i + 1 as int));
        }
        i = i + 1;
    }
    proof {
        assert(function_declarations_to_json(elems_view(items@)).take(n as int) =~= function_declarations_to_json(
            elems_view(items@),
        ));
    }
    out
}

/// Reads each element of a JSON array.
pub fn function_declarations_from_json(items: &Vec<Json>) -> (r: Option<Vec<FunctionDeclaration>>)
    ensures
        match r {
            Some(v) => function_declarations_of_json(json_seq_view(items@)) == Some(elems_view(v@)),
            None => function_declarations_of_json(json_seq_view(items@)) is None,
        },
{
    let ghost js = json_seq_view(items@);
    proof {
        lemma_json_seq_view(items@);
    }
    let mut out: Vec<FunctionDeclaration> = Vec::new();
    let n = items.len();
    let mut i: usize = 0;
    while i < n
        invariant
            n == items@.len(),
            i <= n,
            out@.len() == i,
            js == json_seq_view(items@),
            js.len() == n,
            forall|k: int| 0 <= k < n ==> #[trigger] js[k] == items@[k]@,
            function_declarations_of_json(js.take(i as int)) == Some(elems_view(out@)),
        decreases n - i,
    {
        match FunctionDeclaration::from_json(&items[i]) {
            Some(p) => {
                let ghost prev = out@;
                out.push(p);
                proof {
                    assert(js.take(i + 1 as int).drop_last() =~= js.take(i as int));
                    assert(js.take(i + 1 as int).last() == js[i as int]);
                    assert(elems_view(out@) =~= elems_view(prev).push(p@));
                }
            },
            None => {
                proof {
                    lemma_function_declarations_of_json_fails(js, i as int);
                }
                return None;
            },
        }
        i = i + 1;
    }
    proof {
        assert(js.take(n as int) =~= js);
    }
    Some(out)
}

/// The JSON array elements of a list of tool sets, in order.
pub open spec fn tools_list_to_json(xs: Seq<ToolsView>) -> Seq<JsonView> {
    Seq::new(xs.len(), |i: int| tools_to_json(xs[i]))
}

/// Reads a list of tool sets back out of JSON array elements; any bad element
/// spoils the whole list.
pub open spec fn tools_list_of_json(js: Seq<JsonView>) -> Option<Seq<ToolsView>>
    decreases js.len(),
{
    if js.len() == 0 {
        Some(Seq::empty())
    } else {
        match (tools_list_of_json(js.drop_last()), tools_of_json(js.last())) {
            (Some(xs), Some(x)) => Some(xs.push(x)),
            _ => None,
        }
    }
}

proof fn lemma_tools_list_of_json_fails(js: Seq<JsonView>, i: int)
    requires
        0 <= i < js.len(),
        tools_of_json(js[i]) is None,
    ensures
        tools_list_of_json(js) is None,
    decreases js.len(),
{
    if i < js.len() - 1 {
        assert(js.drop_last()[i] == js[i]);
        lemma_tools_list_of_json_fails(js.drop_last(), i);
    }
}

/// A list of tool sets decodes back to itself.
pub proof fn lemma_tools_list_round_trip(xs: Seq<ToolsView>)
    ensures
        tools_list_of_json(tools_list_to_json(xs)) == Some(xs),
    decreases xs.len(),
{
    if xs.len() > 0 {
        assert(tools_list_to_json(xs).drop_last() =~= tools_list_to_json(xs.drop_last()));
        lemma_tools_list_round_trip(xs.drop_last());
        lemma_tools_round_trip(xs.last());
        assert(xs.drop_last().push(xs.last()) =~= xs);
    }
}

/// Renders each element of the list.
pub fn tools_list_to_json_exec(items: &Vec<Tools>) -> (r: Vec<Json>)
    ensures
        json_seq_view(r@) == tools_list_to_json(elems_view(items@)),
{
    let mut out: Vec<Json> = Vec::new();
    let n = items.len();
    let mut i: usize = 0;
    while i < n
        invariant
            n == items@.len(),
            i <= n,
            out@.len() == i,
            json_seq_view(out@) =~= tools_list_to_json(elems_view(items@)).take(i as int),
        decreases n - i,
    {
        let ghost prev = out@;
        out.push(items[i].to_json());
        proof {
            assert(out@.drop_last() =~= prev);
            assert(json_seq_view(out@) =~= tools_list_to_json(elems_view(items@)).take(i + 1 as int));
        }
        i = i + 1;
    }
    proof {
        assert(tools_list_to_json(elems_view(items@)).take(n as int) =~= tools_list_to_json(
            elems_view(items@),
        ));
    }
    out
}

/// Reads each element of a JSON array.
pub fn tools_list_from_json(items: &Vec<Json>) -> (r: Option<Vec<Tools>>)
    ensures
        match r {
            Some(v) => tools_list_of_json(json_seq_view(items@)) == Some(elems_view(v@)),
            None => tools_list_of_json(json_seq_view(items@)) is None,
        },
{
    let ghost js = json_seq_view(items@);
    proof {
        lemma_json_seq_view(items@);
    }
    let mut out: Vec<Tools> = Vec::new();
    let n = items.len();
    let mut i: usize = 0;
    while i < n
        invariant
            n == items@.len(),
            i <= n,
            out@.len() == i,
            js == json_seq_view(items@),
            js.len() == n,
            forall|k: int| 0 <= k < n ==> #[trigger] js[k] == items@[k]@,
            tools_list_of_json(js.take(i as int)) == Some(elems_view(out@)),
        decreases n - i,
    {
        match Tools::from_json(&items[i]) {
            Some(p) => {
                let ghost prev = out@;
                out.push(p);
                proof {
                    assert(js.take(i + 1 as int).drop_last() =~= js.take(i as int));
                    assert(js.take(i + 1 as int).last() == js[i as int]);
                    assert(elems_view(out@) =~= elems_view(prev).push(p@));
                }
            },
            None => {
                proof {
                    lemma_tools_list_of_json_fails(js, i as int);
                }
                return None;
            },
        }
        i = i + 1;
    }
    proof {
        assert(js.take(n as int) =~= js);
    }
    Some(out)
}

/// The JSON array elements of a list of contents, in order.
pub open spec fn contents_to_json(xs: Seq<ContentView>) -> Seq<JsonView> {
    Seq::new(xs.len(), |i: int| content_to_json(xs[i]))
}

/// Reads a list of contents back out of JSON array elements; any bad element
/// spoils the whole list.
pub open spec fn contents_of_json(js: Seq<JsonView>) -> Option<Seq<ContentView>>
    decreases js.len(),
{
    if js.len() == 0 {
        Some(Seq::empty())
    } else {
        match (contents_of_json(js.drop_last()), content_of_json(js.last())) {
            (Some(xs), Some(x)) => Some(xs.push(x)),
            _ => None,
        }
    }
}

proof fn lemma_contents_of_json_fails(js: Seq<JsonView>, i: int)
    requires
        0 <= i < js.len(),
        content_of_json(js[i]) is None,
    ensures
        contents_of_json(js) is None,
    decreases js.len(),
{
    if i < js.len() - 1 {
        assert(js.drop_last()[i] == js[i]);
        lemma_contents_of_json_fails(js.drop_last(), i);
    }
}

/// A list of contents decodes back to itself.
pub proof fn lemma_contents_round_trip(xs: Seq<ContentView>)
    requires
        forall|i: int| 0 <= i < xs.len() ==> content_view_wf(#[trigger] xs[i]),
    ensures
        contents_of_json(contents_to_json(xs)) == Some(xs),
    decreases xs.len(),
{
    if xs.len() > 0 {
        assert(contents_to_json(xs).drop_last() =~= contents_to_json(xs.drop_last()));
        lemma_contents_round_trip(xs.drop_last());
        lemma_content_round_trip(xs.last());
        assert(xs.drop_last().push(xs.last()) =~= xs);
    }
}

/// Renders each element of the list.
pub fn contents_to_json_exec(items: &Vec<Content>) -> (r: Vec<Json>)
    ensures
        json_seq_view(r@) == contents_to_json(elems_view(items@)),
{
    let mut out: Vec<Json> = Vec::new();
    let n = items.len();
    let mut i: usize = 0;
    while i < n
        invariant
            n == items@.len(),
            i <= n,
            out@.len() == i,
            json_seq_view(out@) =~= contents_to_json(elems_view(items@)).take(i as int),
        decreases n - i,
    {
        let ghost prev = out@;
        out.push(items[i].to_json());
        proof {
            assert(out@.drop_last() =~= prev);
            assert(json_seq_view(out@) =~= contents_to_json(elems_view(items@)).take(i + 1 as int));
        }
        i = i + 1;
    }
    proof {
        assert(contents_to_json(elems_view(items@)).take(n as int) =~= contents_to_json(
            elems_view(items@),
        ));
    }
    out
}

/// Reads each element of a JSON array.
pub fn contents_from_json(items: &Vec<Json>) -> (r: Option<Vec<Content>>)
    ensures
        match r {
            Some(v) => contents_of_json(json_seq_view(items@)) == Some(elems_view(v@)),
            None => contents_of_json(json_seq_view(items@)) is None,
        },
{
    let ghost js = json_seq_view(items@);
    proof {
        lemma_json_seq_view(items@);
    }
    let mut out: Vec<Content> = Vec::new();
    let n = items.len();
    let mut i: usize = 0;
    while i < n
        invariant
            n == items@.len(),
            i <= n,
            out@.len() == i,
            js == json_seq_view(items@),
            js.len() == n,
            forall|k: int| 0 <= k < n ==> #[trigger] js[k] == items@[k]@,
            contents_of_json(js.take(i as int)) == Some(elems_view(out@)),
        decreases n - i,
    {
        match Content::from_json(&items[i]) {
            Some(p) => {
                let ghost prev = out@;
                out.push(p);
                proof {
                    assert(js.take(i + 1 as int).drop_last() =~= js.take(i as int));
                    assert(js.take(i + 1 as int).last() == js[i as int]);
                    assert(elems_view(out@) =~= elems_view(prev).push(p@));
                }
            },
            None => {
                proof {
                    lemma_contents_of_json_fails(js, i as int);
                }
                return None;
            },
        }
        i = i + 1;
    }
    proof {
        assert(js.take(n as int) =~= js);
    }
    Some(out)
}

/// The JSON array elements of a list of system-instruction parts, in order.
pub open spec fn si_parts_to_json(xs: Seq<SystemInstructionPartView>) -> Seq<JsonView> {
    Seq::new(xs.len(), |i: int| si_part_to_json(xs[i]))
}

/// Reads a list of system-instruction parts back out of JSON array elements; any bad element
/// spoils the whole list.
pub open spec fn si_parts_of_json(js: Seq<JsonView>) -> Option<Seq<SystemInstructionPartView>>
    decreases js.len(),
{
    if js.len() == 0 {
        Some(Seq::empty())
    } else {
        match (si_parts_of_json(js.drop_last()), si_part_of_json(js.last())) {
            (Some(xs), Some(x)) => Some(xs.push(x)),
            _ => None,
        }
    }
}

proof fn lemma_si_parts_of_json_fails(js: Seq<JsonView>, i: int)
    requires
        0 <= i < js.len(),
        si_part_of_json(js[i]) is None,
    ensures
        si_parts_of_json(js) is None,
    decreases js.len(),
{
    if i < js.len() - 1 {
        assert(js.drop_last()[i] == js[i]);
        lemma_si_parts_of_json_fails(js.drop_last(), i);
    }
}

/// A list of system-instruction parts decodes back to itself.
pub proof fn lemma_si_parts_round_trip(xs: Seq<SystemInstructionPartView>)
    ensures
        si_parts_of_json(si_parts_to_json(xs)) == Some(xs),
    decreases xs.len(),
{
    if xs.len() > 0 {
        assert(si_parts_to_json(xs).drop_last() =~= si_parts_to_json(xs.drop_last()));
        lemma_si_parts_round_trip(xs.drop_last());
        lemma_si_part_round_trip(xs.last());
        assert(xs.drop_last().push(xs.last()) =~= xs);
    }
}

/// Renders each element of the list.
pub fn si_parts_to_json_exec(items: &Vec<SystemInstructionPart>) -> (r: Vec<Json>)
    ensures
        json_seq_view(r@) == si_parts_to_json(elems_view(items@)),
{
    let mut out: Vec<Json> = Vec::new();
    let n = items.len();
    let mut i: usize = 0;
    while i < n
        invariant
            n == items@.len(),
            i <= n,
            out@.len() == i,
            json_seq_view(out@) =~= si_parts_to_json(elems_view(items@)).take(i as int),
        decreases n - i,
    {
        let ghost prev = out@;
        out.push(items[i].to_json());
        proof {
            assert(out@.drop_last() =~= prev);
            assert(json_seq_view(out@) =~= si_parts_to_json(elems_view(items@)).take(i + 1 as int));
        }
        i = i + 1;
    }
    proof {
        assert(si_parts_to_json(elems_view(items@)).take(n as int) =~= si_parts_to_json(
            elems_view(items@),
        ));
    }
    out
}

/// Reads each element of a JSON array.
pub fn si_parts_from_json(items: &Vec<Json>) -> (r: Option<Vec<SystemInstructionPart>>)
    ensures
        match r {
            Some(v) => si_parts_of_json(json_seq_view(items@)) == Some(elems_view(v@)),
            None => si_parts_of_json(json_seq_view(items@)) is None,
        },
{
    let ghost js = json_seq_view(items@);
    proof {
        lemma_json_seq_view(items@);
    }
    let mut out: Vec<SystemInstructionPart> = Vec::new();
    let n = items.len();
    let mut i: usize = 0;
    while i < n
        invariant
            n == items@.len(),
            i <= n,
            out@.len() == i,
            js == json_seq_view(items@),
            js.len() == n,
            forall|k: int| 0 <= k < n ==> #[trigger] js[k] == items@[k]@,
            si_parts_of_json(js.take(i as int)) == Some(elems_view(out@)),
        decreases n - i,
    {
        match SystemInstructionPart::from_json(&items[i]) {
            Some(p) => {
                let ghost prev = out@;
                out.push(p);
                proof {
                    assert(js.take(i + 1 as int).drop_last() =~= js.take(i as int));
                    assert(js.take(i + 1 as int).last() == js[i as int]);
                    assert(elems_view(out@) =~= elems_view(prev).push(p@));
                }
            },
            None => {
                proof {
                    lemma_si_parts_of_json_fails(js, i as int);
                }
                return None;
            },
        }
        i = i + 1;
    }
    proof {
        assert(js.take(n as int) =~= js);
    }
    Some(out)
}

/// The JSON array elements of a list of strings, in order.
pub open spec fn strings_to_json(xs: Seq<Seq<char>>) -> Seq<JsonView> {
    Seq::new(xs.len(), |i: int| JsonView::Str(xs[i]))
}

/// Reads a list of strings back out of JSON array elements.
pub open spec fn strings_of_json(js: Seq<JsonView>) -> Option<Seq<Seq<char>>>
    decreases js.len(),
{
    if js.len() == 0 {
        Some(Seq::empty())
    } else {
        match (strings_of_json(js.drop_last()), js.last()) {
            (Some(xs), JsonView::Str(x)) => Some(xs.push(x)),
            _ => None,
        }
    }
}

proof fn lemma_strings_of_json_fails(js: Seq<JsonView>, i: int)
    requires
        0 <= i < js.len(),
        !(js[i] is Str),
    ensures
        strings_of_json(js) is None,
    decreases js.len(),
{
    if i < js.len() - 1 {
        assert(js.drop_last()[i] == js[i]);
        lemma_strings_of_json_fails(js.drop_last(), i);
    }
}

/// A list of strings decodes back to itself.
pub proof fn lemma_strings_round_trip(xs: Seq<Seq<char>>)
    ensures
        strings_of_json(strings_to_json(xs)) == Some(xs),
    decreases xs.len(),
{
    if xs.len() > 0 {
        assert(strings_to_json(xs).drop_last() =~= strings_to_json(xs.drop_last()));
        lemma_strings_round_trip(xs.drop_last());
        assert(xs.drop_last().push(xs.last()) =~= xs);
    }
}

/// Renders each string of the list.
pub fn strings_to_json_exec(items: &Vec<String>) -> (r: Vec<Json>)
    ensures
        json_seq_view(r@) == strings_to_json(elems_view(items@)),
{
    let mut out: Vec<Json> = Vec::new();
    let n = items.len();
    let mut i: usize = 0;
    while i < n
        invariant
            n == items@.len(),
            i <= n,
            out@.len() == i,
            json_seq_view(out@) =~= strings_to_json(elems_view(items@)).take(i as int),
        decreases n - i,
    {
        let ghost prev = out@;
        let cloned = items[i].clone();
        let ghost cloned_view = cloned@;
        out.push(Json::Str(cloned));
        proof {
            assert(out@.drop_last() =~= prev);
            assert(out@.last()@ == JsonView::Str(cloned_view));
            lemma_json_seq_view(prev);
            lemma_json_seq_view(out@);
            assert(json_seq_view(out@) =~= strings_to_json(elems_view(items@)).take(i + 1 as int));
        }
        i = i + 1;
    }
    proof {
        assert(strings_to_json(elems_view(items@)).take(n as int) =~= strings_to_json(
            elems_view(items@),
        ));
    }
    out
}

/// Reads each string of a JSON array.
pub fn strings_from_json(items: &Vec<Json>) -> (r: Option<Vec<String>>)
    ensures
        match r {
            Some(v) => strings_of_json(json_seq_view(items@)) == Some(elems_view(v@)),
            None => strings_of_json(json_seq_view(items@)) is None,
        },
{
    let ghost js = json_seq_view(items@);
    proof {
        lemma_json_seq_view(items@);
    }
    let mut out: Vec<String> = Vec::new();
    let n = items.len();
    let mut i: usize = 0;
    while i < n
        invariant
            n == items@.len(),
            i <= n,
            out@.len() == i,
            js == json_seq_view(items@),
            js.len() == n,
            forall|k: int| 0 <= k < n ==> #[trigger] js[k] == items@[k]@,
            strings_of_json(js.take(i as int)) == Some(elems_view(out@)),
        decreases n - i,
    {
        match &items[i] {
            Json::Str(s) => {
                let ghost prev = out@;
                out.push(s.clone());
                proof {
                    assert(js.take(i + 1 as int).drop_last() =~= js.take(i as int));
                    assert(js.take(i + 1 as int).last() == js[i as int]);
                    assert(elems_view(out@) =~= elems_view(prev).push(s@));
                }
            },
            _ => {
                proof {
                    lemma_strings_of_json_fails(js, i as int);
                }
                return None;
            },
        }
        i = i + 1;
    }
    proof {
        assert(js.take(n as int) =~= js);
    }
    Some(out)
}

/// One text unit of a system instruction.
#[derive(Debug, Clone)]
pub struct SystemInstructionPart {
    pub text: Option<String>,
}

/// The mathematical shape of [`SystemInstructionPart`].
#[verifier::ext_equal]
pub struct SystemInstructionPartView {
    pub text: Option<Seq<char>>,
}

impl View for SystemInstructionPart {
    type V = SystemInstructionPartView;

    open spec fn view(&self) -> SystemInstructionPartView {
        SystemInstructionPartView { text: opt_view(self.text) }
    }
}

/// The JSON object for a system-instruction part: its `text` key when the
/// text is populated, and no key at all otherwise.
pub open spec fn si_part_to_json(p: SystemInstructionPartView) -> JsonView {
    JsonView::Obj(
        match p.text {
            Some(t) => seq![("text"@, JsonView::Str(t))],
            None => Seq::empty(),
        },
    )
}

/// Reads a system-instruction part back out of a JSON value.
pub open spec fn si_part_of_json(j: JsonView) -> Option<SystemInstructionPartView> {
    match j {
        JsonView::Obj(fs) => match opt_str_field(fs, "text"@) {
            Some(t) => Some(SystemInstructionPartView { text: t }),
            None => None,
        },
        _ => None,
    }
}

impl SystemInstructionPart {
    /// Renders this part as its JSON object.
    pub fn to_json(&self) -> (r: Json)
        ensures
            r@ == si_part_to_json(self@),
    {
        let mut fields: Vec<(String, Json)> = Vec::new();
        if let Some(t) = &self.text {
            push_field(&mut fields, "text", Json::Str(t.clone()));
        }
        let r = Json::Obj(fields);
        proof {
            assert(json_fields_view(fields@) =~= si_part_to_json(self@)->Obj_0);
        }
        r
    }

    /// Reads a part back out of a JSON object.
    pub fn from_json(j: &Json) -> (r: Option<SystemInstructionPart>)
        ensures
            match r {
                Some(p) => si_part_of_json(j@) == Some(p@),
                None => si_part_of_json(j@) is None,
            },
    {
        match j {
            Json::Obj(fields) => {
                let text: Option<String> = match json_obj_get(fields, "text") {
                    None => None,
                    Some(Json::Null) => None,
                    Some(Json::Str(s)) => Some(s.clone()),
                    Some(_) => {
                        return None;
                    },
                };
                Some(SystemInstructionPart { text })
            },
            _ => None,
        }
    }
}

/// A system-instruction part decodes back to itself.
pub proof fn lemma_si_part_round_trip(p: SystemInstructionPartView)
    ensures
        si_part_of_json(si_part_to_json(p)) == Some(p),
{
    reveal_strlit("text");
    assert("text"@.len() == 4);
    reveal_with_fuel(crate::json::obj_get, 3);
    match p.text {
        Some(t) => {
            assert(si_part_of_json(si_part_to_json(p)) == Some(p));
        },
        None => {
            assert(si_part_to_json(p)->Obj_0 =~= Seq::<(Seq<char>, JsonView)>::empty());
            assert(si_part_of_json(si_part_to_json(p)) == Some(p));
        },
    }
}

/// The system instruction: an ordered list of instruction parts.
#[derive(Debug, Clone)]
pub struct SystemInstructionContent {
    pub parts: Vec<SystemInstructionPart>,
}

/// The mathematical shape of [`SystemInstructionContent`].
#[verifier::ext_equal]
pub struct SystemInstructionContentView {
    pub parts: Seq<SystemInstructionPartView>,
}

impl View for SystemInstructionContent {
    type V = SystemInstructionContentView;

    open spec fn view(&self) -> SystemInstructionContentView {
        SystemInstructionContentView { parts: elems_view(self.parts@) }
    }
}

/// The JSON object for a system instruction: its `parts` array.
pub open spec fn si_content_to_json(c: SystemInstructionContentView) -> JsonView {
    JsonView::Obj(seq![("parts"@, JsonView::Arr(si_parts_to_json(c.parts)))])
}

/// Reads a system instruction back out of a JSON value.  A missing `parts`
/// field is an empty part list.
pub open spec fn si_content_of_json(j: JsonView) -> Option<SystemInstructionContentView> {
    match j {
        JsonView::Obj(fs) => match obj_get(fs, "parts"@) {
            None => Some(SystemInstructionContentView { parts: Seq::empty() }),
            Some(JsonView::Arr(js)) => match si_parts_of_json(js) {
                Some(ps) => Some(SystemInstructionContentView { parts: ps }),
                None => None,
            },
            Some(_) => None,
        },
        _ => None,
    }
}

impl SystemInstructionContent {
    /// Renders this instruction as its JSON object.
    pub fn to_json(&self) -> (r: Json)
        ensures
            r@ == si_content_to_json(self@),
    {
        let mut fields: Vec<(String, Json)> = Vec::new();
        push_field(&mut fields, "parts", Json::Arr(si_parts_to_json_exec(&self.parts)));
        let r = Json::Obj(fields);
        proof {
            assert(json_fields_view(fields@) =~= si_content_to_json(self@)->Obj_0);
        }
        r
    }

    /// Reads an instruction back out of a JSON object.
    pub fn from_json(j: &Json) -> (r: Option<SystemInstructionContent>)
        ensures
            match r {
                Some(c) => si_content_of_json(j@) == Some(c@),
                None => si_content_of_json(j@) is None,
            },
    {
        match j {
            Json::Obj(fields) => {
                let parts: Vec<SystemInstructionPart> = match json_obj_get(fields, "parts") {
                    None => Vec::new(),
                    Some(Json::Arr(items)) => match si_parts_from_json(items) {
                        Some(ps) => ps,
                        None => {
                            return None;
                        },
                    },
                    Some(_) => {
                        return None;
                    },
                };
                Some(SystemInstructionContent { parts })
            },
            _ => None,
        }
    }
}

/// A system instruction decodes back to itself.
pub proof fn lemma_si_content_round_trip(c: SystemInstructionContentView)
    ensures
        si_content_of_json(si_content_to_json(c)) == Some(c),
{
    reveal_strlit("parts");
    assert("parts"@.len() == 5);
    reveal_with_fuel(crate::json::obj_get, 3);
    lemma_si_parts_round_trip(c.parts);
}

/// Sampling and length limits for a generation call.  The two sampling
/// temperatures are carried as decimal number text, exactly as they go on
/// the wire.
#[derive(Debug, Clone)]
pub struct GenerationConfig {
    pub temperature: Option<String>,
    pub top_p: Option<String>,
    pub top_k: Option<i32>,
    pub candidate_count: Option<i32>,
    pub max_output_tokens: Option<i32>,
    pub stop_sequences: Option<Vec<String>>,
    pub response_mime_type: Option<String>,
}

/// The mathematical shape of [`GenerationConfig`].
#[verifier::ext_equal]
pub struct GenerationConfigView {
    pub temperature: Option<Seq<char>>,
    pub top_p: Option<Seq<char>>,
    pub top_k: Option<int>,
    pub candidate_count: Option<int>,
    pub max_output_tokens: Option<int>,
    pub stop_sequences: Option<Seq<Seq<char>>>,
    pub response_mime_type: Option<Seq<char>>,
}

impl View for GenerationConfig {
    type V = GenerationConfigView;

    open spec fn view(&self) -> GenerationConfigView {
        GenerationConfigView {
            temperature: opt_view(self.temperature),
            top_p: opt_view(self.top_p),
            top_k: match self.top_k {
                Some(n) => Some(n as int),
                None => None,
            },
            candidate_count: match self.candidate_count {
                Some(n) => Some(n as int),
                None => None,
            },
            max_output_tokens: match self.max_output_tokens {
                Some(n) => Some(n as int),
                None => None,
            },
            stop_sequences: match &self.stop_sequences {
                Some(v) => Some(elems_view(v@)),
                None => None,
            },
            response_mime_type: opt_view(self.response_mime_type),
        }
    }
}

/// A configuration whose integers fit the wire type.
pub open spec fn generation_config_view_wf(g: GenerationConfigView) -> bool {
    &&& (match g.top_k {
        Some(n) => i32::MIN <= n <= i32::MAX,
        None => true,
    })
    &&& (match g.candidate_count {
        Some(n) => i32::MIN <= n <= i32::MAX,
        None => true,
    })
    &&& (match g.max_output_tokens {
        Some(n) => i32::MIN <= n <= i32::MAX,
        None => true,
    })
}

/// Number text or `null`.
pub open spec fn opt_num_json(o: Option<Seq<char>>) -> JsonView {
    match o {
        Some(t) => JsonView::NumText(t),
        None => JsonView::Null,
    }
}

/// An integer or `null`.
pub open spec fn opt_int_json(o: Option<int>) -> JsonView {
    match o {
        Some(n) => JsonView::Int(n),
        None => JsonView::Null,
    }
}

/// A string or `null`.
pub open spec fn opt_str_json(o: Option<Seq<char>>) -> JsonView {
    match o {
        Some(t) => JsonView::Str(t),
        None => JsonView::Null,
    }
}

/// The JSON object for a generation configuration.  Every key is present;
/// an unset option is `null`.
pub open spec fn generation_config_to_json(g: GenerationConfigView) -> JsonView {
    JsonView::Obj(
        seq![
            ("temperature"@, opt_num_json(g.temperature)),
            ("topP"@, opt_num_json(g.top_p)),
            ("topK"@, opt_int_json(g.top_k)),
            ("candidateCount"@, opt_int_json(g.candidate_count)),
            ("maxOutputTokens"@, opt_int_json(g.max_output_tokens)),
            ("stopSequences"@, match g.stop_sequences {
                Some(ss) => JsonView::Arr(strings_to_json(ss)),
                None => JsonView::Null,
            }),
            ("responseMimeType"@, opt_str_json(g.response_mime_type)),
        ],
    )
}

/// Keeps an optional integer only when it fits in `i32`.
pub open spec fn checked_i32(o: Option<Option<int>>) -> Option<Option<int>> {
    match o {
        Some(Some(n)) => if i32::MIN <= n <= i32::MAX {
            Some(Some(n))
        } else {
            None
        },
        x => x,
    }
}

/// Reads a generation configuration back out of a JSON value.
pub open spec fn generation_config_of_json(j: JsonView) -> Option<GenerationConfigView> {
    match j {
        JsonView::Obj(fs) => {
            let temperature = opt_num_field(fs, "temperature"@);
            let top_p = opt_num_field(fs, "topP"@);
            let top_k = checked_i32(opt_int_field(fs, "topK"@));
            let candidate_count = checked_i32(opt_int_field(fs, "candidateCount"@));
            let max_output_tokens = checked_i32(opt_int_field(fs, "maxOutputTokens"@));
            let stop_sequences = match obj_get(fs, "stopSequences"@) {
                None => Some(None),
                Some(JsonView::Null) => Some(None),
                Some(JsonView::Arr(js)) => match strings_of_json(js) {
                    Some(ss) => Some(Some(ss)),
                    None => None,
                },
                Some(_) => None,
            };
            let response_mime_type = opt_str_field(fs, "responseMimeType"@);
            match (temperature, top_p, top_k, candidate_count, max_output_tokens, stop_sequences, response_mime_type) {
                (Some(t), Some(tp), Some(tk), Some(cc), Some(mo), Some(ss), Some(rm)) => Some(
                    GenerationConfigView {
                        temperature: t,
                        top_p: tp,
                        top_k: tk,
                        candidate_count: cc,
                        max_output_tokens: mo,
                        stop_sequences: ss,
                        response_mime_type: rm,
                    },
                ),
                _ => None,
            }
        },
        _ => None,
    }
}

impl GenerationConfig {
    /// Renders this configuration as its JSON object.
    pub fn to_json(&self) -> (r: Json)
        ensures
            r@ == generation_config_to_json(self@),
    {
        let mut fields: Vec<(String, Json)> = Vec::new();
        let temperature_j = match &self.temperature {
            Some(t) => Json::NumText(t.clone()),
            None => Json::Null,
        };
        push_field(&mut fields, "temperature", temperature_j);
        let top_p_j = match &self.top_p {
            Some(t) => Json::NumText(t.clone()),
            None => Json::Null,
        };
        push_field(&mut fields, "topP", top_p_j);
        let top_k_j = match self.top_k {
            Some(n) => Json::Int(n as i64),
            None => Json::Null,
        };
        push_field(&mut fields, "topK", top_k_j);
        let candidate_count_j = match self.candidate_count {
            Some(n) => Json::Int(n as i64),
            None => Json::Null,
        };
        push_field(&mut fields, "candidateCount", candidate_count_j);
        let max_output_tokens_j = match self.max_output_tokens {
            Some(n) => Json::Int(n as i64),
            None => Json::Null,
        };
        push_field(&mut fields, "maxOutputTokens", max_output_tokens_j);
        let stop_sequences_j = match &self.stop_sequences {
            Some(v) => Json::Arr(strings_to_json_exec(v)),
            None => Json::Null,
        };
        push_field(&mut fields, "stopSequences", stop_sequences_j);
        let response_mime_type_j = match &self.response_mime_type {
            Some(t) => Json::Str(t.clone()),
            None => Json::Null,
        };
        push_field(&mut fields, "responseMimeType", response_mime_type_j);
        let r = Json::Obj(fields);
        proof {
            assert(json_fields_view(fields@) =~= generation_config_to_json(self@)->Obj_0);
        }
        r
    }

    /// Reads a configuration back out of a JSON object.
    pub fn from_json(j: &Json) -> (r: Option<GenerationConfig>)
        ensures
            match r {
                Some(g) => generation_config_of_json(j@) == Some(g@),
                None => generation_config_of_json(j@) is None,
            },
    {
        match j {
            Json::Obj(fields) => {
                let temperature: Option<String> = match json_obj_get(fields, "temperature") {
                    None => None,
                    Some(Json::Null) => None,
                    Some(Json::Int(n)) => Some(crate::text::i64_to_dec_string(*n)),
                    Some(Json::NumText(t)) => Some(t.clone()),
                    Some(_) => {
                        return None;
                    },
                };
                let top_p: Option<String> = match json_obj_get(fields, "topP") {
                    None => None,
                    Some(Json::Null) => None,
                    Some(Json::Int(n)) => Some(crate::text::i64_to_dec_string(*n)),
                    Some(Json::NumText(t)) => Some(t.clone()),
                    Some(_) => {
                        return None;
                    },
                };
                let top_k: Option<i32> = match json_obj_get(fields, "topK") {
                    None => None,
                    Some(Json::Null) => None,
                    Some(Json::Int(n)) => {
                        if *n >= i32::MIN as i64 && *n <= i32::MAX as i64 {
                            Some(*n as i32)
                        } else {
                            return None;
                        }
                    },
                    Some(_) => {
                        return None;
                    },
                };
                let candidate_count: Option<i32> = match json_obj_get(fields, "candidateCount") {
                    None => None,
                    Some(Json::Null) => None,
                    Some(Json::Int(n)) => {
                        if *n >= i32::MIN as i64 && *n <= i32::MAX as i64 {
                            Some(*n as i32)
                        } else {
                            return None;
                        }
                    },
                    Some(_) => {
                        return None;
                    },
                };
                let max_output_tokens: Option<i32> = match json_obj_get(
                    fields,
                    "maxOutputTokens",
                ) {
                    None => None,
                    Some(Json::Null) => None,
                    Some(Json::Int(n)) => {
                        if *n >= i32::MIN as i64 && *n <= i32::MAX as i64 {
                            Some(*n as i32)
                        } else {
                            return None;
                        }
                    },
                    Some(_) => {
                        return None;
                    },
                };
                let stop_sequences: Option<Vec<String>> = match json_obj_get(
                    fields,
                    "stopSequences",
                ) {
                    None => None,
                    Some(Json::Null) => None,
                    Some(Json::Arr(items)) => match strings_from_json(items) {
                        Some(ss) => Some(ss),
                        None => {
                            return None;
                        },
                    },
                    Some(_) => {
                        return None;
                    },
                };
                let response_mime_type: Option<String> = match json_obj_get(
                    fields,
                    "responseMimeType",
                ) {
                    None => None,
                    Some(Json::Null) => None,
                    Some(Json::Str(t)) => Some(t.clone()),
                    Some(_) => {
                        return None;
                    },
                };
                Some(
                    GenerationConfig {
                        temperature,
                        top_p,
                        top_k,
                        candidate_count,
                        max_output_tokens,
                        stop_sequences,
                        response_mime_type,
                    },
                )
            },
            _ => None,
        }
    }
}

/// A configuration decodes back to itself.
pub proof fn lemma_generation_config_round_trip(g: GenerationConfigView)
    requires
        generation_config_view_wf(g),
    ensures
        generation_config_of_json(generation_config_to_json(g)) == Some(g),
{
    reveal_strlit("temperature");
    reveal_strlit("topP");
    reveal_strlit("topK");
    reveal_strlit("candidateCount");
    reveal_strlit("maxOutputTokens");
    reveal_strlit("stopSequences");
    reveal_strlit("responseMimeType");
    assert("temperature"@.len() == 11);
    assert("topP"@.len() == 4);
    assert("topK"@.len() == 4);
    assert("candidateCount"@.len() == 14);
    assert("maxOutputTokens"@.len() == 15);
    assert("stopSequences"@.len() == 13);
    assert("responseMimeType"@.len() == 16);
    assert("topP"@[3] != "topK"@[3]);
    reveal_with_fuel(crate::json::obj_get, 9);
    if let Some(ss) = g.stop_sequences {
        lemma_strings_round_trip(ss);
    }
}

/// The payload of a generation request: contents, tool declarations,
/// safety rules, generation configuration and an optional system
/// instruction.
#[derive(Debug, Clone)]
pub struct Request {
    pub contents: Vec<Content>,
    pub tools: Vec<Tools>,
    pub safety_settings: Vec<SafetySettings>,
    pub generation_config: Option<GenerationConfig>,
    pub system_instruction: Option<SystemInstructionContent>,
}

/// The mathematical shape of [`Request`].
#[verifier::ext_equal]
pub struct RequestView {
    pub contents: Seq<ContentView>,
    pub tools: Seq<ToolsView>,
    pub safety_settings: Seq<SafetySettings>,
    pub generation_config: Option<GenerationConfigView>,
    pub system_instruction: Option<SystemInstructionContentView>,
}

impl View for Request {
    type V = RequestView;

    open spec fn view(&self) -> RequestView {
        RequestView {
            contents: elems_view(self.contents@),
            tools: elems_view(self.tools@),
            safety_settings: elems_view(self.safety_settings@),
            generation_config: opt_view(self.generation_config),
            system_instruction: opt_view(self.system_instruction),
        }
    }
}

/// A request whose nested integers fit the wire types.
pub open spec fn request_view_wf(r: RequestView) -> bool {
    &&& (forall|i: int| 0 <= i < r.contents.len() ==> content_view_wf(#[trigger] r.contents[i]))
    &&& (match r.generation_config {
        Some(g) => generation_config_view_wf(g),
        None => true,
    })
}

/// The field list of [`request_to_json`]: `contents` always, `tools` and
/// `safetySettings` only when non-empty, the configuration and the system
/// instruction only when set.
pub open spec fn request_json_fields(r: RequestView) -> Seq<(Seq<char>, JsonView)> {
    seq![("contents"@, JsonView::Arr(contents_to_json(r.contents)))] + (if r.tools.len() > 0 {
        seq![("tools"@, JsonView::Arr(tools_list_to_json(r.tools)))]
    } else {
        Seq::empty()
    }) + (if r.safety_settings.len() > 0 {
        seq![("safetySettings"@, JsonView::Arr(settings_to_json(r.safety_settings)))]
    } else {
        Seq::empty()
    }) + (match r.generation_config {
        Some(g) => seq![("generationConfig"@, generation_config_to_json(g))],
        None => Seq::empty(),
    }) + (match r.system_instruction {
        Some(c) => seq![("system_instruction"@, si_content_to_json(c))],
        None => Seq::empty(),
    })
}

/// The JSON object for a request.
pub open spec fn request_to_json(r: RequestView) -> JsonView {
    JsonView::Obj(request_json_fields(r))
}

/// Reads a request back out of a JSON value.  Missing `tools` and
/// `safetySettings` are empty lists; a missing configuration or system
/// instruction is unset.
pub open spec fn request_of_json(j: JsonView) -> Option<RequestView> {
    match j {
        JsonView::Obj(fs) => {
            let contents = match obj_get(fs, "contents"@) {
                Some(JsonView::Arr(js)) => contents_of_json(js),
                _ => None,
            };
            let tools = match obj_get(fs, "tools"@) {
                None => Some(Seq::empty()),
                Some(JsonView::Arr(js)) => tools_list_of_json(js),
                Some(_) => None,
            };
            let safety_settings = match obj_get(fs, "safetySettings"@) {
                None => Some(Seq::empty()),
                Some(JsonView::Arr(js)) => settings_of_json(js),
                Some(_) => None,
            };
            let generation_config = match opt_field(fs, "generationConfig"@) {
                None => Some(None),
                Some(gj) => match generation_config_of_json(gj) {
                    Some(g) => Some(Some(g)),
                    None => None,
                },
            };
            let system_instruction = match opt_field(fs, "system_instruction"@) {
                None => Some(None),
                Some(cj) => match si_content_of_json(cj) {
                    Some(c) => Some(Some(c)),
                    None => None,
                },
            };
            match (contents, tools, safety_settings, generation_config, system_instruction) {
                (Some(cs), Some(ts), Some(ss), Some(gc), Some(si)) => Some(
                    RequestView {
                        contents: cs,
                        tools: ts,
                        safety_settings: ss,
                        generation_config: gc,
                        system_instruction: si,
                    },
                ),
                _ => None,
            }
        },
        _ => None,
    }
}

impl Request {
    /// Builds a request with no system instruction.
    pub fn new(
        contents: Vec<Content>,
        tools: Vec<Tools>,
        safety_settings: Vec<SafetySettings>,
        generation_config: Option<GenerationConfig>,
    ) -> (r: Request)
        ensures
            r.contents == contents,
            r.tools == tools,
            r.safety_settings == safety_settings,
            r.generation_config == generation_config,
            r.system_instruction is None,
    {
        Request { contents, tools, safety_settings, generation_config, system_instruction: None }
    }

    /// Replaces the system instruction.
    pub fn set_system_instruction(&mut self, instruction: SystemInstructionContent)
        ensures
            final(self).system_instruction == Some(instruction),
            final(self).contents == old(self).contents,
            final(self).tools == old(self).tools,
            final(self).safety_settings == old(self).safety_settings,
            final(self).generation_config == old(self).generation_config,
    {
        self.system_instruction = Some(instruction);
    }

    /// Renders this request as its JSON object.
    pub fn to_json(&self) -> (r: Json)
        ensures
            r@ == request_to_json(self@),
    {
        let mut fields: Vec<(String, Json)> = Vec::new();
        push_field(&mut fields, "contents", Json::Arr(contents_to_json_exec(&self.contents)));
        if self.tools.len() > 0 {
            push_field(&mut fields, "tools", Json::Arr(tools_list_to_json_exec(&self.tools)));
        }
        if self.safety_settings.len() > 0 {
            push_field(
                &mut fields,
                "safetySettings",
                Json::Arr(settings_to_json_exec(&self.safety_settings)),
            );
        }
        if let Some(g) = &self.generation_config {
            push_field(&mut fields, "generationConfig", g.to_json());
        }
        if let Some(c) = &self.system_instruction {
            push_field(&mut fields, "system_instruction", c.to_json());
        }
        let r = Json::Obj(fields);
        proof {
            assert(elems_view(self.tools@).len() == self.tools@.len());
            assert(elems_view(self.safety_settings@).len() == self.safety_settings@.len());
            assert(json_fields_view(fields@) =~= request_json_fields(self@));
        }
        r
    }

    /// Reads a request back out of a JSON object.
    pub fn from_json(j: &Json) -> (r: Option<Request>)
        ensures
            match r {
                Some(q) => request_of_json(j@) == Some(q@),
                None => request_of_json(j@) is None,
            },
    {
        match j {
            Json::Obj(fields) => {
                let contents: Vec<Content> = match json_obj_get(fields, "contents") {
                    Some(Json::Arr(items)) => match contents_from_json(items) {
                        Some(cs) => cs,
                        None => {
                            return None;
                        },
                    },
                    _ => {
                        return None;
                    },
                };
                let tools: Vec<Tools> = match json_obj_get(fields, "tools") {
                    None => Vec::new(),
                    Some(Json::Arr(items)) => match tools_list_from_json(items) {
                        Some(ts) => ts,
                        None => {
                            return None;
                        },
                    },
                    Some(_) => {
                        return None;
                    },
                };
                let safety_settings: Vec<SafetySettings> = match json_obj_get(
                    fields,
                    "safetySettings",
                ) {
                    None => Vec::new(),
                    Some(Json::Arr(items)) => match settings_from_json(items) {
                        Some(ss) => ss,
                        None => {
                            return None;
                        },
                    },
                    Some(_) => {
                        return None;
                    },
                };
                let generation_config: Option<GenerationConfig> = match json_obj_get(
                    fields,
                    "generationConfig",
                ) {
                    None => None,
                    Some(Json::Null) => None,
                    Some(gj) => match GenerationConfig::from_json(gj) {
                        Some(g) => Some(g),
                        None => {
                            return None;
                        },
                    },
                };
                let system_instruction: Option<SystemInstructionContent> = match json_obj_get(
                    fields,
                    "system_instruction",
                ) {
                    None => None,
                    Some(Json::Null) => None,
                    Some(cj) => match SystemInstructionContent::from_json(cj) {
                        Some(c) => Some(c),
                        None => {
                            return None;
                        },
                    },
                };
                Some(
                    Request {
                        contents,
                        tools,
                        safety_settings,
                        generation_config,
                        system_instruction,
                    },
                )
            },
            _ => None,
        }
    }
}

/// A request decodes back to itself: the JSON codec loses nothing.
#[verifier::rlimit(100)]
pub proof fn lemma_request_round_trip(r: RequestView)
    requires
        request_view_wf(r),
    ensures
        request_of_json(request_to_json(r)) == Some(r),
{
    reveal_strlit("contents");
    reveal_strlit("tools");
    reveal_strlit("safetySettings");
    reveal_strlit("generationConfig");
    reveal_strlit("system_instruction");
    assert("contents"@.len() == 8);
    assert("tools"@.len() == 5);
    assert("safetySettings"@.len() == 14);
    assert("generationConfig"@.len() == 16);
    assert("system_instruction"@.len() == 18);
    reveal_with_fuel(crate::json::obj_get, 7);
    let fs = request_json_fields(r);
    lemma_contents_round_trip(r.contents);
    lemma_tools_list_round_trip(r.tools);
    lemma_settings_round_trip(r.safety_settings);
    match (r.generation_config, r.system_instruction) {
        (Some(g), Some(c)) => {
            lemma_generation_config_round_trip(g);
            lemma_si_content_round_trip(c);
            if r.tools.len() > 0 && r.safety_settings.len() > 0 {
                assert(fs =~= seq![("contents"@, JsonView::Arr(contents_to_json(r.contents))), ("tools"@, JsonView::Arr(tools_list_to_json(r.tools))), ("safetySettings"@, JsonView::Arr(settings_to_json(r.safety_settings))), ("generationConfig"@, generation_config_to_json(g)), ("system_instruction"@, si_content_to_json(c))]);
                assert(request_of_json(request_to_json(r)) == Some(r));
            }
            if r.tools.len() > 0 && r.safety_settings.len() == 0 {
                assert(fs =~= seq![("contents"@, JsonView::Arr(contents_to_json(r.contents))), ("tools"@, JsonView::Arr(tools_list_to_json(r.tools))), ("generationConfig"@, generation_config_to_json(g)), ("system_instruction"@, si_content_to_json(c))]);
                assert(r.safety_settings =~= Seq::<SafetySettings>::empty());
                assert(request_of_json(request_to_json(r)) == Some(r));
            }
            if r.tools.len() == 0 && r.safety_settings.len() > 0 {
                assert(fs =~= seq![("contents"@, JsonView::Arr(contents_to_json(r.contents))), ("safetySettings"@, JsonView::Arr(settings_to_json(r.safety_settings))), ("generationConfig"@, generation_config_to_json(g)), ("system_instruction"@, si_content_to_json(c))]);
                assert(r.tools =~= Seq::<ToolsView>::empty());
                assert(request_of_json(request_to_json(r)) == Some(r));
            }
            if r.tools.len() == 0 && r.safety_settings.len() == 0 {
                assert(fs =~= seq![("contents"@, JsonView::Arr(contents_to_json(r.contents))), ("generationConfig"@, generation_config_to_json(g)), ("system_instruction"@, si_content_to_json(c))]);
                assert(r.tools =~= Seq::<ToolsView>::empty());
                assert(r.safety_settings =~= Seq::<SafetySettings>::empty());
                assert(request_of_json(request_to_json(r)) == Some(r));
            }
        },
        (Some(g), None) => {
            lemma_generation_config_round_trip(g);
            if r.tools.len() > 0 && r.safety_settings.len() > 0 {
                assert(fs =~= seq![("contents"@, JsonView::Arr(contents_to_json(r.contents))), ("tools"@, JsonView::Arr(tools_list_to_json(r.tools))), ("safetySettings"@, JsonView::Arr(settings_to_json(r.safety_settings))), ("generationConfig"@, generation_config_to_json(g))]);
                assert(request_of_json(request_to_json(r)) == Some(r));
            }
            if r.tools.len() > 0 && r.safety_settings.len() == 0 {
                assert(fs =~= seq![("contents"@, JsonView::Arr(contents_to_json(r.contents))), ("tools"@, JsonView::Arr(tools_list_to_json(r.tools))), ("generationConfig"@, generation_config_to_json(g))]);
                assert(r.safety_settings =~= Seq::<SafetySettings>::empty());
                assert(request_of_json(request_to_json(r)) == Some(r));
            }
            if r.tools.len() == 0 && r.safety_settings.len() > 0 {
                assert(fs =~= seq![("contents"@, JsonView::Arr(contents_to_json(r.contents))), ("safetySettings"@, JsonView::Arr(settings_to_json(r.safety_settings))), ("generationConfig"@, generation_config_to_json(g))]);
                assert(r.tools =~= Seq::<ToolsView>::empty());
                assert(request_of_json(request_to_json(r)) == Some(r));
            }
            if r.tools.len() == 0 && r.safety_settings.len() == 0 {
                assert(fs =~= seq![("contents"@, JsonView::Arr(contents_to_json(r.contents))), ("generationConfig"@, generation_config_to_json(g))]);
                assert(r.tools =~= Seq::<ToolsView>::empty());
                assert(r.safety_settings =~= Seq::<SafetySettings>::empty());
                assert(request_of_json(request_to_json(r)) == Some(r));
            }
        },
        (None, Some(c)) => {
            lemma_si_content_round_trip(c);
            if r.tools.len() > 0 && r.safety_settings.len() > 0 {
                assert(fs =~= seq![("contents"@, JsonView::Arr(contents_to_json(r.contents))), ("tools"@, JsonView::Arr(tools_list_to_json(r.tools))), ("safetySettings"@, JsonView::Arr(settings_to_json(r.safety_settings))), ("system_instruction"@, si_content_to_json(c))]);
                assert(request_of_json(request_to_json(r)) == Some(r));
            }
            if r.tools.len() > 0 && r.safety_settings.len() == 0 {
                assert(fs =~= seq![("contents"@, JsonView::Arr(contents_to_json(r.contents))), ("tools"@, JsonView::Arr(tools_list_to_json(r.tools))), ("system_instruction"@, si_content_to_json(c))]);
                assert(r.safety_settings =~= Seq::<SafetySettings>::empty());
                assert(request_of_json(request_to_json(r)) == Some(r));
            }
            if r.tools.len() == 0 && r.safety_settings.len() > 0 {
                assert(fs =~= seq![("contents"@, JsonView::Arr(contents_to_json(r.contents))), ("safetySettings"@, JsonView::Arr(settings_to_json(r.safety_settings))), ("system_instruction"@, si_content_to_json(c))]);
                assert(r.tools =~= Seq::<ToolsView>::empty());
                assert(request_of_json(request_to_json(r)) == Some(r));
            }
            if r.tools.len() == 0 && r.safety_settings.len() == 0 {
                assert(fs =~= seq![("contents"@, JsonView::Arr(contents_to_json(r.contents))), ("system_instruction"@, si_content_to_json(c))]);
                assert(r.tools =~= Seq::<ToolsView>::empty());
                assert(r.safety_settings =~= Seq::<SafetySettings>::empty());
                assert(request_of_json(request_to_json(r)) == Some(r));
            }
        },
        (None, None) => {

            if r.tools.len() > 0 && r.safety_settings.len() > 0 {
                assert(fs =~= seq![("contents"@, JsonView::Arr(contents_to_json(r.contents))), ("tools"@, JsonView::Arr(tools_list_to_json(r.tools))), ("safetySettings"@, JsonView::Arr(settings_to_json(r.safety_settings)))]);
                assert(request_of_json(request_to_json(r)) == Some(r));
            }
            if r.tools.len() > 0 && r.safety_settings.len() == 0 {
                assert(fs =~= seq![("contents"@, JsonView::Arr(contents_to_json(r.contents))), ("tools"@, JsonView::Arr(tools_list_to_json(r.tools)))]);
                assert(r.safety_settings =~= Seq::<SafetySettings>::empty());
                assert(request_of_json(request_to_json(r)) == Some(r));
            }
            if r.tools.len() == 0 && r.safety_settings.len() > 0 {
                assert(fs =~= seq![("contents"@, JsonView::Arr(contents_to_json(r.contents))), ("safetySettings"@, JsonView::Arr(settings_to_json(r.safety_settings)))]);
                assert(r.tools =~= Seq::<ToolsView>::empty());
                assert(request_of_json(request_to_json(r)) == Some(r));
            }
            if r.tools.len() == 0 && r.safety_settings.len() == 0 {
                assert(fs =~= seq![("contents"@, JsonView::Arr(contents_to_json(r.contents)))]);
                assert(r.tools =~= Seq::<ToolsView>::empty());
                assert(r.safety_settings =~= Seq::<SafetySettings>::empty());
                assert(request_of_json(request_to_json(r)) == Some(r));
            }
        },
    }
}


/// The billed characters of a content list.
pub open spec fn contents_text_units(cs: Seq<ContentView>) -> nat
    decreases cs.len(),
{
    if cs.len() == 0 {
        0
    } else {
        contents_text_units(cs.drop_last()) + super::parts_text_units(cs.last().parts)
    }
}

impl Request {
    /// The billed character count of the prompt: every code point of every
    /// part text, spaces excluded, saturating at the word range.
    pub fn get_prompt_character_count(&self) -> (r: usize)
        ensures
            r == crate::text::clamp_usize(contents_text_units(elems_view(self.contents@))),
    {
        let ghost cv = elems_view(self.contents@);
        let mut acc: usize = 0;
        let n = self.contents.len();
        let mut i: usize = 0;
        while i < n
            invariant
                n == self.contents@.len(),
                i <= n,
                cv == elems_view(self.contents@),
                cv.len() == n,
                acc == crate::text::clamp_usize(contents_text_units(cv.take(i as int))),
            decreases n - i,
        {
            let units = super::parts_text_units_exec(&self.contents[i].parts);
            assert(cv[i as int].parts == elems_view(self.contents@[i as int].parts@));
            acc = crate::text::sat_add(acc, units);
            proof {
                assert(cv.take(i + 1 as int).drop_last() =~= cv.take(i as int));
                assert(cv.take(i + 1 as int).last() == cv[i as int]);
            }
            i = i + 1;
        }
        proof {
            assert(cv.take(n as int) =~= cv);
        }
        acc
    }
}

} // verus!
