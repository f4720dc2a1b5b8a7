use gemini_client::json::Json;
use gemini_client::v1::gemini::request::EndOffset;
use gemini_client::v1::gemini::request::GenerationConfig;
use gemini_client::v1::gemini::request::InlineData;
use gemini_client::v1::gemini::request::Request;
use gemini_client::v1::gemini::request::SafetySettings;
use gemini_client::v1::gemini::request::StartOffset;
use gemini_client::v1::gemini::request::SystemInstructionContent;
use gemini_client::v1::gemini::request::SystemInstructionPart;
use gemini_client::v1::gemini::request::VideoMetadata;
use gemini_client::v1::gemini::response::GeminiResponse;
use gemini_client::v1::gemini::safety::HarmBlockThreshold;
use gemini_client::v1::gemini::safety::HarmCategory;
use gemini_client::v1::gemini::safety::HarmProbability;
use gemini_client::v1::gemini::Content;
use gemini_client::v1::gemini::Part;
use gemini_client::v1::gemini::Role;

fn text_part(text: &str) -> Part {
    Part {
        text: Some(text.to_string()),
        inline_data: None,
        file_data: None,
        video_metadata: None,
    }
}

#[test]
fn text_part_serializes_to_exactly_one_union_key() {
    let part = text_part("hi");
    let rendered = part.to_json().render();
    assert_eq!(rendered, "{\"text\":\"hi\"}");
    assert!(!rendered.contains("inlineData"));
    assert!(!rendered.contains("fileData"));
    assert!(!rendered.contains("videoMetadata"));
    assert!(!rendered.contains("null"));
}

#[test]
fn full_request_round_trips_through_json_text() {
    let content = Content {
        role: Role::User,
        parts: vec![
            text_part("What is in this video?"),
            Part {
                text: None,
                inline_data: Some(InlineData {
                    mime_type: "video/mp4".to_string(),
                    data: "AAAA".to_string(),
                }),
                file_data: None,
                video_metadata: Some(VideoMetadata {
                    start_offset: StartOffset { seconds: 0, nanos: 1 },
                    end_offset: EndOffset { seconds: 10, nanos: 0 },
                }),
            },
        ],
    };
    let settings = SafetySettings {
        category: HarmCategory::HarmCategoryHateSpeech,
        threshold: HarmBlockThreshold::BlockLowAndAbove,
    };
    let config = GenerationConfig {
        temperature: Some("0.9".to_string()),
        top_p: None,
        top_k: Some(40),
        candidate_count: Some(1),
        max_output_tokens: Some(256),
        stop_sequences: Some(vec!["STOP".to_string()]),
        response_mime_type: None,
    };
    let request = Request::new(vec![content], vec![], vec![settings], Some(config));
    let text = request.to_json().render();
    let parsed = Json::parse_text_str(&text).unwrap();
    let back = Request::from_json(&parsed).unwrap();
    assert_eq!(back.to_json().render(), text);
    assert_eq!(back.contents[0].parts.len(), 2);
    assert_eq!(back.safety_settings[0].category, HarmCategory::HarmCategoryHateSpeech);
    assert_eq!(back.generation_config.unwrap().temperature, Some("0.9".to_string()));
}

#[test]
fn response_decodes_from_schema_json() {
    let body = "{\"candidates\":[{\"content\":{\"role\":\"model\",\"parts\":[{\"text\":\"ok\"}]},\"finishReason\":\"STOP\",\"index\":0,\"safetyRatings\":[{\"category\":\"HARM_CATEGORY_HARASSMENT\",\"probability\":\"NEGLIGIBLE\"}]}]}";
    let json = Json::parse_text_str(body).unwrap();
    let response = GeminiResponse::from_json(&json).unwrap();
    assert_eq!(response.candidates.len(), 1);
    let candidate = &response.candidates[0];
    assert_eq!(candidate.finish_reason, Some("STOP".to_string()));
    assert_eq!(candidate.index, Some(0));
    assert_eq!(candidate.safety_ratings[0].category, HarmCategory::HarmCategoryHarassment);
    assert_eq!(candidate.safety_ratings[0].probability, HarmProbability::Negligible);
    assert!(!candidate.safety_ratings[0].blocked);
}

#[test]
fn response_with_missing_candidates_is_rejected() {
    let json = Json::parse_text_str("{\"promptFeedback\":{\"safetyRatings\":[]}}").unwrap();
    assert!(GeminiResponse::from_json(&json).is_none());
}

#[test]
fn parser_reads_numbers_strings_and_nesting() {
    let json = Json::parse_text_str(" [0, -5, 2.5, 1e3, 9223372036854775808, true, null] ").unwrap();
    assert_eq!(
        json.render(),
        "[0,-5,2.5,1e3,9223372036854775808,true,null]"
    );
    let json = Json::parse_text_str("{\"a\":\"x\\n\\u0041\\\"y\"}").unwrap();
    match &json {
        Json::Obj(fields) => match &fields[0].1 {
            Json::Str(s) => assert_eq!(s, "x\nA\"y"),
            _ => panic!("expected a string"),
        },
        _ => panic!("expected an object"),
    }
    assert!(Json::parse_text_str("{\"a\":}").is_none());
    assert!(Json::parse_text_str("[1,]").is_none());
    assert!(Json::parse_text_str("").is_none());
}

#[test]
fn renderer_escapes_control_characters() {
    let json = Json::Str("a\"b\\c\nd\u{1}".to_string());
    assert_eq!(json.render(), "\"a\\\"b\\\\c\\nd\\u0001\"");
    let back = Json::parse_text_str(&json.render()).unwrap();
    assert_eq!(back.render(), json.render());
}

#[test]
fn enum_wire_names_round_trip() {
    assert_eq!(
        HarmCategory::from_name("HARM_CATEGORY_DANGEROUS_CONTENT"),
        Some(HarmCategory::HarmCategoryDangerousContent)
    );
    assert_eq!(HarmCategory::from_name("nonsense"), None);
    assert_eq!(
        HarmBlockThreshold::from_name(&HarmBlockThreshold::BlockMedAndAbove.to_name()),
        Some(HarmBlockThreshold::BlockMedAndAbove)
    );
    assert_eq!(
        HarmProbability::from_name(&HarmProbability::High.to_name()),
        Some(HarmProbability::High)
    );
    assert_eq!(Role::from_name("model"), Some(Role::Model));
    assert_eq!(Role::from_name("Model"), None);
}

#[test]
fn prompt_character_count_excludes_spaces() {
    let content = Content {
        role: Role::User,
        parts: vec![text_part("Hello world"), text_part("abc")],
    };
    let request = Request::new(vec![content], vec![], vec![], None);
    assert_eq!(request.get_prompt_character_count(), 13);
}

#[test]
fn response_character_count_excludes_spaces() {
    let body = "{\"candidates\":[{\"content\":{\"role\":\"model\",\"parts\":[{\"text\":\"a b c\"}]},\"safetyRatings\":[]}]}";
    let json = Json::parse_text_str(body).unwrap();
    let response = GeminiResponse::from_json(&json).unwrap();
    assert_eq!(response.get_response_character_count(), 3);
}

#[test]
fn prompt_character_count_is_utf8_aware() {
    let content = Content {
        role: Role::User,
        parts: vec![text_part("héllo ∞")],
    };
    let request = Request::new(vec![content], vec![], vec![], None);
    assert_eq!(request.get_prompt_character_count(), 6);
}

#[test]
fn generation_config_nulls_round_trip() {
    let config = GenerationConfig {
        temperature: None,
        top_p: None,
        top_k: None,
        candidate_count: None,
        max_output_tokens: None,
        stop_sequences: None,
        response_mime_type: None,
    };
    let request = Request::new(vec![], vec![], vec![], Some(config));
    let text = request.to_json().render();
    assert!(text.contains("\"temperature\":null"));
    let parsed = Json::parse_text_str(&text).unwrap();
    let back = Request::from_json(&parsed).unwrap();
    assert!(back.generation_config.unwrap().temperature.is_none());
}

#[test]
fn system_instruction_is_kept() {
    let mut request = Request::new(vec![], vec![], vec![], None);
    request.set_system_instruction(SystemInstructionContent {
        parts: vec![SystemInstructionPart { text: Some("Be brief".to_string()) }],
    });
    let text = request.to_json().render();
    assert!(text.contains("\"system_instruction\":{\"parts\":[{\"text\":\"Be brief\"}]}"));
}
