use gemini_client::json::Json;
use gemini_client::v1::api::public_api_url_base;
use gemini_client::v1::api::strip_query;
use gemini_client::v1::api::Client;
use gemini_client::v1::api::PostResult;
use gemini_client::v1::api::Url;
use gemini_client::v1::gemini::request::Request;
use gemini_client::v1::gemini::Content;
use gemini_client::v1::gemini::Model;
use gemini_client::v1::gemini::Part;
use gemini_client::v1::gemini::ResponseType;
use gemini_client::v1::gemini::Role;

#[test]
fn test_new_error_from_status_code() {
    let client = Client::new("my-api-key".to_string());
    let status_code: u16 = 400;

    let error = client.new_error_from_status_code(status_code);

    assert_eq!(error.message, "HTTP Error: 400: Bad Request");
    assert_eq!(error.code, Some(status_code));
}

#[test]
fn test_url_new() {
    let model = Model::default();
    let api_key = String::from("my-api-key");
    let url = Url::new(&model, api_key.clone(), &ResponseType::GenerateContent);

    assert_eq!(
        url.url,
        format!(
            "{}/models/{}:generateContent?key={}",
            public_api_url_base(),
            model.to_display_string(),
            api_key
        )
    );
}

#[test]
fn status_error_keeps_code_and_message_is_never_empty() {
    let client = Client::new("k".to_string());
    for code in [400u16, 401, 403, 404, 418, 500, 503, 599] {
        let error = client.new_error_from_status_code(code);
        assert_eq!(error.code, Some(code));
        assert!(!error.message.is_empty());
        assert!(error.message.contains(&format!("{}", code)));
    }
    assert_eq!(
        client.new_error_from_status_code(404).message,
        "HTTP Error: 404: Not Found"
    );
    assert_eq!(
        client.new_error_from_status_code(599).message,
        "HTTP Error: 599: Unknown Status"
    );
}

#[test]
fn public_url_for_default_generate_call() {
    let client = Client::new("my-api-key".to_string());
    assert_eq!(
        client.url,
        "https://generativelanguage.googleapis.com/v1/models/gemini-pro:generateContent?key=my-api-key"
    );
}

#[test]
fn public_url_variants() {
    let count = Client::new_from_response_type(ResponseType::CountTokens, "k".to_string());
    assert_eq!(
        count.url,
        "https://generativelanguage.googleapis.com/v1/models/gemini-pro:countTokens?key=k"
    );
    let get_model = Client::new_from_model_response_type(
        Model::GeminiProVision,
        "k".to_string(),
        ResponseType::GetModel,
    );
    assert_eq!(
        get_model.url,
        "https://generativelanguage.googleapis.com/v1/models/gemini-pro-vision?key=k"
    );
    let list = Client::new_from_response_type(ResponseType::GetModelList, "k".to_string());
    assert_eq!(
        list.url,
        "https://generativelanguage.googleapis.com/v1/models?key=k"
    );
}

#[test]
fn dispatch_rest_response() {
    let client = Client::new("k".to_string());
    let body = "{\"candidates\":[{\"content\":{\"role\":\"model\",\"parts\":[{\"text\":\"Hi\"}]},\"safetyRatings\":[]}],\"usageMetadata\":{\"promptTokenCount\":3,\"candidatesTokenCount\":5}}";
    let result = client.process_post_response(200, body).unwrap();
    let response = result.rest().unwrap();
    assert_eq!(response.candidates.len(), 1);
    assert_eq!(
        response.candidates[0].content.parts[0].text,
        Some("Hi".to_string())
    );
    let usage = response.usage_metadata.unwrap();
    assert_eq!(usage.prompt_token_count, 3);
    assert_eq!(usage.candidates_token_count, 5);
}

#[test]
fn dispatch_rest_error_paths() {
    let client = Client::new("k".to_string());
    let err = client.process_post_response(401, "{}").unwrap_err();
    assert_eq!(err.code, Some(401));
    assert_eq!(err.message, "HTTP Error: 401: Unauthorized");

    let err = client.process_post_response(200, "not json").unwrap_err();
    assert_eq!(err.code, None);
    assert_eq!(
        err.message,
        "Failed to deserialize API response into v1::gemini::response::GeminiResponse"
    );
}

#[test]
fn dispatch_token_count() {
    let client = Client::new_from_response_type(ResponseType::CountTokens, "k".to_string());
    let result = client.process_post_response(200, "{\"totalTokens\":42}").unwrap();
    let count = result.count().unwrap();
    assert_eq!(count.total_tokens, 42);
}

#[test]
fn dispatch_unsupported_operation() {
    let client = Client::new_from_response_type(ResponseType::GetModel, "k".to_string());
    let err = client.process_post_response(200, "{}").unwrap_err();
    assert_eq!(err.code, None);
    assert_eq!(err.message, "Unsupported response type: GetModel");
}

#[test]
fn dispatch_get_model() {
    let client = Client::new_from_response_type(ResponseType::GetModel, "k".to_string());
    let body = "{\"name\":\"models/gemini-pro\",\"version\":\"001\",\"displayName\":\"Gemini Pro\",\"description\":\"The best model\",\"inputTokenLimit\":30720,\"outputTokenLimit\":2048,\"supportedGenerationMethods\":[\"generateContent\",\"countTokens\"],\"temperature\":0.9,\"topP\":1,\"topK\":100}";
    let info = client.process_get_model_response(200, body).unwrap();
    assert_eq!(info.name, "models/gemini-pro");
    assert_eq!(info.input_token_limit, 30720);
    assert_eq!(info.temperature, Some("0.9".to_string()));
    assert_eq!(info.top_p, Some("1".to_string()));
    assert_eq!(info.top_k, Some(100));
    assert_eq!(
        info.supported_generation_methods,
        vec!["generateContent".to_string(), "countTokens".to_string()]
    );
}

#[test]
fn dispatch_get_model_list() {
    let client = Client::new_from_response_type(ResponseType::GetModelList, "k".to_string());
    let body = "{\"models\":[{\"name\":\"models/gemini-pro\",\"version\":\"001\",\"displayName\":\"Gemini Pro\",\"description\":\"d\",\"inputTokenLimit\":1,\"outputTokenLimit\":2,\"supportedGenerationMethods\":[]}]}";
    let list = client.process_get_model_list_response(200, body).unwrap();
    assert_eq!(list.models.len(), 1);
    assert_eq!(list.models[0].version, "001");
    let err = client
        .process_get_model_list_response(200, "{\"models\":3}")
        .unwrap_err();
    assert_eq!(
        err.message,
        "Failed to deserialize API response into v1::gemini::ModelInformationList"
    );
}

#[test]
fn post_result_accessors_reject_other_kinds() {
    let client = Client::new_from_response_type(ResponseType::CountTokens, "k".to_string());
    let result = client.process_post_response(200, "{\"totalTokens\":1}").unwrap();
    assert!(matches!(result, PostResult::Count(_)));
    let result = client.process_post_response(200, "{\"totalTokens\":1}").unwrap();
    assert!(result.rest().is_none());
}

#[test]
fn strip_query_cuts_secrets_off() {
    assert_eq!(
        strip_query("https://example.com/v1/models?key=my-api-key"),
        "https://example.com/v1/models"
    );
    assert_eq!(strip_query("https://example.com/v1"), "https://example.com/v1");
    assert_eq!(strip_query(""), "");
}

#[test]
fn rendered_request_is_valid_json_for_serde() {
    let content = Content {
        role: Role::User,
        parts: vec![Part {
            text: Some("Say hi".to_string()),
            inline_data: None,
            file_data: None,
            video_metadata: None,
        }],
    };
    let request = Request::new(vec![content], vec![], vec![], None);
    let text = request.to_json().render();
    let value: serde_json::Value = serde_json::from_str(&text).unwrap();
    assert_eq!(
        value["contents"][0]["role"],
        serde_json::Value::String("user".to_string())
    );
    assert_eq!(
        value["contents"][0]["parts"][0]["text"],
        serde_json::Value::String("Say hi".to_string())
    );
    assert!(value.get("tools").is_none());
    assert!(value.get("safetySettings").is_none());
    let json = Json::parse_text_str(&text).unwrap();
    let back = Request::from_json(&json).unwrap();
    assert_eq!(back.to_json().render(), text);
}
