use gemini_client::v1::api::Client;
use gemini_client::v1::api::Url;
use gemini_client::v1::gemini::Model;
use gemini_client::v1::gemini::ResponseType;
use gemini_client::v1::vertexai::vertex_ai_api_url_base;

#[test]
fn test_new_from_region_project_id() {
    let region = String::from("us-central1");
    let project_id = String::from("my-project");
    let client = Client::new_from_region_project_id(region.clone(), project_id.clone());

    assert_eq!(client.region, Some(region));
    assert_eq!(client.project_id, Some(project_id));
}

#[test]
fn test_new_from_model_region_project_id() {
    let model = Model::default();
    let region = String::from("us-central1");
    let project_id = String::from("my-project");
    let client =
        Client::new_from_model_region_project_id(model.clone(), region.clone(), project_id.clone());

    assert_eq!(client.model, model);
    assert_eq!(client.region, Some(region));
    assert_eq!(client.project_id, Some(project_id));
}

#[test]
fn test_url_new_from_region_project_id() {
    let model = Model::default();
    let region = String::from("us-central1");
    let project_id = String::from("my-project");
    let url = Url::new_from_region_project_id(
        &model,
        region.clone(),
        project_id.clone(),
        &ResponseType::StreamGenerateContent,
    );

    assert_eq!(
        url.url,
        format!(
            "{}/projects/{}/locations/{}/publishers/google/models/{}:streamGenerateContent",
            vertex_ai_api_url_base().replace("{region}", &region),
            project_id,
            region,
            model.to_display_string()
        )
    );
}

#[test]
fn private_url_for_stream_generate() {
    let client = Client::new_from_region_project_id(
        "us-central1".to_string(),
        "my-project".to_string(),
    );
    assert_eq!(
        client.url,
        "https://us-central1-aiplatform.googleapis.com/v1/projects/my-project/locations/us-central1/publishers/google/models/gemini-pro:streamGenerateContent"
    );
}

#[test]
fn display_never_shows_the_api_key() {
    let client = Client::new("my-api-key".to_string());
    let rendered = client.to_display_string();
    assert!(!rendered.contains("my-api-key"));
    assert!(rendered.contains("*************"));
    assert!(rendered.contains("gemini-pro"));
}

#[test]
fn display_of_private_client_shows_its_key_free_url() {
    let client = Client::new_from_region_project_id(
        "us-central1".to_string(),
        "my-project".to_string(),
    );
    let rendered = client.to_display_string();
    assert!(rendered.contains("my-project"));
    assert!(rendered.contains("us-central1"));
    assert!(!rendered.contains("key="));
}
