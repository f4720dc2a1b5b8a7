use gemini_client::v1::api::Client;
use gemini_client::v1::stream::decode_streamed_body;
use gemini_client::v1::stream::StreamStep;
use gemini_client::v1::stream::StreamedGeminiResponse;

fn chars(s: &str) -> Vec<char> {
    let mut v: Vec<char> = Vec::new();
    for c in s.chars() {
        v.push(c);
    }
    v
}

const GOOD_ONE: &str =
    "{\"candidates\":[{\"content\":{\"role\":\"model\",\"parts\":[{\"text\":\"one\"}]},\"safetyRatings\":[]}]}";
const GOOD_TWO: &str =
    "{\"candidates\":[{\"content\":{\"role\":\"model\",\"parts\":[{\"text\":\"two\"}]},\"safetyRatings\":[]}]}";

#[test]
fn streamed_body_yields_every_fragment_in_order() {
    let body = format!("[{},\n {}]", GOOD_ONE, GOOD_TWO);
    let (fragments, error) = decode_streamed_body(&chars(&body));
    assert!(error.is_none());
    assert_eq!(fragments.len(), 2);
    assert_eq!(
        fragments[0].candidates[0].content.parts[0].text,
        Some("one".to_string())
    );
    assert_eq!(
        fragments[1].candidates[0].content.parts[0].text,
        Some("two".to_string())
    );
}

#[test]
fn empty_array_yields_no_fragments_and_no_error() {
    let (fragments, error) = decode_streamed_body(&chars(" [ ] "));
    assert!(error.is_none());
    assert!(fragments.is_empty());
}

#[test]
fn bad_fragment_ends_the_stream_after_the_good_prefix() {
    let body = format!("[{},{},{}]", GOOD_ONE, "{\"candidates\":\"bad\"}", GOOD_TWO);
    let (fragments, error) = decode_streamed_body(&chars(&body));
    assert_eq!(fragments.len(), 1);
    assert_eq!(
        fragments[0].candidates[0].content.parts[0].text,
        Some("one".to_string())
    );
    let error = error.unwrap();
    assert!(error.code.is_none());
    assert!(!error.message.is_empty());
}

#[test]
fn truncated_body_reports_a_framing_error() {
    let body = format!("[{},{}", GOOD_ONE, "{\"candidates\":");
    let (fragments, error) = decode_streamed_body(&chars(&body));
    assert_eq!(fragments.len(), 1);
    assert!(error.is_some());
}

#[test]
fn body_that_is_not_an_array_reports_a_framing_error() {
    let (fragments, error) = decode_streamed_body(&chars("{\"candidates\":[]}"));
    assert!(fragments.is_empty());
    assert!(error.is_some());
}

#[test]
fn incremental_decoder_yields_fragments_across_chunk_boundaries() {
    let body = format!("[{},{}]", GOOD_ONE, GOOD_TWO);
    let half = body.len() / 2;
    let (first, second) = body.split_at(half);

    let mut stream = StreamedGeminiResponse::new_stream();
    match stream.next_fragment() {
        StreamStep::NeedMore => {},
        _ => panic!("expected a request for more input"),
    }
    stream.push_chunk(first);
    let mut yielded: Vec<String> = Vec::new();
    let mut finished = false;
    let mut pushed_second = false;
    loop {
        match stream.next_fragment() {
            StreamStep::Ready(fragment) => {
                yielded.push(
                    fragment.candidates[0].content.parts[0]
                        .text
                        .clone()
                        .unwrap(),
                );
            }
            StreamStep::NeedMore => {
                if pushed_second {
                    panic!("decoder still starving after the whole body");
                }
                stream.push_chunk(second);
                pushed_second = true;
            }
            StreamStep::Finished => {
                finished = true;
                break;
            }
            StreamStep::Failed(error) => panic!("unexpected failure: {}", error.message),
        }
    }
    assert!(finished);
    assert_eq!(yielded, vec!["one".to_string(), "two".to_string()]);
}

#[test]
fn incremental_decoder_stops_at_a_bad_fragment() {
    let body = format!("[{},{{\"candidates\":0}}]", GOOD_ONE);
    let mut stream = StreamedGeminiResponse::new_stream();
    stream.push_chunk(&body);
    match stream.next_fragment() {
        StreamStep::Ready(_) => {}
        _ => panic!("expected the first fragment"),
    }
    match stream.next_fragment() {
        StreamStep::Failed(_) => {}
        _ => panic!("expected a terminal failure"),
    }
    match stream.next_fragment() {
        StreamStep::Finished => {}
        _ => panic!("expected the stream to stay ended"),
    }
}

#[test]
fn error_display_names_code_and_message() {
    let client = Client::new("k".to_string());
    let error = client.new_error_from_status_code(403);
    assert_eq!(
        error.to_display_string(),
        "GoogleAPIError - code: Some(403) error: HTTP Error: 403: Forbidden"
    );
}
