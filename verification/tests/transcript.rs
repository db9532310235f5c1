use dualscribe::client::segment_from_response;
use dualscribe::types::{
    AudioSource, DeepgramAlternative, DeepgramChannel, DeepgramResponse, DeepgramWord,
};

/// Decode a service message into the library's plain-value form:
/// times become milliseconds, confidences millionths.
fn response_from_json(s: &str) -> DeepgramResponse {
    let v: serde_json::Value = serde_json::from_str(s).unwrap();
    let channel = v.get("channel").map(|c| DeepgramChannel {
        alternatives: c["alternatives"]
            .as_array()
            .map(|arr| {
                arr.iter()
                    .map(|a| DeepgramAlternative {
                        transcript: a["transcript"].as_str().unwrap_or("").to_string(),
                        confidence: (a["confidence"].as_f64().unwrap_or(0.0) * 1_000_000.0).round()
                            as u32,
                        words: a.get("words").and_then(|w| w.as_array()).map(|ws| {
                            ws.iter()
                                .map(|w| DeepgramWord {
                                    word: w["word"].as_str().unwrap_or("").to_string(),
                                    start: (w["start"].as_f64().unwrap_or(0.0) * 1000.0).round()
                                        as u64,
                                    end: (w["end"].as_f64().unwrap_or(0.0) * 1000.0).round() as u64,
                                    confidence: (w["confidence"].as_f64().unwrap_or(0.0)
                                        * 1_000_000.0)
                                        .round() as u32,
                                })
                                .collect()
                        }),
                    })
                    .collect()
            })
            .unwrap_or_default(),
    });
    DeepgramResponse {
        msg_type: v["type"].as_str().unwrap_or("").to_string(),
        channel,
        is_final: v.get("is_final").and_then(|b| b.as_bool()),
        speech_final: v.get("speech_final").and_then(|b| b.as_bool()),
    }
}

fn sample_response(is_final: bool) -> &'static str {
    if is_final {
        r#"{
            "type": "Results",
            "channel_index": [0, 1],
            "is_final": true,
            "speech_final": true,
            "channel": {
                "alternatives": [{
                    "transcript": "Hello, how are you?",
                    "confidence": 0.98,
                    "words": [
                        {"word": "hello", "start": 0.5, "end": 0.85, "confidence": 0.99},
                        {"word": "how", "start": 0.9, "end": 1.1, "confidence": 0.97},
                        {"word": "are", "start": 1.15, "end": 1.3, "confidence": 0.96},
                        {"word": "you", "start": 1.35, "end": 1.5, "confidence": 0.98}
                    ]
                }]
            }
        }"#
    } else {
        r#"{
            "type": "Results",
            "channel_index": [0, 1],
            "is_final": false,
            "speech_final": false,
            "channel": {
                "alternatives": [{
                    "transcript": "Hello, how",
                    "confidence": 0.85,
                    "words": [
                        {"word": "hello", "start": 0.5, "end": 0.85, "confidence": 0.99},
                        {"word": "how", "start": 0.9, "end": 1.1, "confidence": 0.80}
                    ]
                }]
            }
        }"#
    }
}

#[test]
fn test_parse_final_transcript() {
    let resp = response_from_json(sample_response(true));
    let (text, confidence, is_final) = resp.extract_transcript().unwrap();
    assert_eq!(text, "Hello, how are you?");
    assert!((confidence as f64 / 1_000_000.0 - 0.98).abs() < 0.001);
    assert!(is_final);
}

#[test]
fn test_parse_interim_transcript() {
    let resp = response_from_json(sample_response(false));
    let (text, _, is_final) = resp.extract_transcript().unwrap();
    assert_eq!(text, "Hello, how");
    assert!(!is_final);
}

#[test]
fn test_start_timestamp() {
    let resp = response_from_json(sample_response(true));
    assert!((resp.start_timestamp() as f64 / 1000.0 - 0.5).abs() < 0.001);
}

#[test]
fn test_empty_transcript_returns_none() {
    let json = r#"{"type": "Results", "is_final": true, "channel": {"alternatives": [{"transcript": "", "confidence": 0.0}]}}"#;
    let resp = response_from_json(json);
    assert!(resp.extract_transcript().is_none());
}

#[test]
fn test_metadata_message_returns_none() {
    let json = r#"{"type": "Metadata"}"#;
    let resp = response_from_json(json);
    assert!(resp.extract_transcript().is_none());
}

#[test]
fn test_no_alternatives_returns_none() {
    let resp = DeepgramResponse {
        msg_type: "Results".to_string(),
        channel: Some(DeepgramChannel { alternatives: vec![] }),
        is_final: Some(true),
        speech_final: None,
    };
    assert!(resp.extract_transcript().is_none());
    assert_eq!(resp.start_timestamp(), 0);
}

#[test]
fn test_start_timestamp_without_words_is_zero() {
    let json = r#"{"type": "Results", "channel": {"alternatives": [{"transcript": "hi", "confidence": 0.5}]}}"#;
    let resp = response_from_json(json);
    assert_eq!(resp.start_timestamp(), 0);
}

#[test]
fn test_segment_from_response_mirrors_message() {
    let resp = response_from_json(sample_response(true));
    let seg = segment_from_response(&resp, AudioSource::System).unwrap();
    assert_eq!(seg.text, "Hello, how are you?");
    assert!(seg.is_final);
    assert_eq!(seg.timestamp, 500);
    assert_eq!(seg.confidence, 980_000);
    assert_eq!(seg.source, AudioSource::System);
}

#[test]
fn test_segment_from_response_drops_metadata() {
    let resp = response_from_json(r#"{"type": "Metadata"}"#);
    assert!(segment_from_response(&resp, AudioSource::Mic).is_none());
}
