use dualscribe::export::{
    export_json, export_markdown, export_plain_text, export_transcript, format_timestamp,
};
use dualscribe::types::{AudioSource, TranscriptSegment};

fn sample_segments() -> Vec<TranscriptSegment> {
    vec![
        TranscriptSegment {
            text: "Hello there.".to_string(),
            is_final: true,
            timestamp: 1500,
            confidence: 980000,
            source: AudioSource::Mic,
        },
        TranscriptSegment {
            text: "Welcome to the meeting.".to_string(),
            is_final: true,
            timestamp: 2000,
            confidence: 950000,
            source: AudioSource::System,
        },
        TranscriptSegment {
            text: "partial".to_string(),
            is_final: false,
            timestamp: 3000,
            confidence: 500000,
            source: AudioSource::Mic,
        },
    ]
}

#[test]
fn test_format_timestamp_minutes() {
    assert_eq!(format_timestamp(65), "01:05");
}

#[test]
fn test_format_timestamp_hours() {
    assert_eq!(format_timestamp(3661), "01:01:01");
}

#[test]
fn test_format_timestamp_zero() {
    assert_eq!(format_timestamp(0), "00:00");
}

#[test]
fn test_markdown_with_timestamps() {
    let md = export_markdown(&sample_segments(), true);
    assert!(md.contains("## You"));
    assert!(md.contains("**[00:01]** Hello there."));
    assert!(md.contains("## System Audio"));
    assert!(md.contains("**[00:02]** Welcome to the meeting."));
    assert!(!md.contains("partial"));
}

#[test]
fn test_markdown_without_sections_when_no_finals() {
    let segs = vec![TranscriptSegment {
        text: "partial".to_string(),
        is_final: false,
        timestamp: 0,
        confidence: 0,
        source: AudioSource::Mic,
    }];
    let md = export_markdown(&segs, true);
    assert_eq!(md, "# DualScribe Transcript\n\n");
}

#[test]
fn test_plain_text_without_timestamps() {
    let txt = export_plain_text(&sample_segments(), false);
    assert!(txt.contains("--- You ---"));
    assert!(txt.contains("Hello there."));
    assert!(!txt.contains("[00:01]"));
    assert!(!txt.contains("partial"));
}

#[test]
fn test_plain_text_with_timestamps_exact() {
    let txt = export_plain_text(&sample_segments(), true);
    assert_eq!(
        txt,
        "DualScribe Transcript\n\n--- You ---\n\n[00:01] Hello there.\n\n--- System Audio ---\n\n[00:02] Welcome to the meeting.\n"
    );
}

#[test]
fn test_json_export() {
    let json = export_json(&sample_segments()).unwrap();
    let parsed: serde_json::Value = serde_json::from_str(&json).unwrap();
    let arr = parsed.as_array().unwrap();
    assert_eq!(arr.len(), 2); // only finals
    assert_eq!(arr[0]["text"].as_str().unwrap(), "Hello there.");
    assert_eq!(arr[1]["text"].as_str().unwrap(), "Welcome to the meeting.");
}

#[test]
fn test_json_export_fields() {
    let json = export_json(&sample_segments()).unwrap();
    let parsed: serde_json::Value = serde_json::from_str(&json).unwrap();
    let arr = parsed.as_array().unwrap();
    assert_eq!(arr[0]["is_final"].as_bool().unwrap(), true);
    assert!((arr[0]["timestamp"].as_f64().unwrap() - 1.5).abs() < 1e-9);
    assert!((arr[0]["confidence"].as_f64().unwrap() - 0.98).abs() < 1e-9);
    assert_eq!(arr[0]["source"].as_str().unwrap(), "mic");
    assert_eq!(arr[1]["source"].as_str().unwrap(), "system");
}

#[test]
fn test_json_export_escapes_text() {
    let segs = vec![TranscriptSegment {
        text: "He said \"hi\"\\\n".to_string(),
        is_final: true,
        timestamp: 0,
        confidence: 0,
        source: AudioSource::Mic,
    }];
    let json = export_json(&segs).unwrap();
    let parsed: serde_json::Value = serde_json::from_str(&json).unwrap();
    assert_eq!(parsed[0]["text"].as_str().unwrap(), "He said \"hi\"\\\n");
}

#[test]
fn test_export_transcript_dispatch() {
    let segs = sample_segments();
    let md = export_transcript(&segs, &"markdown".to_string(), true).unwrap();
    assert!(md.starts_with("# DualScribe Transcript"));
    let txt = export_transcript(&segs, &"text".to_string(), false).unwrap();
    assert!(txt.starts_with("DualScribe Transcript"));
    let json = export_transcript(&segs, &"json".to_string(), false).unwrap();
    assert!(json.starts_with("["));
    let err = export_transcript(&segs, &"xml".to_string(), false).unwrap_err();
    assert_eq!(err, "Unknown format: xml");
}
