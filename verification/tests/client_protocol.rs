use dualscribe::capture::{
    device_infos, find_device, select_input_device, select_output_device, LinuxSystemCapture,
    MacosSystemCapture,
};
use dualscribe::client::{
    backoff_secs, build_ws_url, close_message, keepalive_due, keepalive_message, pcm_to_le_bytes,
    DeepgramConfig, RetryDecision, StreamClient,
};
use dualscribe::settings::AppSettings;
use dualscribe::types::{AudioSource, ConnectionStatus};

#[test]
fn test_default_config_and_url() {
    let config = DeepgramConfig::default();
    assert_eq!(config.api_key, "");
    assert_eq!(config.language, "en");
    assert_eq!(config.model, "nova-2");
    assert_eq!(config.sample_rate, 16000);
    let url = build_ws_url(&config);
    assert_eq!(
        url,
        "wss://api.deepgram.com/v1/listen?encoding=linear16&sample_rate=16000&channels=1&punctuate=true&smart_format=true&interim_results=true&endpointing=300&vad_events=true&language=en&model=nova-2"
    );
}

#[test]
fn test_reconnect_sequence() {
    // attempts 1..4 failing: Connecting first, then Reconnecting with
    // strictly increasing backoff; the fifth failure gives up for good
    let mut client = StreamClient::new(AudioSource::Mic);
    assert_eq!(client.connect_status(), ConnectionStatus::Connecting);
    let mut last_backoff: u64 = 0;
    for _ in 1..5 {
        match client.on_connect_failure() {
            RetryDecision::RetryAfter(b) => {
                assert!(b > last_backoff);
                assert!(b <= 30);
                last_backoff = b;
            }
            RetryDecision::GiveUp => panic!("gave up too early"),
        }
        assert_eq!(client.connect_status(), ConnectionStatus::Reconnecting);
    }
    assert_eq!(client.on_connect_failure(), RetryDecision::GiveUp);
}

#[test]
fn test_backoff_values_and_cap() {
    assert_eq!(backoff_secs(1), 2);
    assert_eq!(backoff_secs(2), 4);
    assert_eq!(backoff_secs(3), 8);
    assert_eq!(backoff_secs(4), 16);
    assert_eq!(backoff_secs(5), 30);
    assert_eq!(backoff_secs(100), 30);
}

#[test]
fn test_success_resets_attempts() {
    let mut client = StreamClient::new(AudioSource::System);
    client.on_connect_failure();
    client.on_connect_failure();
    assert_eq!(client.connect_status(), ConnectionStatus::Reconnecting);
    client.on_connect_success();
    assert_eq!(client.connect_status(), ConnectionStatus::Connecting);
    // the counter starts over: the next failure backs off two seconds
    assert_eq!(
        client.on_connect_failure(),
        RetryDecision::RetryAfter(2)
    );
}

#[test]
fn test_buffer_flushes_oldest_first() {
    let mut client = StreamClient::new(AudioSource::Mic);
    assert!(client.next_buffered().is_none());
    client.buffer_unsent(vec![1i16]);
    client.buffer_unsent(vec![2i16]);
    client.buffer_unsent(vec![3i16]);
    assert_eq!(client.next_buffered().unwrap(), vec![1i16]);
    assert_eq!(client.next_buffered().unwrap(), vec![2i16]);
    assert_eq!(client.next_buffered().unwrap(), vec![3i16]);
    assert!(client.next_buffered().is_none());
}

#[test]
fn test_buffer_evicts_oldest_when_full() {
    let mut client = StreamClient::new(AudioSource::Mic);
    for i in 0..155i16 {
        client.buffer_unsent(vec![i]);
    }
    // capacity is 150: the first five chunks were evicted
    let mut count = 0;
    let mut first = None;
    while let Some(chunk) = client.next_buffered() {
        if first.is_none() {
            first = Some(chunk[0]);
        }
        count += 1;
    }
    assert_eq!(count, 150);
    assert_eq!(first, Some(5));
}

#[test]
fn test_keepalive_due_after_interval() {
    assert!(!keepalive_due(0));
    assert!(!keepalive_due(10));
    assert!(keepalive_due(11));
}

#[test]
fn test_control_messages() {
    assert_eq!(keepalive_message(), "{\"type\":\"KeepAlive\"}");
    assert_eq!(close_message(), "{\"type\":\"CloseStream\"}");
}

#[test]
fn test_pcm_little_endian_framing() {
    let bytes = pcm_to_le_bytes(&vec![0x0102i16, -2i16]);
    assert_eq!(bytes, vec![0x02u8, 0x01u8, 0xFEu8, 0xFFu8]);
}

#[test]
fn test_find_and_select_devices() {
    let names = vec!["USB Mic".to_string(), "Built-in".to_string()];
    assert_eq!(find_device(&names, &"Built-in".to_string()), Some(1));
    assert_eq!(find_device(&names, &"Missing".to_string()), None);

    let picked = select_input_device(&names, &Some("USB Mic".to_string()), &Some(1)).unwrap();
    assert_eq!(picked, 0);
    let err = select_input_device(&names, &Some("Missing".to_string()), &Some(1)).unwrap_err();
    assert_eq!(err, "Device 'Missing' not found");
    let def = select_input_device(&names, &None, &Some(1)).unwrap();
    assert_eq!(def, 1);
    let err = select_input_device(&names, &None, &None).unwrap_err();
    assert_eq!(err, "No default input device found");

    let err = select_output_device(&names, &Some("Missing".to_string()), &None).unwrap_err();
    assert_eq!(err, "Output device 'Missing' not found");
    let err = select_output_device(&names, &None, &None).unwrap_err();
    assert_eq!(err, "No default output device found");
}

#[test]
fn test_device_catalogue_marks_default() {
    let names = vec!["A".to_string(), "B".to_string(), "A".to_string()];
    let infos = device_infos(&names, &"A".to_string());
    assert_eq!(infos.len(), 3);
    assert!(infos[0].is_default);
    assert!(!infos[1].is_default);
    assert!(infos[2].is_default);
    assert_eq!(infos[1].name, "B");
    assert_eq!(infos[1].id, "B");
}

#[test]
fn test_fixed_backend_catalogues() {
    let linux = LinuxSystemCapture::new().list_devices();
    assert_eq!(linux.len(), 1);
    assert_eq!(linux[0].name, "Default System Audio");
    assert_eq!(linux[0].id, "default_monitor");
    assert!(linux[0].is_default);

    let macos = MacosSystemCapture::new().list_devices();
    assert_eq!(macos.len(), 1);
    assert_eq!(macos[0].id, "screencapturekit");
}

#[test]
fn test_default_settings() {
    let s = AppSettings::default();
    assert!(s.api_key.is_none());
    assert_eq!(s.language, "en");
    assert!(s.mic_device_id.is_none());
    assert!(s.system_device_id.is_none());
    assert_eq!(s.font_size, 14);
    assert_eq!(s.theme, "system");
    assert!(s.timestamps_enabled);
}
