//! User-facing settings of the application shell.  The library only
//! defines the value and its defaults; persistence lives outside.

use vstd::prelude::*;

verus! {

/// Persisted preferences: credentials, language, device choices and
/// presentation options.
#[derive(Clone, Debug)]
pub struct AppSettings {
    pub api_key: Option<String>,
    pub language: String,
    pub mic_device_id: Option<String>,
    pub system_device_id: Option<String>,
    pub font_size: u32,
    pub theme: String,
    pub timestamps_enabled: bool,
}

impl Default for AppSettings {
    /// No key or device choices yet, English, a fourteen-point font,
    /// the system theme, and timestamps shown.
    fn default() -> (s: Self)
        ensures
            s.api_key is None,
            s.language@ == "en"@,
            s.mic_device_id is None,
            s.system_device_id is None,
            s.font_size == 14,
            s.theme@ == "system"@,
            s.timestamps_enabled,
    {
        AppSettings {
            api_key: None,
            language: String::from_str("en"),
            mic_device_id: None,
            system_device_id: None,
            font_size: 14,
            theme: String::from_str("system"),
            timestamps_enabled: true,
        }
    }
}

} // verus!
