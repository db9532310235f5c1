//! Capture capability surface and device selection.
//!
//! Each platform backend exposes the same capability — list devices,
//! start capture, stop through an opaque handle.  The backends
//! themselves drive native audio interfaces and live outside this
//! crate; what is decidable on plain values lives here: the device
//! catalogues of the fixed backends, marking the default device, and
//! resolving a requested device name against the available ones.

use vstd::prelude::*;
use crate::types::AudioDeviceInfo;

verus! {

/// Opaque capability over a running capture: `stop` is idempotent and
/// is the only sanctioned way to release the platform's audio
/// resources.
pub trait CaptureHandle {
    /// Ask the running capture to stop and release its resources.
    fn stop(&self);
}

/// System-audio capture through the PulseAudio default monitor source.
pub struct LinuxSystemCapture;

impl LinuxSystemCapture {
    /// The backend carries no state of its own.
    pub fn new() -> (c: LinuxSystemCapture) {
        LinuxSystemCapture
    }

    /// The monitor backend exposes exactly one device: the default
    /// system-audio monitor.
    pub fn list_devices(&self) -> (r: Vec<AudioDeviceInfo>)
        ensures
            r@.len() == 1,
            r@[0].name@ == "Default System Audio"@,
            r@[0].id@ == "default_monitor"@,
            r@[0].is_default,
    {
        let d = AudioDeviceInfo {
            name: String::from_str("Default System Audio"),
            id: String::from_str("default_monitor"),
            is_default: true,
        };
        let mut r: Vec<AudioDeviceInfo> = Vec::new();
        r.push(d);
        r
    }
}

/// System-audio capture through output-device loopback.
pub struct WindowsSystemCapture;

impl WindowsSystemCapture {
    /// The backend carries no state of its own.
    pub fn new() -> (c: WindowsSystemCapture) {
        WindowsSystemCapture
    }
}

/// System-audio capture through the screen/audio sharing interface.
pub struct MacosSystemCapture;

impl MacosSystemCapture {
    /// The backend carries no state of its own.
    pub fn new() -> (c: MacosSystemCapture) {
        MacosSystemCapture
    }

    /// The sharing backend exposes exactly one device: the whole
    /// system audio.
    pub fn list_devices(&self) -> (r: Vec<AudioDeviceInfo>)
        ensures
            r@.len() == 1,
            r@[0].name@ == "System Audio"@,
            r@[0].id@ == "screencapturekit"@,
            r@[0].is_default,
    {
        let d = AudioDeviceInfo {
            name: String::from_str("System Audio"),
            id: String::from_str("screencapturekit"),
            is_default: true,
        };
        let mut r: Vec<AudioDeviceInfo> = Vec::new();
        r.push(d);
        r
    }
}

/// Catalogue entries for enumerated device names: identity is the
/// display name, and the entry matching the default device's name is
/// marked (identically named devices are indistinguishable by design).
pub fn device_infos(names: &Vec<String>, default_name: &String) -> (r: Vec<AudioDeviceInfo>)
    ensures
        r@.len() == names@.len(),
        forall|i: int| 0 <= i < names@.len() ==> {
            &&& (#[trigger] r@[i]).name@ == names@[i]@
            &&& r@[i].id@ == names@[i]@
            &&& r@[i].is_default == (names@[i]@ == default_name@)
        },
{
    let n = names.len();
    let mut r: Vec<AudioDeviceInfo> = Vec::new();
    let mut k: usize = 0;
    while k < n
        invariant
            n == names@.len(),
            k <= n,
            r@.len() == k,
            forall|i: int| 0 <= i < k ==> {
                &&& (#[trigger] r@[i]).name@ == names@[i]@
                &&& r@[i].id@ == names@[i]@
                &&& r@[i].is_default == (names@[i]@ == default_name@)
            },
        decreases n - k,
    {
        let name = &names[k];
        let is_default = names[k] == *default_name;
        r.push(AudioDeviceInfo { name: name.clone(), id: name.clone(), is_default });
        k = k + 1;
    }
    r
}

/// The first device whose name equals the requested id, if any.
pub fn find_device(names: &Vec<String>, id: &String) -> (r: Option<usize>)
    ensures
        r matches Some(i) ==> i < names@.len() && names@[i as int]@ == id@
            && forall|j: int| 0 <= j < i ==> names@[j]@ != id@,
        (r is None) ==> forall|j: int| 0 <= j < names@.len() ==> names@[j]@ != id@,
{
    let n = names.len();
    let mut k: usize = 0;
    while k < n
        invariant
            n == names@.len(),
            k <= n,
            forall|j: int| 0 <= j < k ==> names@[j]@ != id@,
        decreases n - k,
    {
        if names[k] == *id {
            return Some(k);
        }
        k = k + 1;
    }
    None
}

/// Resolve an input-device request: an explicit name must be present
/// among the available names, and without one the platform default —
/// when there is one — is taken.  The error strings are exactly the
/// ones reported to the caller of `start`.
pub fn select_input_device(
    names: &Vec<String>,
    requested: &Option<String>,
    default_index: &Option<usize>,
) -> (r: Result<usize, String>)
    requires
        default_index matches Some(d) ==> d < names@.len(),
    ensures
        requested matches Some(id) ==> {
            &&& ((r is Ok) <==> exists|j: int| 0 <= j < names@.len() && names@[j]@ == id@)
            &&& (r matches Ok(i) ==> i < names@.len() && names@[i as int]@ == id@)
            &&& (r matches Err(e) ==> e@ == "Device '"@ + id@ + "' not found"@)
        },
        (requested is None) ==> {
            &&& ((r is Ok) <==> default_index is Some)
            &&& (r matches Ok(i) ==> default_index matches Some(d) && i == d)
            &&& (r matches Err(e) ==> e@ == "No default input device found"@)
        },
{
    match requested {
        Some(id) => {
            match find_device(names, id) {
                Some(i) => Ok(i),
                None => {
                    let mut e = String::from_str("Device '");
                    e.append(id.as_str());
                    e.append("' not found");
                    Err(e)
                },
            }
        },
        None => {
            match default_index {
                Some(d) => Ok(*d),
                None => Err(String::from_str("No default input device found")),
            }
        },
    }
}

/// Resolve an output-device request for loopback capture, with the
/// output flavour of the two error strings.
pub fn select_output_device(
    names: &Vec<String>,
    requested: &Option<String>,
    default_index: &Option<usize>,
) -> (r: Result<usize, String>)
    requires
        default_index matches Some(d) ==> d < names@.len(),
    ensures
        requested matches Some(id) ==> {
            &&& ((r is Ok) <==> exists|j: int| 0 <= j < names@.len() && names@[j]@ == id@)
            &&& (r matches Ok(i) ==> i < names@.len() && names@[i as int]@ == id@)
            &&& (r matches Err(e) ==> e@ == "Output device '"@ + id@ + "' not found"@)
        },
        (requested is None) ==> {
            &&& ((r is Ok) <==> default_index is Some)
            &&& (r matches Ok(i) ==> default_index matches Some(d) && i == d)
            &&& (r matches Err(e) ==> e@ == "No default output device found"@)
        },
{
    match requested {
        Some(id) => {
            match find_device(names, id) {
                Some(i) => Ok(i),
                None => {
                    let mut e = String::from_str("Output device '");
                    e.append(id.as_str());
                    e.append("' not found");
                    Err(e)
                },
            }
        },
        None => {
            match default_index {
                Some(d) => Ok(*d),
                None => Err(String::from_str("No default output device found")),
            }
        },
    }
}

} // verus!
