//! What the platform offers for capturing the audio that the system plays.

use vstd::prelude::*;
use crate::text::{opt_chars, push_text};

verus! {

/// How far the platform supports capturing system audio.
#[derive(Debug, Clone, Copy, PartialEq, Eq, Structural)]
pub enum LoopbackSupport {
    /// The platform captures system audio by itself.
    Native,
    /// A virtual audio device has to be installed.
    RequiresVirtualDevice,
    /// System audio cannot be captured.
    NotSupported,
}

/// The support level as the user interface names it.
#[derive(Debug, Clone, Copy, PartialEq, Eq, Structural)]
pub enum LoopbackSupportLevel {
    Native,
    RequiresVirtualDevice,
    NotSupported,
}

/// A device that system audio can be captured from, as the user interface lists it.
#[derive(Debug, Clone)]
pub struct LoopbackDeviceInfoDto {
    pub id: String,
    pub name: String,
    pub is_default: bool,
}

/// What can go wrong with capturing system audio.
#[derive(Debug)]
pub enum LoopbackError {
    NotSupported(String),
    NoDevicesFound,
    DeviceOpenError(String),
    StreamBuildError(String),
    StreamStartError(String),
    AlreadyRunning,
    NotRunning,
}

/// The support level under the name the user interface has for it.
pub open spec fn level_of(support: LoopbackSupport) -> LoopbackSupportLevel {
    match support {
        LoopbackSupport::Native => LoopbackSupportLevel::Native,
        LoopbackSupport::RequiresVirtualDevice => LoopbackSupportLevel::RequiresVirtualDevice,
        LoopbackSupport::NotSupported => LoopbackSupportLevel::NotSupported,
    }
}

/// The support level under the name the user interface has for it.
pub fn support_level_for_ui(support: LoopbackSupport) -> (level: LoopbackSupportLevel)
    ensures
        level == level_of(support),
{
    match support {
        LoopbackSupport::Native => LoopbackSupportLevel::Native,
        LoopbackSupport::RequiresVirtualDevice => LoopbackSupportLevel::RequiresVirtualDevice,
        LoopbackSupport::NotSupported => LoopbackSupportLevel::NotSupported,
    }
}

/// Whether system audio can be captured at all, with or without a virtual device.
pub fn is_supported(support: LoopbackSupport) -> (b: bool)
    ensures
        b == (support != LoopbackSupport::NotSupported),
{
    support != LoopbackSupport::NotSupported
}

/// The support level of a platform: Windows captures by itself, macOS needs a virtual
/// device, and Linux captures by itself if it has an input device and not at all
/// otherwise. Any other platform does not support it.
pub fn support_level_of(platform: &str, has_input_devices: bool) -> (support: LoopbackSupport)
    ensures
        support == (if platform@ == "windows"@ {
            LoopbackSupport::Native
        } else if platform@ == "macos"@ {
            LoopbackSupport::RequiresVirtualDevice
        } else if platform@ == "linux"@ && has_input_devices {
            LoopbackSupport::Native
        } else {
            LoopbackSupport::NotSupported
        }),
{
    if crate::text::same_text(platform, "windows") {
        LoopbackSupport::Native
    } else if crate::text::same_text(platform, "macos") {
        LoopbackSupport::RequiresVirtualDevice
    } else if crate::text::same_text(platform, "linux") && has_input_devices {
        LoopbackSupport::Native
    } else {
        LoopbackSupport::NotSupported
    }
}

/// The line shown for an error.
pub open spec fn loopback_error_text(e: LoopbackError) -> Seq<char> {
    match e {
        LoopbackError::NotSupported(msg) => "Loopback not supported: "@ + msg@,
        LoopbackError::NoDevicesFound => "No loopback devices found"@,
        LoopbackError::DeviceOpenError(msg) => "Failed to open device: "@ + msg@,
        LoopbackError::StreamBuildError(msg) => "Failed to build stream: "@ + msg@,
        LoopbackError::StreamStartError(msg) => "Failed to start stream: "@ + msg@,
        LoopbackError::AlreadyRunning => "Loopback capture is already running"@,
        LoopbackError::NotRunning => "Loopback capture is not running"@,
    }
}

impl LoopbackError {
    /// The line shown for the error.
    pub fn to_string(&self) -> (s: String)
        ensures
            s@ == loopback_error_text(*self),
    {
        match self {
            LoopbackError::NotSupported(msg) => {
                let mut s = "Loopback not supported: ".to_owned();
                push_text(&mut s, msg.as_str());
                s
            },
            LoopbackError::NoDevicesFound => "No loopback devices found".to_owned(),
            LoopbackError::DeviceOpenError(msg) => {
                let mut s = "Failed to open device: ".to_owned();
                push_text(&mut s, msg.as_str());
                s
            },
            LoopbackError::StreamBuildError(msg) => {
                let mut s = "Failed to build stream: ".to_owned();
                push_text(&mut s, msg.as_str());
                s
            },
            LoopbackError::StreamStartError(msg) => {
                let mut s = "Failed to start stream: ".to_owned();
                push_text(&mut s, msg.as_str());
                s
            },
            LoopbackError::AlreadyRunning => "Loopback capture is already running".to_owned(),
            LoopbackError::NotRunning => "Loopback capture is not running".to_owned(),
        }
    }
}

/// The microphone to record from: on a laptop with its lid closed the microphone chosen
/// for that case, if one is chosen, else the selected microphone. `None` means the
/// system's default. Where it is not known whether the lid is closed, it counts as open.
pub fn effective_microphone_name(
    is_clamshell: Option<bool>,
    clamshell_microphone: Option<&str>,
    selected_microphone: Option<&str>,
) -> (name: Option<String>)
    ensures
        opt_chars(name) == (if is_clamshell == Some(true) && clamshell_microphone is Some {
            crate::template::opt_view(clamshell_microphone)
        } else {
            crate::template::opt_view(selected_microphone)
        }),
{
    let lid_closed = match is_clamshell {
        Some(b) => b,
        None => false,
    };
    let chosen = if lid_closed && clamshell_microphone.is_some() {
        clamshell_microphone
    } else {
        selected_microphone
    };
    match chosen {
        Some(n) => Some(n.to_owned()),
        None => None,
    }
}

/// The state of a file in the batch queue.
#[derive(Debug, Clone, Copy, PartialEq, Eq, Structural)]
pub enum JobStatus {
    Queued,
    Decoding,
    Transcribing,
    Completed,
    Failed,
    Cancelled,
}

/// A term of the user's vocabulary.
#[derive(Debug, Clone)]
pub struct VocabularyEntry {
    pub id: i64,
    pub term: String,
    pub frequency: i64,
    pub source: String,
    pub category: Option<String>,
    pub created_at: String,
}

} // verus!
