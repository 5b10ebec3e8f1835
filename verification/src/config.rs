//! Command-line configuration.
use vstd::prelude::*;

verus! {

/// Default browser viewport width in pixels.
pub const DEFAULT_WIDTH: u32 = 1680;

/// Default browser viewport height in pixels.
pub const DEFAULT_HEIGHT: u32 = 1260;

/// Default capture frame rate.
pub const DEFAULT_FPS: u32 = 30;

/// Default Xvfb display number.
pub const DEFAULT_DISPLAY: u8 = 99;

/// The program's settings.
pub struct Config {
    /// URL to open.
    pub url: String,
    /// Browser viewport width in pixels.
    pub width: u32,
    /// Browser viewport height in pixels.
    pub height: u32,
    /// Capture frame rate.
    pub fps: u32,
    /// Xvfb display number.
    pub display: u8,
    /// Disable browser audio capture/playback.
    pub no_audio: bool,
    /// PulseAudio/PipeWire server used for Chromium audio capture.
    pub audio_capture_server: Option<String>,
}

} // verus!
