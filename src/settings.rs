//! The projection of the channel configuration that the engine reads once
//! per tick.
use vstd::prelude::*;
use crate::controller::{OutputSnapshot, SnapshotView};

verus! {

/// Engine settings. Overlay opacity and scale are in thousandths.
pub struct EngineSettings {
    /// Legacy single-output field naming the primary protocol.
    pub output_type: String,
    pub output_url: String,
    pub resolution: String,
    pub fps: String,
    pub video_bitrate: String,
    pub audio_bitrate: String,
    pub video_codec: String,
    pub audio_codec: String,
    pub logo_path: Option<String>,
    pub logo_position: Option<String>,
    pub overlay_enabled: bool,
    pub overlay_opacity_milli: Option<i32>,
    pub overlay_scale_milli: Option<i32>,
    pub auto_start_protocols: bool,
    pub rtmp_enabled: bool,
    pub srt_enabled: bool,
    pub udp_enabled: bool,
    pub rtmp_output_url: Option<String>,
    pub srt_output_url: Option<String>,
    pub udp_output_url: Option<String>,
    pub dash_enabled: bool,
    pub mss_enabled: bool,
    pub rist_enabled: bool,
    pub rtsp_enabled: bool,
    pub webrtc_enabled: bool,
    pub dash_output_url: Option<String>,
    pub mss_output_url: Option<String>,
    pub rist_output_url: Option<String>,
}

/// An optional setting, or `default` where it is absent.
pub open spec fn or_default(v: Option<i32>, default: int) -> int {
    match v {
        Some(x) => x as int,
        None => default,
    }
}

fn unwrap_or_i32(v: Option<i32>, default: i32) -> (r: i32)
    ensures
        r as int == or_default(v, default as int),
{
    match v {
        Some(x) => x,
        None => default,
    }
}

impl EngineSettings {
    /// The output settings whose change forces a re-encode; an absent
    /// opacity or scale counts as 1.
    pub fn snapshot(&self) -> (r: OutputSnapshot)
        ensures
            r@ == (SnapshotView {
                output_url: self.output_url@,
                resolution: self.resolution@,
                video_bitrate: self.video_bitrate@,
                audio_bitrate: self.audio_bitrate@,
                overlay_enabled: self.overlay_enabled,
                overlay_opacity: or_default(self.overlay_opacity_milli, 1000),
                overlay_scale: or_default(self.overlay_scale_milli, 1000),
            }),
    {
        OutputSnapshot {
            output_url: self.output_url.clone(),
            resolution: self.resolution.clone(),
            video_bitrate: self.video_bitrate.clone(),
            audio_bitrate: self.audio_bitrate.clone(),
            overlay_enabled: self.overlay_enabled,
            overlay_opacity_milli: unwrap_or_i32(self.overlay_opacity_milli, 1000),
            overlay_scale_milli: unwrap_or_i32(self.overlay_scale_milli, 1000),
        }
    }
}

} // verus!
