use playout_engine::api::{AppError, Claims};
use playout_engine::distribution::ProcessPoll;
use playout_engine::settings::EngineSettings;
use playout_engine::status::{stream_report, PathInfo, SessionTracker};

fn settings() -> EngineSettings {
    EngineSettings {
        output_type: "rtmp".to_string(),
        output_url: "rtmp://example.com/live/main".to_string(),
        resolution: "1920x1080".to_string(),
        fps: "25".to_string(),
        video_bitrate: "5000k".to_string(),
        audio_bitrate: "192k".to_string(),
        video_codec: "h264".to_string(),
        audio_codec: "aac".to_string(),
        logo_path: None,
        logo_position: None,
        overlay_enabled: false,
        overlay_opacity_milli: None,
        overlay_scale_milli: None,
        auto_start_protocols: false,
        rtmp_enabled: false,
        srt_enabled: false,
        udp_enabled: true,
        rtmp_output_url: Some("rtmp://mediamtx:1935/live_stream".to_string()),
        srt_output_url: None,
        udp_output_url: Some("udp://127.0.0.1:1234".to_string()),
        dash_enabled: true,
        mss_enabled: false,
        rist_enabled: false,
        rtsp_enabled: true,
        webrtc_enabled: false,
        dash_output_url: None,
        mss_output_url: None,
        rist_output_url: None,
    }
}

#[test]
fn readers_are_counted_by_kind() {
    let mut p = PathInfo::new(true);
    for k in ["rtmpConn", "hlsSession", "hlsConn", "srtConn", "webrtcSession", "rtspConn", "other"] {
        p.count_reader(k);
    }
    assert_eq!((p.rtmp, p.hls, p.srt, p.webrtc, p.rtsp), (1, 2, 1, 1, 1));
    assert_eq!(p.total_readers(), 6);
    let h = PathInfo::from_reader_count(false, Some("live/stream.m3u8"), 4);
    assert_eq!((h.hls, h.rtmp), (4, 0));
    let r = PathInfo::from_reader_count(false, None, 3);
    assert_eq!((r.hls, r.rtmp), (0, 3));
}

#[test]
fn status_table_rows() {
    let st = settings();
    let mut live = PathInfo::new(true);
    live.count_reader("rtmpConn");
    live.count_reader("hlsConn");
    live.count_reader("rtspSession");
    let rows = stream_report(&st, true, Some(live), Some(live), None, Some(ProcessPoll::Exited), None, Some(ProcessPoll::Running), 3, 2);
    let protocols: Vec<&str> = rows.iter().map(|r| r.protocol.as_str()).collect();
    assert_eq!(protocols, vec!["MASTER", "RTMP", "HLS", "SRT", "UDP", "DASH", "MSS", "RTSP", "WebRTC"]);
    let statuses: Vec<&str> = rows.iter().map(|r| r.status.as_str()).collect();
    assert_eq!(statuses, vec!["active", "error", "active", "idle", "active", "active", "idle", "active", "idle"]);
    let sessions: Vec<i32> = rows.iter().map(|r| r.sessions).collect();
    assert_eq!(sessions, vec![3, 1, 3, 0, 2, 1, 1, 1, 0]);
    assert_eq!(rows[1].details, "Relay: rtmp://localhost:1935/live_stream");
    assert_eq!(rows[3].details, "Relay: srt://localhost:8890?mode=caller&streamid=read:live_stream_srt");
    assert_eq!(rows[4].details, "Relay: udp://@:1234");
    let rows = stream_report(&st, false, None, None, None, None, None, None, 0, 9);
    assert_eq!(rows[1].status, "starting");
    assert_eq!(rows[4].status, "starting");
    assert_eq!(rows[4].sessions, 0);
    assert_eq!(rows[2].status, "idle");
}

#[test]
fn display_urls_use_the_public_host() {
    let mut st = settings();
    st.srt_output_url = Some("srt://mediamtx:8890?mode=caller&streamid=publish:live".to_string());
    st.udp_output_url = Some("udp://@localhost:1234".to_string());
    let u = st.get_display_urls("tv.example");
    assert_eq!(u.rtmp, "rtmp://tv.example:1935/live_stream");
    assert_eq!(u.srt, "srt://tv.example:8890?mode=caller&streamid=read:live");
    assert_eq!(u.udp, "udp://@tv.example:1234");
    assert_eq!(u.hls, "http://tv.example:3000/hls/stream.m3u8");
    assert_eq!(u.master, "Internal System Feed");
    st.srt_output_url = None;
    st.udp_output_url = Some("udp://239.1.1.1:5000".to_string());
    let u = st.get_display_urls("h");
    assert_eq!(u.srt, "srt://localhost:8890?mode=caller&streamid=read:live/stream");
    assert_eq!(u.udp, "udp://239.1.1.1:5000");
}

#[test]
fn sessions_expire_after_the_window() {
    let mut t = SessionTracker::new();
    t.touch("a".to_string(), 0);
    t.touch("b".to_string(), 5_000);
    t.touch("a".to_string(), 10_000);
    assert_eq!(t.entries.len(), 2);
    assert_eq!(t.prune(19_999, 15_000), 2);
    assert_eq!(t.prune(24_999, 15_000), 1);
    assert_eq!(t.entries[0].0, "a");
    assert_eq!(t.prune(40_000, 15_000), 0);
}

#[test]
fn app_errors_and_claims() {
    assert_eq!(AppError::NotFound.status_code(), 404);
    assert_eq!(AppError::BadRequest("x".to_string()).message(), "Bad request: x");
    assert_eq!(AppError::InternalError.message(), "Internal server error");
    let c = Claims::new("1".to_string(), "u".to_string(), "admin".to_string(), 1000, 86400);
    assert_eq!((c.iat, c.exp), (1000, 87400));
    let c = Claims::new("1".to_string(), "u".to_string(), "admin".to_string(), i64::MAX - 1, 10);
    assert_eq!(c.exp, i64::MAX);
}

#[test]
fn touching_one_session_leaves_the_others() {
    let mut t = SessionTracker::new();
    t.touch("a".to_string(), 1);
    t.touch("b".to_string(), 2);
    t.touch("c".to_string(), 3);
    t.touch("b".to_string(), 9);
    assert_eq!(t.entries, vec![("a".to_string(), 1), ("b".to_string(), 9), ("c".to_string(), 3)]);
}
