use playout_engine::command::{escape_xml, FFmpegService, MediaInfo};
use playout_engine::numbers::{decimal_string, milli_string, parse_i32, signed_string};
use playout_engine::settings::EngineSettings;

fn service() -> FFmpegService {
    FFmpegService::new(None, None)
}

fn settings() -> EngineSettings {
    EngineSettings {
        output_type: "rtmp".to_string(),
        output_url: "rtmp://example.com/live/main".to_string(),
        resolution: "1920x1080".to_string(),
        fps: "25".to_string(),
        video_bitrate: "5000k".to_string(),
        audio_bitrate: "192k".to_string(),
        video_codec: "h264".to_string(),
        audio_codec: "aac".to_string(),
        logo_path: None,
        logo_position: Some("bottom-left".to_string()),
        overlay_enabled: true,
        overlay_opacity_milli: Some(800),
        overlay_scale_milli: Some(500),
        auto_start_protocols: false,
        rtmp_enabled: false,
        srt_enabled: false,
        udp_enabled: false,
        rtmp_output_url: None,
        srt_output_url: None,
        udp_output_url: None,
        dash_enabled: false,
        mss_enabled: false,
        rist_enabled: false,
        rtsp_enabled: false,
        webrtc_enabled: false,
        dash_output_url: None,
        mss_output_url: None,
        rist_output_url: None,
    }
}

fn strs(v: &[&str]) -> Vec<String> {
    v.iter().map(|s| s.to_string()).collect()
}

#[test]
fn test_ffmpeg_service_creation() {
    let service = FFmpegService::new(None, None);
    assert!(!service.ffmpeg_path.is_empty());
    assert!(!service.ffprobe_path.is_empty());
}

#[test]
fn service_paths_from_environment_values() {
    let s = FFmpegService::new(Some("/usr/bin/ffmpeg".to_string()), None);
    assert_eq!(s.ffmpeg_path, "/usr/bin/ffmpeg");
    assert_eq!(s.ffprobe_path, "ffprobe");
}

#[test]
fn map_output_url_rewrites_local_destinations() {
    let s = service();
    assert_eq!(
        s.map_output_url("rtmp://localhost:1935/live/stream"),
        "rtmp://mediamtx:1935/live/stream?user=backend&pass=backend"
    );
    assert_eq!(s.map_output_url("rtmp://user@127.0.0.1/live"), "rtmp://user@mediamtx/live");
    assert_eq!(s.map_output_url("rtmp://example.com/live"), "rtmp://example.com/live");
    assert_eq!(
        s.map_output_url("srt://localhost:8890?streamid=publish:live/stream&pkt_size=1316"),
        "srt://mediamtx:8890?streamid=publish:live/stream:backend:backend&pkt_size=1316"
    );
    assert_eq!(
        s.map_output_url("srt://mediamtx:8890?streamid=publish:live:backend:backend"),
        "srt://mediamtx:8890?streamid=publish:live:backend:backend"
    );
    assert_eq!(s.map_output_url("srt://mediamtx:8890"), "srt://mediamtx:8890?user=backend&pass=backend");
    assert_eq!(s.map_output_url("srt://127.0.0.1:9000?mode=listener"), "srt://:9000?mode=listener");
    assert_eq!(s.map_output_url("srt://0.0.0.0:9000?mode=listener"), "srt://0.0.0.0:9000?mode=listener");
    assert_eq!(s.map_output_url("udp://127.0.0.1:1234"), "udp://host.docker.internal:1234");
    assert_eq!(s.map_output_url("udp://@127.0.0.1:5000"), "udp://@:5000");
    assert_eq!(s.map_output_url("http://localhost/x"), "http://localhost/x");
}

#[test]
fn relay_args_per_protocol() {
    let s = service();
    let head = [
        "-thread_queue_size", "1024", "-fflags", "+genpts", "-rw_timeout", "10000000", "-i",
        "rtmp://mediamtx:1935/live/master?user=backend&pass=backend", "-map", "0", "-c", "copy",
    ];
    let mut udp = strs(&head);
    udp.extend(strs(&["-f", "mpegts", "udp://0.0.0.0:1234?listen=1&pkt_size=1316"]));
    assert_eq!(s.relay_args("rtmp://mediamtx:1935/live/master", "udp://@:1234"), udp);

    let mut multicast = strs(&head);
    multicast.extend(strs(&["-f", "mpegts", "udp://239.1.1.1:5000?ttl=2&buffer_size=10000000&pkt_size=1316"]));
    assert_eq!(s.relay_args("rtmp://mediamtx:1935/live/master", "udp://239.1.1.1:5000"), multicast);

    let mut srt = strs(&head);
    srt.extend(strs(&[
        "-f", "fifo", "-fifo_format", "mpegts", "-queue_size", "60000", "-attempt_recovery", "1",
        "-drop_pkts_on_overflow", "1", "-recovery_wait_time", "1",
        "srt://dest:9000?mode=caller&transtype=live&latency=200ms&pkt_size=1316",
    ]));
    assert_eq!(s.relay_args("rtmp://mediamtx:1935/live/master", "srt://dest:9000?mode=caller"), srt);

    let mut rtmp = strs(&head);
    rtmp.extend(strs(&[
        "-f", "fifo", "-fifo_format", "flv", "-queue_size", "60000", "-attempt_recovery", "1",
        "-recovery_wait_time", "1", "-drop_pkts_on_overflow", "1", "rtmp://a.example/live/key",
    ]));
    assert_eq!(s.relay_args("rtmp://mediamtx:1935/live/master", "rtmp://a.example/live/key"), rtmp);

    let mut other = strs(&head);
    other.push("http://x/y".to_string());
    assert_eq!(s.relay_args("rtmp://mediamtx:1935/live/master", "http://x/y"), other);
}

#[test]
fn stream_args_with_overlay_and_preview() {
    let s = service();
    let st = settings();
    let args = s.stream_args(
        "/tmp/playlist_1.txt",
        "rtmp://mediamtx:1935/live/master",
        12_500,
        &st,
        Some("/var/hls"),
        Some("/assets/logo.png"),
    );
    let expected = strs(&[
        "-re", "-f", "concat", "-safe", "0", "-ss", "12.5", "-i", "/tmp/playlist_1.txt", "-loop", "1",
        "-i", "/assets/logo.png", "-filter_complex",
        "[0:v]scale=1920x1080[bg];[1:v]scale=iw*0.5:ih*0.5,format=rgba,colorchannelmixer=aa=0.8[logo];[bg][logo]overlay=50:H-h-50[v_out];[0:a]volume=0.8[a_out]",
        "-c:v", "libx264", "-tune", "zerolatency", "-flags", "+global_header", "-profile:v", "high",
        "-level", "4.1", "-preset", "veryfast", "-bf", "0", "-b:v", "5000k", "-maxrate", "5000k",
        "-bufsize", "10000k", "-pix_fmt", "yuv420p", "-g", "50", "-c:a", "aac", "-b:a", "192k", "-ar",
        "44100", "-f", "tee", "-map", "[v_out]", "-map", "[a_out]",
        "[f=fifo:fifo_format=flv:onfail=ignore:drop_pkts_on_overflow=1:attempt_recovery=1:recovery_wait_time=3:restart_with_keyframe=1:queue_size=60000]'rtmp://mediamtx:1935/live/master?user=backend&pass=backend'|[f=hls:hls_time=2:hls_list_size=10:hls_flags=delete_segments+independent_segments]/var/hls/stream.m3u8",
    ]);
    assert_eq!(args, expected);
}

#[test]
fn stream_args_copy_is_transcoded_for_srt_listener() {
    let s = service();
    let mut st = settings();
    st.video_codec = "copy".to_string();
    st.audio_codec = "copy".to_string();
    st.resolution = "1280x720".to_string();
    let args = s.stream_args("/a.mp4", "srt://dest:9000?mode=listener", 0, &st, None, None);
    let expected = strs(&[
        "-re", "-i", "/a.mp4", "-filter_complex", "[0:v]scale=1280x720[v_out];[0:a]volume=0.8[a_out]",
        "-c:v", "libx264", "-tune", "zerolatency", "-flags", "+global_header", "-profile:v", "high",
        "-level", "4.1", "-preset", "veryfast", "-bf", "0", "-b:v", "5000k", "-maxrate", "5000k",
        "-bufsize", "10000k", "-pix_fmt", "yuv420p", "-g", "50", "-c:a", "aac", "-b:a", "192k", "-ar",
        "44100", "-f", "mpegts", "-map", "[v_out]", "-map", "[a_out]",
        "srt://dest:9000?mode=listener&transtype=live&latency=200ms&overhead_bandwidth=25&listen=1&pkt_size=1316",
    ]);
    assert_eq!(args, expected);
}

#[test]
fn overlay_forces_transcoding_of_copy() {
    let s = service();
    let mut st = settings();
    st.video_codec = "copy".to_string();
    st.audio_codec = "copy".to_string();
    st.fps = "abc".to_string();
    st.video_bitrate = "3000".to_string();
    let args = s.stream_args("/a.mp4", "udp://239.0.0.1:1234", 0, &st, Some("/h"), Some("/l.webm"));
    assert!(!args.contains(&"copy".to_string()));
    assert!(args.contains(&"libx264".to_string()));
    assert!(args.contains(&"6000k".to_string()));
    assert!(args.contains(&"60".to_string()));
    assert!(args.contains(&"-stream_loop".to_string()));
    let last = args.last().unwrap();
    assert_eq!(
        last,
        "[f=mpegts]'udp://239.0.0.1:1234?ttl=2&buffer_size=10000000&localaddr=0.0.0.0&pkt_size=1316'|[f=hls:hls_time=2:hls_list_size=10:hls_flags=delete_segments+independent_segments]/h/stream.m3u8"
    );
}

#[test]
fn secondary_sinks_join_the_tee() {
    let s = service();
    let mut st = settings();
    st.dash_enabled = true;
    st.dash_output_url = Some("/dash/out.mpd".to_string());
    st.mss_enabled = false;
    st.mss_output_url = Some("/mss".to_string());
    st.rist_enabled = true;
    st.rist_output_url = Some("rist://r:1".to_string());
    st.video_codec = "vp9".to_string();
    st.audio_codec = "opus".to_string();
    let args = s.stream_args("/a.mp4", "rtmp://x.example/live", 0, &st, Some("/h"), Some(""));
    let n = args.len();
    assert_eq!(
        args[n - 1],
        "[f=fifo:fifo_format=flv:onfail=ignore:drop_pkts_on_overflow=1:attempt_recovery=1:recovery_wait_time=3:restart_with_keyframe=1:queue_size=60000]'rtmp://x.example/live'|[f=hls:hls_time=2:hls_list_size=10:hls_flags=delete_segments+independent_segments]/h/stream.m3u8|[f=dash:window_size=5:extra_window_size=5:remove_at_exit=1:dash_segment_type=webm]'/dash/out.mpd'|[f=rist:pkt_size=1316]'rist://r:1'"
    );
    assert!(args.contains(&"libvpx-vp9".to_string()));
    assert!(args.contains(&"libopus".to_string()));
    assert!(args.contains(&"[0:v]scale=1920x1080[v_out];[0:a]volume=0.8[a_out]".to_string()));
}

#[test]
fn numbers_format_and_parse() {
    assert_eq!(decimal_string(0), "0");
    assert_eq!(decimal_string(1234567890), "1234567890");
    assert_eq!(signed_string(-42), "-42");
    assert_eq!(signed_string(i64::MIN), "-9223372036854775808");
    assert_eq!(milli_string(12_500), "12.5");
    assert_eq!(milli_string(2_000), "2");
    assert_eq!(milli_string(1_005), "1.005");
    assert_eq!(milli_string(30), "0.03");
    assert_eq!(parse_i32("25"), Some(25));
    assert_eq!(parse_i32("+7"), Some(7));
    assert_eq!(parse_i32("-2147483648"), Some(i32::MIN));
    assert_eq!(parse_i32("2147483648"), None);
    assert_eq!(parse_i32("99999999999999999999"), None);
    assert_eq!(parse_i32("12a"), None);
    assert_eq!(parse_i32("-"), None);
    assert_eq!(parse_i32(""), None);
    for s in ["0", "17", "-3", "+12", "x", "2147483647", "-2147483649", " 1"] {
        assert_eq!(parse_i32(s), s.parse::<i32>().ok());
    }
}

#[test]
fn escape_xml_escapes_specials() {
    assert_eq!(escape_xml("a & b < c > \"d\" 'e'"), "a &amp; b &lt; c &gt; &quot;d&quot; &apos;e&apos;");
    assert_eq!(escape_xml("&lt;"), "&amp;lt;");
    assert_eq!(escape_xml(""), "");
}

#[test]
fn validate_media_judges_probe_results() {
    let s = service();
    let info = |v: bool, a: bool, d: Option<u64>| MediaInfo {
        duration_ms: d,
        width: None,
        height: None,
        codec: None,
        bitrate: None,
        has_audio: a,
        has_video: v,
    };
    assert_eq!(s.validate_media(Ok(info(true, false, Some(1000)))), Ok(true));
    assert_eq!(s.validate_media(Ok(info(false, true, Some(1)))), Ok(true));
    assert_eq!(s.validate_media(Ok(info(false, false, Some(1000)))), Ok(false));
    assert_eq!(s.validate_media(Ok(info(true, true, Some(0)))), Ok(false));
    assert_eq!(s.validate_media(Ok(info(true, true, None))), Ok(false));
    assert_eq!(s.validate_media(Err("FFprobe failed".to_string())), Err("FFprobe failed".to_string()));
}

#[test]
fn media_job_arguments() {
    let s = service();
    assert_eq!(
        s.thumbnail_args("/in.mp4", "/out.jpg", 5_250),
        strs(&["-ss", "5.25", "-i", "/in.mp4", "-vframes", "1", "-vf", "scale=320:-1", "-y", "/out.jpg"])
    );
    assert_eq!(
        s.volume_probe_args("/in.mp4"),
        strs(&["-i", "/in.mp4", "-af", "volumedetect", "-f", "null", "-"])
    );
    assert_eq!(
        s.normalize_args("/in.mp4", "/out.mp4", "1280x720", 25),
        strs(&[
            "-i", "/in.mp4", "-vf", "scale=1280x720,fps=25", "-c:v", "libx264", "-preset", "medium", "-crf",
            "23", "-c:a", "aac", "-b:a", "192k", "-y", "/out.mp4",
        ])
    );
    assert_eq!(
        s.transparency_args("/in.mp4", "/out.webm", "green"),
        Ok(strs(&[
            "-i", "/in.mp4", "-vf", "chromakey=0x00FF00:0.1:0.2", "-c:v", "libvpx-vp9", "-lossless", "1", "-y",
            "/out.webm",
        ]))
    );
    assert_eq!(
        s.transparency_args("/in.mp4", "/out.webm", "blue"),
        Err("Unsupported color for transparency".to_string())
    );
    assert!(s.check_audio_muted("[Parsed_volumedetect_0] mean_volume: -inf dB"));
    assert!(!s.check_audio_muted("[Parsed_volumedetect_0] mean_volume: -20.5 dB\nmax_volume: -3.0 dB"));
}
