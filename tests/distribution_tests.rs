use playout_engine::distribution::{relay_target_of, Distribution, FeedGate, ProcessPoll, Protocol, RelaySlot};
use playout_engine::settings::EngineSettings;

pub fn settings() -> EngineSettings {
    EngineSettings {
        output_type: "rtmp".to_string(),
        output_url: "rtmp://example.com/live/main".to_string(),
        resolution: "1920x1080".to_string(),
        fps: "25".to_string(),
        video_bitrate: "5000k".to_string(),
        audio_bitrate: "192k".to_string(),
        video_codec: "h264".to_string(),
        audio_codec: "aac".to_string(),
        logo_path: None,
        logo_position: None,
        overlay_enabled: false,
        overlay_opacity_milli: None,
        overlay_scale_milli: None,
        auto_start_protocols: false,
        rtmp_enabled: false,
        srt_enabled: true,
        udp_enabled: false,
        rtmp_output_url: None,
        srt_output_url: Some("  srt://dest:9000?mode=caller  ".to_string()),
        udp_output_url: Some("udp://239.1.1.1:5000".to_string()),
        dash_enabled: false,
        mss_enabled: false,
        rist_enabled: false,
        rtsp_enabled: false,
        webrtc_enabled: false,
        dash_output_url: None,
        mss_output_url: None,
        rist_output_url: None,
    }
}

#[test]
fn relay_targets_from_settings() {
    let st = settings();
    assert_eq!(relay_target_of(&st, Protocol::Rtmp), (false, "rtmp://example.com/live/main".to_string()));
    assert_eq!(relay_target_of(&st, Protocol::Srt), (true, "  srt://dest:9000?mode=caller  ".to_string()));
    assert_eq!(relay_target_of(&st, Protocol::Udp), (false, "udp://239.1.1.1:5000".to_string()));
    let mut st = settings();
    st.auto_start_protocols = true;
    assert_eq!(relay_target_of(&st, Protocol::Rtmp).0, true);
    st.output_type = "srt".to_string();
    assert_eq!(relay_target_of(&st, Protocol::Rtmp), (false, String::new()));
}

#[test]
fn disabling_kills_regardless_of_cooldown_and_reenabling_starts_once() {
    let mut slot = RelaySlot::new();
    let url = "srt://dest:9000";
    let plan = slot.reconcile(true, url, ProcessPoll::Running, 0, 5000);
    assert!(plan.spawn && !plan.kill);
    slot.spawn_succeeded(plan.url);
    slot.last_failure_ms = Some(900);
    let plan = slot.reconcile(false, url, ProcessPoll::Running, 1000, 5000);
    assert!(plan.kill && !plan.spawn);
    assert!(!slot.supervised);

    let mut slot = RelaySlot::new();
    let plan = slot.reconcile(true, url, ProcessPoll::Running, 0, 5000);
    slot.spawn_succeeded(plan.url);
    assert!(slot.switch_off());
    let plan = slot.reconcile(false, url, ProcessPoll::Running, 100, 5000);
    assert!(!plan.kill && !plan.spawn);
    let mut spawns = 0;
    for t in 0..10u64 {
        let plan = slot.reconcile(true, url, ProcessPoll::Running, 200 + t * 1000, 5000);
        assert!(!plan.kill);
        if plan.spawn {
            spawns += 1;
            slot.spawn_succeeded(plan.url);
        }
    }
    assert_eq!(spawns, 1);
}

#[test]
fn failures_within_cooldown_start_at_most_once() {
    let mut slot = RelaySlot::new();
    let url = "srt://dest:9000";
    let plan = slot.reconcile(true, url, ProcessPoll::Running, 0, 5000);
    slot.spawn_succeeded(plan.url);
    let mut attempts = 0;
    for t in [10_000u64, 10_500, 11_000, 11_500, 12_000] {
        let plan = slot.reconcile(true, url, ProcessPoll::Exited, t, 5000);
        if plan.spawn {
            attempts += 1;
            slot.spawn_succeeded(plan.url);
        }
    }
    assert!(attempts <= 1);
    assert_eq!(slot.last_failure_ms, Some(10_000));
    let plan = slot.reconcile(true, url, ProcessPoll::Running, 15_000, 5000);
    assert!(plan.spawn);
    slot.spawn_failed(15_000);
    assert!(!slot.reconcile(true, url, ProcessPoll::Running, 19_999, 5000).spawn);
    assert!(slot.reconcile(true, url, ProcessPoll::Running, 20_000, 5000).spawn);
}

#[test]
fn url_change_restarts_the_relay() {
    let mut slot = RelaySlot::new();
    let plan = slot.reconcile(true, "srt://a:1", ProcessPoll::Running, 0, 5000);
    slot.spawn_succeeded(plan.url);
    let plan = slot.reconcile(true, "srt://a:1", ProcessPoll::Running, 1000, 5000);
    assert!(!plan.kill && !plan.spawn);
    let plan = slot.reconcile(true, "srt://b:2", ProcessPoll::Running, 2000, 5000);
    assert!(plan.kill && plan.spawn);
    assert_eq!(plan.url, "srt://b:2");
    assert!(slot.last_url.is_none());
}

#[test]
fn distribution_trims_and_tears_down() {
    let st = settings();
    let mut d = Distribution::new();
    assert_eq!(d.observe_feed(true), FeedGate::Proceed);
    let plan = d.reconcile(Protocol::Srt, &st, ProcessPoll::Running, 0);
    assert!(plan.spawn);
    assert_eq!(plan.url, "srt://dest:9000?mode=caller");
    d.srt.spawn_succeeded(plan.url);
    let plan = d.reconcile(Protocol::Rtmp, &st, ProcessPoll::Running, 0);
    assert!(!plan.spawn && !plan.kill);
    for _ in 0..9 {
        assert_eq!(d.observe_feed(false), FeedGate::Wait);
    }
    assert!(d.srt.supervised);
    assert_eq!(d.observe_feed(false), FeedGate::TearDown);
    assert!(!d.srt.supervised);
    assert!(d.srt.last_url.is_none());
    assert_eq!(d.observe_feed(true), FeedGate::Proceed);
    assert_eq!(d.inactive_ticks, 0);
    assert!(d.switch_off(Protocol::Udp) == false);
}

#[test]
fn destination_is_trimmed_of_unicode_space() {
    let mut st = settings();
    st.srt_output_url = Some("\u{3000}\tsrt://dest:9000\u{a0}\n".to_string());
    let mut d = Distribution::new();
    let plan = d.reconcile(Protocol::Srt, &st, ProcessPoll::Running, 0);
    assert!(plan.spawn);
    assert_eq!(plan.url, "srt://dest:9000");
}
