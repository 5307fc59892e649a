use playout_engine::controller::{build_sequence, sequence_keys, OutputSnapshot, PlayoutController, TickDecision, Phase};
use playout_engine::cursor::{locate, upcoming, ClipRef, Cursor, LocateError};
use playout_engine::engine::{parse_toggle_target, skip_remaining, PlayAction, PlayoutEngine, ToggleTarget};
use playout_engine::distribution::{FeedGate, Protocol};

fn clip(id: &str, source: &str, secs: u64) -> ClipRef {
    ClipRef {
        id: if id.is_empty() { None } else { Some(id.to_string()) },
        source: source.to_string(),
        duration_ms: secs * 1000,
    }
}

fn playlist() -> Vec<ClipRef> {
    vec![
        clip("a", "/m/a.mp4", 1200),
        clip("b", "/m/b.mp4", 1200),
        clip("c", "/m/c.mp4", 1200),
    ]
}

fn snapshot() -> OutputSnapshot {
    OutputSnapshot {
        output_url: "rtmp://mediamtx:1935/live/master".to_string(),
        resolution: "1920x1080".to_string(),
        video_bitrate: "5000k".to_string(),
        audio_bitrate: "192k".to_string(),
        overlay_enabled: true,
        overlay_opacity_milli: 1000,
        overlay_scale_milli: 1000,
    }
}

#[test]
fn cursor_rests_in_last_clip_half_a_second_before_the_end() {
    let clips = playlist();
    let c = locate(&clips, 3_599_500).unwrap();
    assert_eq!(c, Cursor { index: 2, offset_ms: 3_599_500 - 2_400_000 });
    assert_eq!(locate(&clips, 3_600_000), Err(LocateError::EndOfPlaylist));
}

#[test]
fn cursor_selects_one_clip_with_offset_below_duration() {
    let clips = vec![clip("a", "/a", 10), clip("z", "/z", 0), clip("b", "/b", 5)];
    for e in 0..15_000u64 {
        let c = locate(&clips, e).unwrap();
        assert!(c.offset_ms < clips[c.index].duration_ms);
        let expected = if e < 10_000 { 0 } else { 2 };
        assert_eq!(c.index, expected);
    }
    assert_eq!(locate(&clips, 15_000), Err(LocateError::EndOfPlaylist));
    assert_eq!(locate(&Vec::new(), 0), Err(LocateError::EndOfPlaylist));
    assert_eq!(locate(&clips, 0), Ok(Cursor { index: 0, offset_ms: 0 }));
    assert_eq!(locate(&clips, 10_000), Ok(Cursor { index: 2, offset_ms: 0 }));
}

#[test]
fn look_ahead_queue_is_capped() {
    let clips: Vec<ClipRef> = (0..10).map(|i| clip(&format!("c{}", i), "/x", 1)).collect();
    let q = upcoming(&clips, 2, 5);
    let ids: Vec<String> = q.iter().map(|c| c.id.clone().unwrap()).collect();
    assert_eq!(ids, vec!["c3", "c4", "c5", "c6", "c7"]);
    assert_eq!(upcoming(&clips, 8, 5).len(), 1);
    assert_eq!(upcoming(&clips, 9, 5).len(), 0);
}

#[test]
fn sequence_skips_clips_without_a_path() {
    let clips = vec![clip("a", "/a", 1), clip("b", "", 1), clip("", "/c", 1), clip("d", "/d", 1)];
    let seq = build_sequence(&clips, 0, 2);
    let keys = sequence_keys(&seq);
    assert_eq!(keys, vec!["a".to_string(), "/c".to_string()]);
    let seq = build_sequence(&clips, 0, 50);
    assert_eq!(sequence_keys(&seq), vec!["a".to_string(), "/c".to_string(), "d".to_string()]);
}

#[test]
fn in_sequence_ticks_never_restart() {
    let mut c = PlayoutController::new(10);
    let snap = snapshot();
    let a = "a".to_string();
    assert_eq!(c.on_tick(&a, false, &snap), TickDecision::Restart);
    c.on_started(vec!["a".to_string(), "b".to_string(), "c".to_string()], a.clone());
    for key in ["a", "a", "b", "b", "c"] {
        assert_eq!(c.on_tick(&key.to_string(), true, &snap), TickDecision::InSequence);
    }
    assert_eq!(c.clips_played, 2);
    assert_eq!(c.phase, Phase::Playing);
    assert_eq!(c.on_tick(&"d".to_string(), true, &snap), TickDecision::Restart);
}

#[test]
fn settings_change_forces_restart() {
    let mut c = PlayoutController::new(10);
    let snap = snapshot();
    let a = "a".to_string();
    c.on_tick(&a, false, &snap);
    c.on_started(vec![a.clone()], a.clone());
    assert_eq!(c.on_tick(&a, true, &snap), TickDecision::InSequence);
    let mut nudged = snapshot();
    nudged.overlay_opacity_milli = 995;
    assert_eq!(c.on_tick(&a, true, &nudged), TickDecision::InSequence);
    let mut moved = snapshot();
    moved.overlay_opacity_milli = 500;
    assert_eq!(c.on_tick(&a, true, &moved), TickDecision::Restart);
    assert_eq!(c.applied_opacity_milli, 500);
    let mut res = snapshot();
    res.overlay_opacity_milli = 500;
    res.resolution = "1280x720".to_string();
    assert_eq!(c.on_tick(&a, true, &res), TickDecision::Restart);
    assert_eq!(c.on_tick(&a, true, &res), TickDecision::InSequence);
    assert_eq!(c.on_tick(&a, false, &res), TickDecision::Restart);
}

#[test]
fn engine_plans_restart_then_continues() {
    let mut e = PlayoutEngine::new();
    let clips = playlist();
    let snap = snapshot();
    let plan = e.plan_playback(&clips, 1000, 1000 + 1_300_000, false, &snap);
    assert_eq!(plan.action, PlayAction::Restart);
    assert_eq!(plan.cursor, Some(Cursor { index: 1, offset_ms: 100_000 }));
    assert_eq!(plan.clip_key, "b");
    assert_eq!(plan.upcoming.len(), 1);
    assert_eq!(sequence_keys(&plan.sequence), vec!["b".to_string(), "c".to_string()]);
    e.controller.on_started(sequence_keys(&plan.sequence), plan.clip_key.clone());
    let plan = e.plan_playback(&clips, 1000, 1000 + 2_500_000, true, &snap);
    assert_eq!(plan.action, PlayAction::Continue);
    assert_eq!(plan.clip_key, "c");
    assert_eq!(e.controller.clips_played, 1);
    let plan = e.plan_playback(&clips, 1000, 1000 + 3_600_000, true, &snap);
    assert_eq!(plan.action, PlayAction::Idle);
    assert_eq!(e.controller.phase, Phase::Idle);
    assert!(e.controller.current_clip.is_none());
    let plan = e.plan_playback(&clips, 5000, 4000, true, &snap);
    assert_eq!(plan.action, PlayAction::NotStarted);
}

#[test]
fn skip_moves_by_the_rest_of_the_clip() {
    assert_eq!(skip_remaining(10_000, 2_500), Some(7_500));
    assert_eq!(skip_remaining(10_000, 10_000), None);
    let mut e = PlayoutEngine::new();
    assert!(!e.take_skip());
    e.skip_current_clip();
    assert!(e.take_skip());
    assert!(!e.take_skip());
}

#[test]
fn log_ring_keeps_the_last_twenty() {
    let mut e = PlayoutEngine::new();
    for i in 0..25 {
        e.add_log(format!("line {}", i));
    }
    assert_eq!(e.logs.len(), 20);
    assert_eq!(e.logs[0], "line 5");
    assert_eq!(e.logs[19], "line 24");
    e.set_running(true, "--- Starting Playout Engine ---".to_string());
    assert_eq!(e.logs, vec!["--- Starting Playout Engine ---".to_string()]);
    assert!(e.get_running());
    e.set_running(false, String::new());
    assert!(!e.get_running());
    assert_eq!(e.controller.phase, Phase::Stopped);
}

#[test]
fn toggle_protocol_names() {
    assert_eq!(parse_toggle_target("srt"), Some(ToggleTarget::Relay(Protocol::Srt)));
    assert_eq!(parse_toggle_target("hls"), Some(ToggleTarget::Hls));
    let mut e = PlayoutEngine::new();
    assert_eq!(e.toggle_protocol("ftp", true), Err("Unknown protocol: ftp".to_string()));
    assert_eq!(e.toggle_protocol("hls", false), Ok(false));
    assert_eq!(e.toggle_protocol("rtmp", false), Ok(false));
    e.distribution.rtmp.spawn_succeeded("rtmp://x/y".to_string());
    assert_eq!(e.toggle_protocol("rtmp", true), Ok(false));
    assert_eq!(e.toggle_protocol("rtmp", false), Ok(true));
    assert!(!e.distribution.rtmp.supervised);
}

#[test]
fn concat_list_names_each_clip() {
    let clips = vec![clip("a", "/m/a.mp4", 1), clip("b", "/m/b b.mp4", 1)];
    assert_eq!(
        playout_engine::controller::concat_list_text(&clips),
        "file '/m/a.mp4'\nfile '/m/b b.mp4'\n"
    );
    assert_eq!(playout_engine::controller::concat_list_text(&Vec::new()), "");
}

#[test]
fn feed_gate_falls_back_to_running_flag() {
    let mut e = PlayoutEngine::new();
    assert_eq!(e.feed_gate(None), FeedGate::Wait);
    e.set_running(true, "start".to_string());
    assert_eq!(e.feed_gate(None), FeedGate::Proceed);
    assert_eq!(e.feed_gate(Some(false)), FeedGate::Wait);
    assert_eq!(e.distribution.inactive_ticks, 1);
}

#[test]
fn applied_skip_forces_the_next_tick_to_restart() {
    let mut e = PlayoutEngine::new();
    let clips = playlist();
    let snap = snapshot();
    let plan = e.plan_playback(&clips, 0, 100_000, false, &snap);
    e.controller.on_started(sequence_keys(&plan.sequence), plan.clip_key.clone());
    assert_eq!(e.plan_playback(&clips, 0, 200_000, true, &snap).action, PlayAction::Continue);
    let rest = skip_remaining(clips[0].duration_ms, 200_000).unwrap();
    e.skip_applied();
    let plan = e.plan_playback(&clips, 0, (200_000 + rest) as u32, true, &snap);
    assert_eq!(plan.action, PlayAction::Restart);
    assert_eq!(plan.clip_key, "b");
    assert_eq!(plan.cursor, Some(Cursor { index: 1, offset_ms: 0 }));
}

#[test]
fn toggling_one_protocol_leaves_the_others() {
    let mut e = PlayoutEngine::new();
    e.distribution.rtmp.spawn_succeeded("rtmp://a/b".to_string());
    e.distribution.srt.spawn_succeeded("srt://c:1".to_string());
    assert_eq!(e.toggle_protocol("srt", false), Ok(true));
    assert!(e.distribution.rtmp.supervised);
    assert!(!e.distribution.srt.supervised);
    assert_eq!(e.toggle_protocol("rtmp", true), Ok(false));
    assert!(e.distribution.rtmp.supervised);
}
