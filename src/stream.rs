//! The primary encode job: one encoder invocation that plays an ordered clip
//! list from an offset, composites the overlay, encodes, and fans the result
//! out to the destination, the local HLS preview and the enabled secondary
//! sinks.
use vstd::prelude::*;
use crate::command::{
    FFmpegService, views, push_arg, append_args, mapped_url, with_param, is_multicast,
    is_multicast_exec, with_param_exec,
};
use crate::numbers::{
    milli_decimal, milli_string, parsed_i32, parse_i32, signed_decimal, signed_string,
};
use crate::settings::{EngineSettings, or_default};
use crate::text::{
    has_sub, starts_with, ends_with, replaced, text_contains, text_starts_with, text_ends_with,
    text_replace, text_concat, text_eq,
};

verus! {

/// The arguments that read the clip list from `offset_ms` on.
pub open spec fn input_args(input: Seq<char>, offset_ms: nat) -> Seq<Seq<char>> {
    seq!["-re"@] + (if ends_with(input, ".txt"@) {
        seq!["-f"@, "concat"@, "-safe"@, "0"@]
    } else {
        Seq::empty()
    }) + (if offset_ms > 0 {
        seq!["-ss"@, milli_decimal(offset_ms)]
    } else {
        Seq::empty()
    }) + seq!["-i"@, input]
}

/// An overlay file is given.
pub open spec fn has_logo(logo: Option<Seq<char>>) -> bool {
    logo is Some && logo.unwrap().len() > 0
}

/// The arguments that read the overlay: a clip loops forever, an image is
/// held.
pub open spec fn logo_args(logo: Option<Seq<char>>) -> Seq<Seq<char>> {
    if has_logo(logo) {
        let l = logo.unwrap();
        (if ends_with(l, ".mp4"@) || ends_with(l, ".webm"@) {
            seq!["-stream_loop"@, "-1"@]
        } else {
            Seq::empty()
        }) + (if ends_with(l, ".jpg"@) || ends_with(l, ".jpeg"@) || ends_with(l, ".png"@)
            || ends_with(l, ".webp"@) {
            seq!["-loop"@, "1"@]
        } else {
            Seq::empty()
        }) + seq!["-i"@, l]
    } else {
        Seq::empty()
    }
}

pub open spec fn clamp(v: int, lo: int, hi: int) -> int {
    if v < lo {
        lo
    } else if v > hi {
        hi
    } else {
        v
    }
}

/// Overlay coordinates for the anchor named by `pos`; top right by default.
pub open spec fn overlay_coords(pos: Option<Seq<char>>) -> Seq<char> {
    if pos == Some("top-left"@) {
        "50:50"@
    } else if pos == Some("bottom-left"@) {
        "50:H-h-50"@
    } else if pos == Some("bottom-right"@) {
        "W-w-50:H-h-50"@
    } else {
        "W-w-50:50"@
    }
}

pub open spec fn opt_view(o: Option<String>) -> Option<Seq<char>> {
    match o {
        Some(s) => Some(s@),
        None => None,
    }
}

/// The filter graph: scale the clip, blend the overlay over it when there
/// is one, and level the audio.
pub open spec fn filter_graph(st: EngineSettings, logo: bool) -> Seq<char> {
    let video = if logo {
        let op = milli_decimal(clamp(or_default(st.overlay_opacity_milli, 1000), 0, 1000) as nat);
        let sc = milli_decimal(clamp(or_default(st.overlay_scale_milli, 1000), 100, 2000) as nat);
        "[0:v]scale="@ + st.resolution@ + "[bg];[1:v]scale=iw*"@ + sc + ":ih*"@ + sc
            + ",format=rgba,colorchannelmixer=aa="@ + op + "[logo];[bg][logo]overlay="@
            + overlay_coords(opt_view(st.logo_position)) + "[v_out];"@
    } else {
        "[0:v]scale="@ + st.resolution@ + "[v_out];"@
    };
    video + "[0:a]volume=0.8[a_out]"@
}

/// The video codec. The filter graph always scales the video, and a
/// filtered stream cannot be copied, so `copy` becomes `h264`.
pub open spec fn video_codec(st: EngineSettings) -> Seq<char> {
    if st.video_codec@ == "copy"@ {
        "h264"@
    } else {
        st.video_codec@
    }
}

/// The audio codec. The filter graph always levels the audio, so `copy`
/// becomes `aac`.
pub open spec fn audio_codec(st: EngineSettings) -> Seq<char> {
    if st.audio_codec@ == "copy"@ {
        "aac"@
    } else {
        st.audio_codec@
    }
}

pub open spec fn parsed_or(s: Seq<char>, default: int) -> int {
    match parsed_i32(s) {
        Some(v) => v,
        None => default,
    }
}

/// Keyframe interval: two seconds of frames (30 fps when unreadable).
pub open spec fn gop_text(st: EngineSettings) -> Seq<char> {
    signed_decimal(parsed_or(st.fps@, 30) * 2)
}

/// Rate-control buffer: twice the video bitrate in kbit/s (5000 when
/// unreadable).
pub open spec fn bufsize_text(st: EngineSettings) -> Seq<char> {
    signed_decimal(parsed_or(replaced(st.video_bitrate@, "k"@, Seq::empty()), 5000) * 2) + "k"@
}

pub open spec fn video_args(codec: Seq<char>, st: EngineSettings) -> Seq<Seq<char>> {
    let vb = st.video_bitrate@;
    let gop = gop_text(st);
    let buf = bufsize_text(st);
    if codec == "h264"@ {
        seq![
            "-c:v"@, "libx264"@, "-tune"@, "zerolatency"@, "-flags"@, "+global_header"@,
            "-profile:v"@, "high"@, "-level"@, "4.1"@, "-preset"@, "veryfast"@, "-bf"@, "0"@,
            "-b:v"@, vb, "-maxrate"@, vb, "-bufsize"@, buf, "-pix_fmt"@, "yuv420p"@, "-g"@, gop,
        ]
    } else if codec == "hevc"@ {
        seq![
            "-c:v"@, "libx265"@, "-tune"@, "zerolatency"@, "-flags"@, "+global_header"@,
            "-preset"@, "ultrafast"@, "-b:v"@, vb, "-maxrate"@, vb, "-bufsize"@, buf,
            "-pix_fmt"@, "yuv420p"@, "-g"@, gop,
        ]
    } else if codec == "vp8"@ {
        seq!["-c:v"@, "libvpx"@, "-b:v"@, vb, "-g"@, gop]
    } else if codec == "vp9"@ {
        seq!["-c:v"@, "libvpx-vp9"@, "-b:v"@, vb, "-g"@, gop]
    } else if codec == "av1"@ {
        seq!["-c:v"@, "libaom-av1"@, "-b:v"@, vb, "-g"@, gop]
    } else {
        seq!["-c:v"@, "libx264"@, "-preset"@, "veryfast"@, "-b:v"@, vb]
    }
}

pub open spec fn audio_args(codec: Seq<char>, st: EngineSettings) -> Seq<Seq<char>> {
    let ab = st.audio_bitrate@;
    if codec == "aac"@ {
        seq!["-c:a"@, "aac"@, "-b:a"@, ab, "-ar"@, "44100"@]
    } else if codec == "opus"@ {
        seq!["-c:a"@, "libopus"@, "-b:a"@, ab]
    } else {
        seq!["-c:a"@, "aac"@, "-b:a"@, ab]
    }
}

/// The filter graph touches both streams on every run, so neither is ever
/// copied: the codec named after `-c:v` and after `-c:a` is an encoder.
pub proof fn lemma_filtered_streams_are_encoded(st: EngineSettings)
    ensures
        video_args(video_codec(st), st)[0] == "-c:v"@,
        video_args(video_codec(st), st)[1] != "copy"@,
        audio_args(audio_codec(st), st)[0] == "-c:a"@,
        audio_args(audio_codec(st), st)[1] != "copy"@,
{
    reveal_strlit("copy");
    reveal_strlit("libx264");
    reveal_strlit("libx265");
    reveal_strlit("libvpx");
    reveal_strlit("libvpx-vp9");
    reveal_strlit("libaom-av1");
    reveal_strlit("aac");
    reveal_strlit("libopus");
    reveal_strlit("h264");
    assert("copy"@[0] != "libx264"@[0]);
    assert("copy"@[0] != "libx265"@[0]);
    assert("copy"@[0] != "libvpx"@[0]);
    assert("copy"@[0] != "libvpx-vp9"@[0]);
    assert("copy"@[0] != "libaom-av1"@[0]);
    assert("copy"@[0] != "aac"@[0]);
    assert("copy"@[0] != "libopus"@[0]);
}

/// Protocol tuning of the destination: multicast UDP gets a TTL, a buffer
/// and a local address; SRT gets live transport, latency, overhead, and a
/// listen flag in listener mode.
pub open spec fn tuned_url(e: Seq<char>) -> Seq<char> {
    if starts_with(e, "udp://"@) {
        if is_multicast(e) {
            with_param(
                with_param(with_param(e, "ttl="@, "ttl=2"@), "buffer_size="@, "buffer_size=10000000"@),
                "localaddr="@,
                "localaddr=0.0.0.0"@,
            )
        } else {
            e
        }
    } else if starts_with(e, "srt://"@) {
        let c = with_param(
            with_param(with_param(e, "transtype="@, "transtype=live"@), "latency="@, "latency=200ms"@),
            "overhead_bandwidth="@,
            "overhead_bandwidth=25"@,
        );
        if has_sub(c, "mode=listener"@) {
            with_param(c, "listen=1"@, "listen=1"@)
        } else {
            c
        }
    } else {
        e
    }
}

/// Transport streams get a packet size that avoids fragmentation.
pub open spec fn final_url(t: Seq<char>) -> Seq<char> {
    if !starts_with(t, "rtmp://"@) && (starts_with(t, "srt://"@) || starts_with(t, "udp://"@)) {
        with_param(t, "pkt_size="@, "pkt_size=1316"@)
    } else {
        t
    }
}

/// The container of the destination.
pub open spec fn output_format(t: Seq<char>) -> Seq<char> {
    if !starts_with(t, "rtmp://"@) && (starts_with(t, "srt://"@) || starts_with(t, "udp://"@)) {
        "mpegts"@
    } else {
        "flv"@
    }
}

/// The destination's entry in the tee: RTMP and SRT behind a queue that
/// drops rather than stalls the other outputs.
pub open spec fn primary_sink(f: Seq<char>, fmt: Seq<char>) -> Seq<char> {
    let q = "'"@ + replaced(f, "'"@, "'\\''"@) + "'"@;
    if starts_with(f, "srt://"@) {
        "[f=fifo:fifo_format=mpegts:onfail=ignore:drop_pkts_on_overflow=1:restart_with_keyframe=1:queue_size=60000]"@ + q
    } else if starts_with(f, "rtmp://"@) {
        "[f=fifo:fifo_format=flv:onfail=ignore:drop_pkts_on_overflow=1:attempt_recovery=1:recovery_wait_time=3:restart_with_keyframe=1:queue_size=60000]"@ + q
    } else {
        "[f="@ + fmt + "]"@ + q
    }
}

/// A secondary sink, present when enabled and given a destination.
pub open spec fn optional_sink(enabled: bool, url: Option<String>, prefix: Seq<char>) -> Seq<char> {
    if enabled && url is Some {
        "|"@ + prefix + "'"@ + url.unwrap()@ + "'"@
    } else {
        Seq::empty()
    }
}

/// All sinks of the tee, `|`-separated.
pub open spec fn tee_spec(st: EngineSettings, f: Seq<char>, fmt: Seq<char>, hls: Seq<char>) -> Seq<char> {
    primary_sink(f, fmt) + "|"@
        + "[f=hls:hls_time=2:hls_list_size=10:hls_flags=delete_segments+independent_segments]"@ + hls
        + "/stream.m3u8"@ + optional_sink(
        st.dash_enabled,
        st.dash_output_url,
        "[f=dash:window_size=5:extra_window_size=5:remove_at_exit=1:dash_segment_type=webm]"@,
    ) + optional_sink(st.mss_enabled, st.mss_output_url, "[f=ismv]"@) + optional_sink(
        st.rist_enabled,
        st.rist_output_url,
        "[f=rist:pkt_size=1316]"@,
    )
}

pub open spec fn output_args(st: EngineSettings, output: Seq<char>, hls: Option<Seq<char>>) -> Seq<Seq<char>> {
    let t = tuned_url(mapped_url(output));
    let f = final_url(t);
    let fmt = output_format(t);
    match hls {
        Some(h) => seq!["-f"@, "tee"@, "-map"@, "[v_out]"@, "-map"@, "[a_out]"@, tee_spec(st, f, fmt, h)],
        None => seq!["-f"@, fmt, "-map"@, "[v_out]"@, "-map"@, "[a_out]"@, f],
    }
}

/// The whole argument list of the primary encode job.
pub open spec fn stream_args(
    input: Seq<char>,
    output: Seq<char>,
    offset_ms: nat,
    st: EngineSettings,
    hls: Option<Seq<char>>,
    logo: Option<Seq<char>>,
) -> Seq<Seq<char>> {
    let l = has_logo(logo);
    input_args(input, offset_ms) + logo_args(logo) + seq!["-filter_complex"@, filter_graph(st, l)]
        + video_args(video_codec(st), st) + audio_args(audio_codec(st), st) + output_args(
        st,
        output,
        hls,
    )
}

pub open spec fn str_view(o: Option<&str>) -> Option<Seq<char>> {
    match o {
        Some(s) => Some(s@),
        None => None,
    }
}

fn cat(a: String, b: &str) -> (r: String)
    ensures
        r@ == a@ + b@,
{
    let mut a = a;
    a.append(b);
    a
}

fn opt_is(o: &Option<String>, lit: &str) -> (r: bool)
    ensures
        r == (opt_view(*o) == Some(lit@)),
{
    match o {
        Some(s) => text_eq(s.as_str(), lit),
        None => false,
    }
}

fn input_args_exec(input: &str, offset_ms: u64) -> (r: Vec<String>)
    ensures
        views(r@) == input_args(input@, offset_ms as nat),
{
    let mut args: Vec<String> = Vec::new();
    push_arg(&mut args, "-re");
    if text_ends_with(input, ".txt") {
        push_arg(&mut args, "-f");
        push_arg(&mut args, "concat");
        push_arg(&mut args, "-safe");
        push_arg(&mut args, "0");
    }
    if offset_ms > 0 {
        let o = milli_string(offset_ms);
        push_arg(&mut args, "-ss");
        push_arg(&mut args, o.as_str());
    }
    push_arg(&mut args, "-i");
    push_arg(&mut args, input);
    assert(views(args@) =~= input_args(input@, offset_ms as nat));
    args
}

fn has_logo_exec(logo: Option<&str>) -> (r: bool)
    ensures
        r == has_logo(str_view(logo)),
{
    match logo {
        Some(l) => !l.is_empty(),
        None => false,
    }
}

fn logo_args_exec(logo: Option<&str>) -> (r: Vec<String>)
    ensures
        views(r@) == logo_args(str_view(logo)),
{
    let mut args: Vec<String> = Vec::new();
    if has_logo_exec(logo) {
        let l = match logo {
            Some(l) => l,
            None => "",
        };
        if text_ends_with(l, ".mp4") || text_ends_with(l, ".webm") {
            push_arg(&mut args, "-stream_loop");
            push_arg(&mut args, "-1");
        }
        if text_ends_with(l, ".jpg") || text_ends_with(l, ".jpeg") || text_ends_with(l, ".png")
            || text_ends_with(l, ".webp") {
            push_arg(&mut args, "-loop");
            push_arg(&mut args, "1");
        }
        push_arg(&mut args, "-i");
        push_arg(&mut args, l);
    }
    assert(views(args@) =~= logo_args(str_view(logo)));
    args
}

fn clamp_exec(v: i32, lo: i32, hi: i32) -> (r: i32)
    requires
        lo <= hi,
    ensures
        r as int == clamp(v as int, lo as int, hi as int),
{
    if v < lo {
        lo
    } else if v > hi {
        hi
    } else {
        v
    }
}

fn overlay_coords_exec(pos: &Option<String>) -> (r: &'static str)
    ensures
        r@ == overlay_coords(opt_view(*pos)),
{
    if opt_is(pos, "top-left") {
        "50:50"
    } else if opt_is(pos, "bottom-left") {
        "50:H-h-50"
    } else if opt_is(pos, "bottom-right") {
        "W-w-50:H-h-50"
    } else {
        "W-w-50:50"
    }
}

fn filter_graph_exec(st: &EngineSettings, logo: bool) -> (r: String)
    ensures
        r@ == filter_graph(*st, logo),
{
    let v = if logo {
        let opacity = clamp_exec(
            match st.overlay_opacity_milli {
                Some(x) => x,
                None => 1000,
            },
            0,
            1000,
        );
        let scale = clamp_exec(
            match st.overlay_scale_milli {
                Some(x) => x,
                None => 1000,
            },
            100,
            2000,
        );
        let op = milli_string(opacity as u64);
        let sc = milli_string(scale as u64);
        let mut s = String::from_str("[0:v]scale=");
        s = cat(s, st.resolution.as_str());
        s = cat(s, "[bg];[1:v]scale=iw*");
        s = cat(s, sc.as_str());
        s = cat(s, ":ih*");
        s = cat(s, sc.as_str());
        s = cat(s, ",format=rgba,colorchannelmixer=aa=");
        s = cat(s, op.as_str());
        s = cat(s, "[logo];[bg][logo]overlay=");
        s = cat(s, overlay_coords_exec(&st.logo_position));
        cat(s, "[v_out];")
    } else {
        let s = String::from_str("[0:v]scale=");
        let s = cat(s, st.resolution.as_str());
        cat(s, "[v_out];")
    };
    cat(v, "[0:a]volume=0.8[a_out]")
}

fn parsed_or_exec(s: &str, default: i32) -> (r: i64)
    ensures
        r as int == parsed_or(s@, default as int),
{
    match parse_i32(s) {
        Some(v) => v as i64,
        None => default as i64,
    }
}

fn gop_exec(st: &EngineSettings) -> (r: String)
    ensures
        r@ == gop_text(*st),
{
    signed_string(parsed_or_exec(st.fps.as_str(), 30) * 2)
}

fn bufsize_exec(st: &EngineSettings) -> (r: String)
    ensures
        r@ == bufsize_text(*st),
{
    proof {
        reveal_strlit("k");
        reveal_strlit("");
        assert(""@ =~= Seq::<char>::empty());
    }
    let plain = text_replace(st.video_bitrate.as_str(), "k", "");
    let n = signed_string(parsed_or_exec(plain.as_str(), 5000) * 2);
    cat(n, "k")
}

fn video_args_exec(codec: &str, st: &EngineSettings) -> (r: Vec<String>)
    ensures
        views(r@) == video_args(codec@, *st),
{
    let vb = st.video_bitrate.as_str();
    let gop = gop_exec(st);
    let buf = bufsize_exec(st);
    let mut a: Vec<String> = Vec::new();
    if text_eq(codec, "h264") {
        push_arg(&mut a, "-c:v");
        push_arg(&mut a, "libx264");
        push_arg(&mut a, "-tune");
        push_arg(&mut a, "zerolatency");
        push_arg(&mut a, "-flags");
        push_arg(&mut a, "+global_header");
        push_arg(&mut a, "-profile:v");
        push_arg(&mut a, "high");
        push_arg(&mut a, "-level");
        push_arg(&mut a, "4.1");
        push_arg(&mut a, "-preset");
        push_arg(&mut a, "veryfast");
        push_arg(&mut a, "-bf");
        push_arg(&mut a, "0");
        push_arg(&mut a, "-b:v");
        push_arg(&mut a, vb);
        push_arg(&mut a, "-maxrate");
        push_arg(&mut a, vb);
        push_arg(&mut a, "-bufsize");
        push_arg(&mut a, buf.as_str());
        push_arg(&mut a, "-pix_fmt");
        push_arg(&mut a, "yuv420p");
        push_arg(&mut a, "-g");
        push_arg(&mut a, gop.as_str());
    } else if text_eq(codec, "hevc") {
        push_arg(&mut a, "-c:v");
        push_arg(&mut a, "libx265");
        push_arg(&mut a, "-tune");
        push_arg(&mut a, "zerolatency");
        push_arg(&mut a, "-flags");
        push_arg(&mut a, "+global_header");
        push_arg(&mut a, "-preset");
        push_arg(&mut a, "ultrafast");
        push_arg(&mut a, "-b:v");
        push_arg(&mut a, vb);
        push_arg(&mut a, "-maxrate");
        push_arg(&mut a, vb);
        push_arg(&mut a, "-bufsize");
        push_arg(&mut a, buf.as_str());
        push_arg(&mut a, "-pix_fmt");
        push_arg(&mut a, "yuv420p");
        push_arg(&mut a, "-g");
        push_arg(&mut a, gop.as_str());
    } else if text_eq(codec, "vp8") || text_eq(codec, "vp9") || text_eq(codec, "av1") {
        let lib = if text_eq(codec, "vp8") {
            "libvpx"
        } else if text_eq(codec, "vp9") {
            "libvpx-vp9"
        } else {
            "libaom-av1"
        };
        push_arg(&mut a, "-c:v");
        push_arg(&mut a, lib);
        push_arg(&mut a, "-b:v");
        push_arg(&mut a, vb);
        push_arg(&mut a, "-g");
        push_arg(&mut a, gop.as_str());
    } else {
        push_arg(&mut a, "-c:v");
        push_arg(&mut a, "libx264");
        push_arg(&mut a, "-preset");
        push_arg(&mut a, "veryfast");
        push_arg(&mut a, "-b:v");
        push_arg(&mut a, vb);
    }
    assert(views(a@) =~= video_args(codec@, *st));
    a
}

fn audio_args_exec(codec: &str, st: &EngineSettings) -> (r: Vec<String>)
    ensures
        views(r@) == audio_args(codec@, *st),
{
    let ab = st.audio_bitrate.as_str();
    let mut a: Vec<String> = Vec::new();
    if text_eq(codec, "aac") {
        push_arg(&mut a, "-c:a");
        push_arg(&mut a, "aac");
        push_arg(&mut a, "-b:a");
        push_arg(&mut a, ab);
        push_arg(&mut a, "-ar");
        push_arg(&mut a, "44100");
    } else if text_eq(codec, "opus") {
        push_arg(&mut a, "-c:a");
        push_arg(&mut a, "libopus");
        push_arg(&mut a, "-b:a");
        push_arg(&mut a, ab);
    } else {
        push_arg(&mut a, "-c:a");
        push_arg(&mut a, "aac");
        push_arg(&mut a, "-b:a");
        push_arg(&mut a, ab);
    }
    assert(views(a@) =~= audio_args(codec@, *st));
    a
}

fn tuned_url_exec(e: &str) -> (r: String)
    ensures
        r@ == tuned_url(e@),
{
    if text_starts_with(e, "udp://") {
        if is_multicast_exec(e) {
            let a = with_param_exec(e, "ttl=", "ttl=2");
            let b = with_param_exec(a.as_str(), "buffer_size=", "buffer_size=10000000");
            with_param_exec(b.as_str(), "localaddr=", "localaddr=0.0.0.0")
        } else {
            String::from_str(e)
        }
    } else if text_starts_with(e, "srt://") {
        let a = with_param_exec(e, "transtype=", "transtype=live");
        let b = with_param_exec(a.as_str(), "latency=", "latency=200ms");
        let c = with_param_exec(b.as_str(), "overhead_bandwidth=", "overhead_bandwidth=25");
        if text_contains(c.as_str(), "mode=listener") {
            with_param_exec(c.as_str(), "listen=1", "listen=1")
        } else {
            c
        }
    } else {
        String::from_str(e)
    }
}

fn optional_sink_exec(enabled: bool, url: &Option<String>, prefix: &str) -> (r: String)
    ensures
        r@ == optional_sink(enabled, *url, prefix@),
{
    proof {
        reveal_strlit("");
        assert(""@ =~= Seq::<char>::empty());
    }
    if enabled {
        match url {
            Some(u) => {
                let s = String::from_str("|");
                let s = cat(s, prefix);
                let s = cat(s, "'");
                let s = cat(s, u.as_str());
                cat(s, "'")
            },
            None => String::from_str(""),
        }
    } else {
        String::from_str("")
    }
}

fn primary_sink_exec(f: &str, fmt: &str) -> (r: String)
    ensures
        r@ == primary_sink(f@, fmt@),
{
    proof {
        reveal_strlit("'");
    }
    let escaped = text_replace(f, "'", "'\\''");
    let q = cat(cat(String::from_str("'"), escaped.as_str()), "'");
    if text_starts_with(f, "srt://") {
        text_concat(
            "[f=fifo:fifo_format=mpegts:onfail=ignore:drop_pkts_on_overflow=1:restart_with_keyframe=1:queue_size=60000]",
            q.as_str(),
        )
    } else if text_starts_with(f, "rtmp://") {
        text_concat(
            "[f=fifo:fifo_format=flv:onfail=ignore:drop_pkts_on_overflow=1:attempt_recovery=1:recovery_wait_time=3:restart_with_keyframe=1:queue_size=60000]",
            q.as_str(),
        )
    } else {
        let s = cat(String::from_str("[f="), fmt);
        let s = cat(s, "]");
        cat(s, q.as_str())
    }
}

fn tee_exec(st: &EngineSettings, f: &str, fmt: &str, hls: &str) -> (r: String)
    ensures
        r@ == tee_spec(*st, f@, fmt@, hls@),
{
    let s = primary_sink_exec(f, fmt);
    let s = cat(s, "|");
    let s = cat(
        s,
        "[f=hls:hls_time=2:hls_list_size=10:hls_flags=delete_segments+independent_segments]",
    );
    let s = cat(s, hls);
    let s = cat(s, "/stream.m3u8");
    let d = optional_sink_exec(
        st.dash_enabled,
        &st.dash_output_url,
        "[f=dash:window_size=5:extra_window_size=5:remove_at_exit=1:dash_segment_type=webm]",
    );
    let s = cat(s, d.as_str());
    let m = optional_sink_exec(st.mss_enabled, &st.mss_output_url, "[f=ismv]");
    let s = cat(s, m.as_str());
    let r = optional_sink_exec(st.rist_enabled, &st.rist_output_url, "[f=rist:pkt_size=1316]");
    cat(s, r.as_str())
}

impl FFmpegService {
    fn output_args_exec(&self, st: &EngineSettings, output: &str, hls: Option<&str>) -> (r: Vec<
        String,
    >)
        ensures
            views(r@) == output_args(*st, output@, str_view(hls)),
    {
        let mapped = self.map_output_url(output);
        let t = tuned_url_exec(mapped.as_str());
        let transport = !text_starts_with(t.as_str(), "rtmp://") && (text_starts_with(
            t.as_str(),
            "srt://",
        ) || text_starts_with(t.as_str(), "udp://"));
        let f = if transport {
            with_param_exec(t.as_str(), "pkt_size=", "pkt_size=1316")
        } else {
            t
        };
        let fmt = if transport {
            "mpegts"
        } else {
            "flv"
        };
        let mut a: Vec<String> = Vec::new();
        match hls {
            Some(h) => {
                let tee = tee_exec(st, f.as_str(), fmt, h);
                push_arg(&mut a, "-f");
                push_arg(&mut a, "tee");
                push_arg(&mut a, "-map");
                push_arg(&mut a, "[v_out]");
                push_arg(&mut a, "-map");
                push_arg(&mut a, "[a_out]");
                push_arg(&mut a, tee.as_str());
            },
            None => {
                push_arg(&mut a, "-f");
                push_arg(&mut a, fmt);
                push_arg(&mut a, "-map");
                push_arg(&mut a, "[v_out]");
                push_arg(&mut a, "-map");
                push_arg(&mut a, "[a_out]");
                push_arg(&mut a, f.as_str());
            },
        }
        assert(views(a@) =~= output_args(*st, output@, str_view(hls)));
        a
    }

    /// The argument list of the primary encode job (see `stream_args`): the
    /// clip list `input_path` from `offset_ms`, overlaid with `logo_path`
    /// when one is given, encoded as `settings` say, sent to `output_url`
    /// and, when `hls_preview_path` is given, also to the local HLS preview
    /// and the enabled secondary sinks.
    pub fn stream_args(
        &self,
        input_path: &str,
        output_url: &str,
        offset_ms: u64,
        settings: &EngineSettings,
        hls_preview_path: Option<&str>,
        logo_path: Option<&str>,
    ) -> (r: Vec<String>)
        ensures
            views(r@) == stream_args(
                input_path@,
                output_url@,
                offset_ms as nat,
                *settings,
                str_view(hls_preview_path),
                str_view(logo_path),
            ),
    {
        let logo = has_logo_exec(logo_path);
        let mut args = input_args_exec(input_path, offset_ms);
        append_args(&mut args, logo_args_exec(logo_path));
        let filter = filter_graph_exec(settings, logo);
        push_arg(&mut args, "-filter_complex");
        push_arg(&mut args, filter.as_str());
        let v = if text_eq(settings.video_codec.as_str(), "copy") {
            "h264"
        } else {
            settings.video_codec.as_str()
        };
        let a = if text_eq(settings.audio_codec.as_str(), "copy") {
            "aac"
        } else {
            settings.audio_codec.as_str()
        };
        append_args(&mut args, video_args_exec(v, settings));
        append_args(&mut args, audio_args_exec(a, settings));
        append_args(&mut args, self.output_args_exec(settings, output_url, hls_preview_path));
        proof {
            assert(views(args@) =~= stream_args(
                input_path@,
                output_url@,
                offset_ms as nat,
                *settings,
                str_view(hls_preview_path),
                str_view(logo_path),
            ));
        }
        args
    }
}

} // verus!
