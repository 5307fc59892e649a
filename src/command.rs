//! Command builder: destination URL rewriting and the encoder's argument
//! lists.
use vstd::prelude::*;
use crate::numbers::{milli_decimal, milli_string, signed_decimal, signed_string};
use crate::text::{
    occurs_at, text_occurs_at, has_sub, starts_with, replaced, first_index, text_contains,
    text_starts_with, text_replace, text_find, text_concat, text_eq,
};

verus! {

/// The encoder and prober binaries.
pub struct FFmpegService {
    pub ffmpeg_path: String,
    pub ffprobe_path: String,
}

/// The character sequences of an argument list.
pub open spec fn views(v: Seq<String>) -> Seq<Seq<char>> {
    v.map_values(|s: String| s@)
}

/// Appends one argument.
pub fn push_arg(args: &mut Vec<String>, a: &str)
    ensures
        views(final(args)@) == views(old(args)@).push(a@),
{
    args.push(String::from_str(a));
    assert(views(args@) =~= views(old(args)@).push(a@));
}

/// Appends the arguments of `more`.
pub fn append_args(args: &mut Vec<String>, more: Vec<String>)
    ensures
        views(final(args)@) == views(old(args)@) + views(more@),
{
    let mut more = more;
    let ghost m = more@;
    args.append(&mut more);
    assert(views(args@) =~= views(old(args)@) + views(m));
}

/// A multicast address (first octet 224 to 239) begins right after the
/// `://` at position `i`.
pub open spec fn multicast_at(u: Seq<char>, i: int) -> bool {
    &&& occurs_at(u, "://"@, i)
    &&& i + 7 <= u.len()
    &&& u[i + 3] == '2'
    &&& ((u[i + 4] == '2' && '4' <= u[i + 5] && u[i + 5] <= '9') || (u[i + 4] == '3' && '0' <= u[i
        + 5] && u[i + 5] <= '9'))
    &&& u[i + 6] == '.'
}

/// The URL names a multicast destination (224.0.0.0 to 239.255.255.255).
pub open spec fn is_multicast(u: Seq<char>) -> bool {
    exists|i: int| multicast_at(u, i)
}

/// A UDP listener URL `udp://@:port` rewritten to bind to every interface:
/// everything after the first `@`, up to a second one, from its first `:`
/// on, follows `udp://0.0.0.0`; without such a `:`, each `@` becomes
/// `0.0.0.0`.
pub open spec fn bind_all(a: Seq<char>) -> Seq<char> {
    let p = first_index(a, "@"@).unwrap();
    let rest = a.subrange(p + 1, a.len() as int);
    let seg = match first_index(rest, "@"@) {
        Some(q) => rest.subrange(0, q),
        None => rest,
    };
    match first_index(seg, ":"@) {
        Some(c) => "udp://0.0.0.0"@ + seg.subrange(c, seg.len() as int),
        None => replaced(a, "@"@, "0.0.0.0"@),
    }
}

/// The destination of a UDP relay: multicast tuning, listener binding, and
/// a packet size that fits MPEG-TS.
pub open spec fn udp_relay_url(u: Seq<char>) -> Seq<char> {
    let u1 = if is_multicast(u) {
        with_param(with_param(u, "ttl="@, "ttl=2"@), "buffer_size="@, "buffer_size=10000000"@)
    } else {
        u
    };
    let u2 = if (has_sub(u1, "@"@) || has_sub(u1, "listen=1"@)) && !has_sub(u1, "://2"@) {
        let a = with_param(u1, "listen=1"@, "listen=1"@);
        if has_sub(a, "@"@) {
            bind_all(a)
        } else {
            a
        }
    } else {
        u1
    };
    with_param(u2, "pkt_size="@, "pkt_size=1316"@)
}

/// The destination of an SRT relay: live transport, latency and packet size
/// unless given.
pub open spec fn srt_relay_url(u: Seq<char>) -> Seq<char> {
    with_param(
        with_param(with_param(u, "transtype="@, "transtype=live"@), "latency="@, "latency=200ms"@),
        "pkt_size="@,
        "pkt_size=1316"@,
    )
}

/// The argument list of a relay that copies `input` to `output`, each first
/// rewritten by `mapped_url`.
pub open spec fn relay_args(input: Seq<char>, output: Seq<char>) -> Seq<Seq<char>> {
    let i = mapped_url(input);
    let o = mapped_url(output);
    let head = seq![
        "-thread_queue_size"@, "1024"@, "-fflags"@, "+genpts"@, "-rw_timeout"@, "10000000"@,
        "-i"@, i, "-map"@, "0"@, "-c"@, "copy"@,
    ];
    if starts_with(o, "rtmp://"@) {
        head + seq![
            "-f"@, "fifo"@, "-fifo_format"@, "flv"@, "-queue_size"@, "60000"@,
            "-attempt_recovery"@, "1"@, "-recovery_wait_time"@, "1"@, "-drop_pkts_on_overflow"@,
            "1"@, o,
        ]
    } else if starts_with(o, "srt://"@) {
        head + seq![
            "-f"@, "fifo"@, "-fifo_format"@, "mpegts"@, "-queue_size"@, "60000"@,
            "-attempt_recovery"@, "1"@, "-drop_pkts_on_overflow"@, "1"@, "-recovery_wait_time"@,
            "1"@, srt_relay_url(o),
        ]
    } else if starts_with(o, "udp://"@) {
        head + seq!["-f"@, "mpegts"@, udp_relay_url(o)]
    } else {
        head + seq![o]
    }
}

/// Separator before a new query parameter: `&` once the URL has a query.
pub open spec fn param_sep(u: Seq<char>) -> Seq<char> {
    if has_sub(u, "?"@) {
        "&"@
    } else {
        "?"@
    }
}

/// `u` with parameter `kv` appended, unless `key` already occurs in it.
pub open spec fn with_param(u: Seq<char>, key: Seq<char>, kv: Seq<char>) -> Seq<char> {
    if has_sub(u, key) {
        u
    } else {
        u + param_sep(u) + kv
    }
}

/// `u` with the loopback host names replaced by `host`.
pub open spec fn loopback_to(u: Seq<char>, host: Seq<char>) -> Seq<char> {
    replaced(replaced(u, "localhost"@, host), "127.0.0.1"@, host)
}

/// Length of the path name at the start of `s`: up to the first `?` or `&`.
pub open spec fn name_len(s: Seq<char>) -> int
    decreases s.len(),
{
    if s.len() == 0 || s[0] == '?' || s[0] == '&' {
        0
    } else {
        1 + name_len(s.drop_first())
    }
}

/// An SRT `streamid=publish:<path>` gets the media server's credentials
/// after its path name, unless they are already there.
pub open spec fn with_publish_credentials(f: Seq<char>) -> Seq<char> {
    match first_index(f, "publish:"@) {
        Some(pos) => {
            let start = pos + 8;
            let after = f.subrange(start, f.len() as int);
            let end = name_len(after);
            let name = after.subrange(0, end);
            if has_sub(name, ":backend:backend"@) {
                f
            } else {
                f.subrange(0, start) + name + ":backend:backend"@ + f.subrange(start + end, f.len() as int)
            }
        },
        None => f,
    }
}

/// How a destination that points at this machine is rewritten so that the
/// encoder, which runs beside the media server, reaches it.
pub open spec fn mapped_url(u: Seq<char>) -> Seq<char> {
    if !(has_sub(u, "localhost"@) || has_sub(u, "127.0.0.1"@) || has_sub(u, "mediamtx"@)) {
        u
    } else if starts_with(u, "rtmp://"@) {
        let h = loopback_to(u, "mediamtx"@);
        if !has_sub(u, "@"@) && !has_sub(u, "user="@) {
            h + param_sep(u) + "user=backend&pass=backend"@
        } else {
            h
        }
    } else if starts_with(u, "srt://"@) {
        if has_sub(u, "mode=listener"@) || has_sub(u, "listen=1"@) {
            replaced(loopback_to(u, Seq::empty()), "0.0.0.0"@, Seq::empty())
        } else {
            let f = loopback_to(u, "mediamtx"@);
            if has_sub(f, "mediamtx"@) && !has_sub(f, "user="@) {
                if has_sub(f, "streamid="@) {
                    with_publish_credentials(f)
                } else {
                    f + param_sep(f) + "user=backend&pass=backend"@
                }
            } else {
                f
            }
        }
    } else if starts_with(u, "udp://"@) {
        if has_sub(u, "@"@) {
            loopback_to(u, Seq::empty())
        } else {
            loopback_to(u, "host.docker.internal"@)
        }
    } else {
        u
    }
}

/// Appends parameter `kv` to `u` unless `key` already occurs in it.
pub fn add_param(u: String, key: &str, kv: &str) -> (r: String)
    ensures
        r@ == with_param(u@, key@, kv@),
{
    if text_contains(u.as_str(), key) {
        u
    } else {
        let sep = if text_contains(u.as_str(), "?") { "&" } else { "?" };
        let r = text_concat(text_concat(u.as_str(), sep).as_str(), kv);
        r
    }
}

fn loopback_to_exec(u: &str, host: &str) -> (r: String)
    ensures
        r@ == loopback_to(u@, host@),
{
    proof {
        reveal_strlit("localhost");
        reveal_strlit("127.0.0.1");
    }
    let a = text_replace(u, "localhost", host);
    text_replace(a.as_str(), "127.0.0.1", host)
}

fn name_len_exec(s: &str) -> (r: usize)
    ensures
        r as int == name_len(s@),
        r <= s@.len(),
{
    let n = s.unicode_len();
    let mut i: usize = 0;
    proof {
        assert(s@.subrange(0, n as int) =~= s@);
    }
    while i < n
        invariant
            n == s@.len(),
            0 <= i <= n,
            i + name_len(s@.subrange(i as int, n as int)) == name_len(s@),
        decreases n - i,
    {
        let c = s.get_char(i);
        proof {
            assert(s@.subrange(i as int, n as int)[0] == c);
            assert(s@.subrange(i as int, n as int).drop_first() =~= s@.subrange(i + 1, n as int));
        }
        if c == '?' || c == '&' {
            return i;
        }
        i = i + 1;
    }
    proof {
        assert(s@.subrange(n as int, n as int).len() == 0);
    }
    i
}

fn with_publish_credentials_exec(f: &str) -> (r: String)
    ensures
        r@ == with_publish_credentials(f@),
{
    proof {
        reveal_strlit("publish:");
    }
    match text_find(f, "publish:") {
        Some(pos) => {
            let n = f.unicode_len();
            let start = pos + 8;
            let after = f.substring_char(start, n);
            let end = name_len_exec(after);
            let name = after.substring_char(0, end);
            if text_contains(name, ":backend:backend") {
                String::from_str(f)
            } else {
                let head = f.substring_char(0, start);
                let tail = f.substring_char(start + end, n);
                let a = text_concat(head, name);
                let b = text_concat(a.as_str(), ":backend:backend");
                let r = text_concat(b.as_str(), tail);
                proof {
                    assert(after@.subrange(0, end as int) == f@.subrange(start as int, n as int).subrange(0, end as int));
                }
                r
            }
        },
        None => String::from_str(f),
    }
}

pub(crate) fn is_multicast_exec(u: &str) -> (r: bool)
    ensures
        r == is_multicast(u@),
{
    let n = u.unicode_len();
    let mut i: usize = 0;
    while i < n
        invariant
            n == u@.len(),
            0 <= i <= n,
            forall|k: int| 0 <= k < i ==> !multicast_at(u@, k),
        decreases n - i,
    {
        if n - i >= 7 && text_occurs_at(u, "://", i) {
            let c3 = u.get_char(i + 3);
            let c4 = u.get_char(i + 4);
            let c5 = u.get_char(i + 5);
            let c6 = u.get_char(i + 6);
            if c3 == '2' && ((c4 == '2' && '4' <= c5 && c5 <= '9') || (c4 == '3' && '0' <= c5 && c5
                <= '9')) && c6 == '.' {
                assert(multicast_at(u@, i as int));
                return true;
            }
        }
        i = i + 1;
    }
    assert forall|k: int| !multicast_at(u@, k) by {
        if 0 <= k < i {
        }
    }
    false
}

pub(crate) fn with_param_exec(u: &str, key: &str, kv: &str) -> (r: String)
    ensures
        r@ == with_param(u@, key@, kv@),
{
    add_param(String::from_str(u), key, kv)
}

fn bind_all_exec(a: &str) -> (r: String)
    requires
        has_sub(a@, "@"@),
    ensures
        r@ == bind_all(a@),
{
    proof {
        reveal_strlit("@");
    }
    let n = a.unicode_len();
    let p = match text_find(a, "@") {
        Some(p) => p,
        None => 0,
    };
    let rest = a.substring_char(p + 1, n);
    let seg = match text_find(rest, "@") {
        Some(q) => rest.substring_char(0, q),
        None => rest,
    };
    match text_find(seg, ":") {
        Some(c) => {
            let tail = seg.substring_char(c, seg.unicode_len());
            text_concat("udp://0.0.0.0", tail)
        },
        None => text_replace(a, "@", "0.0.0.0"),
    }
}

fn udp_relay_url_exec(u: &str) -> (r: String)
    ensures
        r@ == udp_relay_url(u@),
{
    let u1 = if is_multicast_exec(u) {
        let a = with_param_exec(u, "ttl=", "ttl=2");
        with_param_exec(a.as_str(), "buffer_size=", "buffer_size=10000000")
    } else {
        String::from_str(u)
    };
    let u2 = if (text_contains(u1.as_str(), "@") || text_contains(u1.as_str(), "listen=1"))
        && !text_contains(u1.as_str(), "://2") {
        let a = with_param_exec(u1.as_str(), "listen=1", "listen=1");
        if text_contains(a.as_str(), "@") {
            bind_all_exec(a.as_str())
        } else {
            a
        }
    } else {
        u1
    };
    with_param_exec(u2.as_str(), "pkt_size=", "pkt_size=1316")
}

fn srt_relay_url_exec(u: &str) -> (r: String)
    ensures
        r@ == srt_relay_url(u@),
{
    let a = with_param_exec(u, "transtype=", "transtype=live");
    let b = with_param_exec(a.as_str(), "latency=", "latency=200ms");
    with_param_exec(b.as_str(), "pkt_size=", "pkt_size=1316")
}

impl FFmpegService {
    /// The argument list of a relay that copies the feed at `input_url` to
    /// `output_url` without re-encoding (see `relay_args`).
    pub fn relay_args(&self, input_url: &str, output_url: &str) -> (r: Vec<String>)
        ensures
            views(r@) == relay_args(input_url@, output_url@),
    {
        let i = self.map_output_url(input_url);
        let o = self.map_output_url(output_url);
        let mut args: Vec<String> = Vec::new();
        push_arg(&mut args, "-thread_queue_size");
        push_arg(&mut args, "1024");
        push_arg(&mut args, "-fflags");
        push_arg(&mut args, "+genpts");
        push_arg(&mut args, "-rw_timeout");
        push_arg(&mut args, "10000000");
        push_arg(&mut args, "-i");
        push_arg(&mut args, i.as_str());
        push_arg(&mut args, "-map");
        push_arg(&mut args, "0");
        push_arg(&mut args, "-c");
        push_arg(&mut args, "copy");
        let ghost head = views(args@);
        if text_starts_with(o.as_str(), "rtmp://") {
            push_arg(&mut args, "-f");
            push_arg(&mut args, "fifo");
            push_arg(&mut args, "-fifo_format");
            push_arg(&mut args, "flv");
            push_arg(&mut args, "-queue_size");
            push_arg(&mut args, "60000");
            push_arg(&mut args, "-attempt_recovery");
            push_arg(&mut args, "1");
            push_arg(&mut args, "-recovery_wait_time");
            push_arg(&mut args, "1");
            push_arg(&mut args, "-drop_pkts_on_overflow");
            push_arg(&mut args, "1");
            push_arg(&mut args, o.as_str());
        } else if text_starts_with(o.as_str(), "srt://") {
            let s = srt_relay_url_exec(o.as_str());
            push_arg(&mut args, "-f");
            push_arg(&mut args, "fifo");
            push_arg(&mut args, "-fifo_format");
            push_arg(&mut args, "mpegts");
            push_arg(&mut args, "-queue_size");
            push_arg(&mut args, "60000");
            push_arg(&mut args, "-attempt_recovery");
            push_arg(&mut args, "1");
            push_arg(&mut args, "-drop_pkts_on_overflow");
            push_arg(&mut args, "1");
            push_arg(&mut args, "-recovery_wait_time");
            push_arg(&mut args, "1");
            push_arg(&mut args, s.as_str());
        } else if text_starts_with(o.as_str(), "udp://") {
            let s = udp_relay_url_exec(o.as_str());
            push_arg(&mut args, "-f");
            push_arg(&mut args, "mpegts");
            push_arg(&mut args, s.as_str());
        } else {
            push_arg(&mut args, o.as_str());
        }
        assert(views(args@) =~= relay_args(input_url@, output_url@));
        args
    }

    /// The service, with the binaries found where the environment says, or
    /// as `ffmpeg` and `ffprobe` on the search path.
    pub fn new(ffmpeg_path: Option<String>, ffprobe_path: Option<String>) -> (r: FFmpegService)
        ensures
            r.ffmpeg_path@ == (match ffmpeg_path {
                Some(p) => p@,
                None => "ffmpeg"@,
            }),
            r.ffprobe_path@ == (match ffprobe_path {
                Some(p) => p@,
                None => "ffprobe"@,
            }),
    {
        FFmpegService {
            ffmpeg_path: match ffmpeg_path {
                Some(p) => p,
                None => String::from_str("ffmpeg"),
            },
            ffprobe_path: match ffprobe_path {
                Some(p) => p,
                None => String::from_str("ffprobe"),
            },
        }
    }

    /// Rewrites a destination that points at this machine so the encoder
    /// reaches it beside the media server (see `mapped_url`).
    pub fn map_output_url(&self, output_url: &str) -> (r: String)
        ensures
            r@ == mapped_url(output_url@),
    {
        let u = output_url;
        proof {
            reveal_strlit("");
            assert(""@ =~= Seq::<char>::empty());
        }
        if !(text_contains(u, "localhost") || text_contains(u, "127.0.0.1") || text_contains(
            u,
            "mediamtx",
        )) {
            return String::from_str(u);
        }
        if text_starts_with(u, "rtmp://") {
            let h = loopback_to_exec(u, "mediamtx");
            if !text_contains(u, "@") && !text_contains(u, "user=") {
                let sep = if text_contains(u, "?") { "&" } else { "?" };
                let a = text_concat(h.as_str(), sep);
                text_concat(a.as_str(), "user=backend&pass=backend")
            } else {
                h
            }
        } else if text_starts_with(u, "srt://") {
            if text_contains(u, "mode=listener") || text_contains(u, "listen=1") {
                proof {
                    reveal_strlit("0.0.0.0");
                }
                let a = loopback_to_exec(u, "");
                text_replace(a.as_str(), "0.0.0.0", "")
            } else {
                let f = loopback_to_exec(u, "mediamtx");
                if text_contains(f.as_str(), "mediamtx") && !text_contains(f.as_str(), "user=") {
                    if text_contains(f.as_str(), "streamid=") {
                        with_publish_credentials_exec(f.as_str())
                    } else {
                        let sep = if text_contains(f.as_str(), "?") { "&" } else { "?" };
                        let a = text_concat(f.as_str(), sep);
                        text_concat(a.as_str(), "user=backend&pass=backend")
                    }
                } else {
                    f
                }
            }
        } else if text_starts_with(u, "udp://") {
            if text_contains(u, "@") {
                loopback_to_exec(u, "")
            } else {
                loopback_to_exec(u, "host.docker.internal")
            }
        } else {
            String::from_str(u)
        }
    }
}

/// What probing a media file found. Durations are in milliseconds.
pub struct MediaInfo {
    pub duration_ms: Option<u64>,
    pub width: Option<i32>,
    pub height: Option<i32>,
    pub codec: Option<String>,
    pub bitrate: Option<i64>,
    pub has_audio: bool,
    pub has_video: bool,
}

/// A probed file is playable: it has a video or an audio stream and a
/// positive duration.
pub open spec fn playable(info: MediaInfo) -> bool {
    (info.has_video || info.has_audio) && info.duration_ms is Some && info.duration_ms.unwrap() > 0
}

impl FFmpegService {
    /// Judges a probe result: a probe error is passed on, otherwise whether
    /// the file is playable.
    pub fn validate_media(&self, probe: Result<MediaInfo, String>) -> (r: Result<bool, String>)
        ensures
            probe matches Err(e) ==> r == Err::<bool, String>(e),
            probe matches Ok(info) ==> r == Ok::<bool, String>(playable(info)),
    {
        match probe {
            Err(e) => Err(e),
            Ok(info) => {
                if !info.has_video && !info.has_audio {
                    return Ok(false);
                }
                match info.duration_ms {
                    Some(d) => Ok(d > 0),
                    None => Ok(false),
                }
            },
        }
    }
}

/// `s` with the five XML special characters escaped, `&` first.
pub open spec fn xml_escaped(s: Seq<char>) -> Seq<char> {
    replaced(
        replaced(
            replaced(replaced(replaced(s, "&"@, "&amp;"@), "<"@, "&lt;"@), ">"@, "&gt;"@),
            "\""@,
            "&quot;"@,
        ),
        "'"@,
        "&apos;"@,
    )
}

/// Escapes text for an XML document.
pub fn escape_xml(s: &str) -> (r: String)
    ensures
        r@ == xml_escaped(s@),
{
    proof {
        reveal_strlit("&");
        reveal_strlit("<");
        reveal_strlit(">");
        reveal_strlit("\"");
        reveal_strlit("'");
    }
    let a = text_replace(s, "&", "&amp;");
    let b = text_replace(a.as_str(), "<", "&lt;");
    let c = text_replace(b.as_str(), ">", "&gt;");
    let d = text_replace(c.as_str(), "\"", "&quot;");
    text_replace(d.as_str(), "'", "&apos;")
}

/// The encoder found the audio silent: its volume report shows a mean or
/// peak of minus infinity.
pub open spec fn reports_silence(stderr: Seq<char>) -> bool {
    has_sub(stderr, "mean_volume: -inf"@) || has_sub(stderr, "max_volume: -inf"@)
}

/// The filter that keys out a background colour.
pub open spec fn key_filter(color: Seq<char>) -> Option<Seq<char>> {
    if color == "green"@ {
        Some("chromakey=0x00FF00:0.1:0.2"@)
    } else if color == "black"@ {
        Some("colorkey=0x000000:0.01:0.02"@)
    } else {
        None
    }
}

impl FFmpegService {
    /// Arguments that grab one frame at `timestamp_ms`, 320 pixels wide.
    pub fn thumbnail_args(&self, input_path: &str, output_path: &str, timestamp_ms: u64) -> (r: Vec<String>)
        ensures
            views(r@) == seq![
                "-ss"@, milli_decimal(timestamp_ms as nat), "-i"@, input_path@, "-vframes"@, "1"@,
                "-vf"@, "scale=320:-1"@, "-y"@, output_path@,
            ],
    {
        let ts = milli_string(timestamp_ms);
        let mut a: Vec<String> = Vec::new();
        push_arg(&mut a, "-ss");
        push_arg(&mut a, ts.as_str());
        push_arg(&mut a, "-i");
        push_arg(&mut a, input_path);
        push_arg(&mut a, "-vframes");
        push_arg(&mut a, "1");
        push_arg(&mut a, "-vf");
        push_arg(&mut a, "scale=320:-1");
        push_arg(&mut a, "-y");
        push_arg(&mut a, output_path);
        assert(views(a@) =~= seq![
            "-ss"@, milli_decimal(timestamp_ms as nat), "-i"@, input_path@, "-vframes"@, "1"@,
            "-vf"@, "scale=320:-1"@, "-y"@, output_path@,
        ]);
        a
    }

    /// Arguments that measure the audio volume of a file.
    pub fn volume_probe_args(&self, file_path: &str) -> (r: Vec<String>)
        ensures
            views(r@) == seq!["-i"@, file_path@, "-af"@, "volumedetect"@, "-f"@, "null"@, "-"@],
    {
        let mut a: Vec<String> = Vec::new();
        push_arg(&mut a, "-i");
        push_arg(&mut a, file_path);
        push_arg(&mut a, "-af");
        push_arg(&mut a, "volumedetect");
        push_arg(&mut a, "-f");
        push_arg(&mut a, "null");
        push_arg(&mut a, "-");
        assert(views(a@) =~= seq!["-i"@, file_path@, "-af"@, "volumedetect"@, "-f"@, "null"@, "-"@]);
        a
    }

    /// Judges the volume report of a probe: whether the audio is silent.
    pub fn check_audio_muted(&self, stderr: &str) -> (r: bool)
        ensures
            r == reports_silence(stderr@),
    {
        text_contains(stderr, "mean_volume: -inf") || text_contains(stderr, "max_volume: -inf")
    }

    /// Arguments that convert a file to H.264/AAC at `resolution` and `fps`.
    pub fn normalize_args(&self, input_path: &str, output_path: &str, resolution: &str, fps: i32) -> (r: Vec<String>)
        ensures
            views(r@) == seq![
                "-i"@, input_path@, "-vf"@, "scale="@ + resolution@ + ",fps="@ + signed_decimal(fps as int),
                "-c:v"@, "libx264"@, "-preset"@, "medium"@, "-crf"@, "23"@, "-c:a"@, "aac"@, "-b:a"@,
                "192k"@, "-y"@, output_path@,
            ],
    {
        let f = signed_string(fps as i64);
        let vf = text_concat(text_concat(text_concat("scale=", resolution).as_str(), ",fps=").as_str(), f.as_str());
        let mut a: Vec<String> = Vec::new();
        push_arg(&mut a, "-i");
        push_arg(&mut a, input_path);
        push_arg(&mut a, "-vf");
        push_arg(&mut a, vf.as_str());
        push_arg(&mut a, "-c:v");
        push_arg(&mut a, "libx264");
        push_arg(&mut a, "-preset");
        push_arg(&mut a, "medium");
        push_arg(&mut a, "-crf");
        push_arg(&mut a, "23");
        push_arg(&mut a, "-c:a");
        push_arg(&mut a, "aac");
        push_arg(&mut a, "-b:a");
        push_arg(&mut a, "192k");
        push_arg(&mut a, "-y");
        push_arg(&mut a, output_path);
        assert(views(a@) =~= seq![
            "-i"@, input_path@, "-vf"@, "scale="@ + resolution@ + ",fps="@ + signed_decimal(fps as int),
            "-c:v"@, "libx264"@, "-preset"@, "medium"@, "-crf"@, "23"@, "-c:a"@, "aac"@, "-b:a"@,
            "192k"@, "-y"@, output_path@,
        ]);
        a
    }

    /// Arguments that key out a green or black background into a lossless
    /// VP9 file; any other colour is refused.
    pub fn transparency_args(&self, input_path: &str, output_path: &str, color: &str) -> (r: Result<Vec<String>, String>)
        ensures
            key_filter(color@) is None <==> r is Err,
            r matches Err(e) ==> e@ == "Unsupported color for transparency"@,
            r matches Ok(a) ==> views(a@) == seq![
                "-i"@, input_path@, "-vf"@, key_filter(color@).unwrap(), "-c:v"@, "libvpx-vp9"@,
                "-lossless"@, "1"@, "-y"@, output_path@,
            ],
    {
        let filter = if text_eq(color, "green") {
            "chromakey=0x00FF00:0.1:0.2"
        } else if text_eq(color, "black") {
            "colorkey=0x000000:0.01:0.02"
        } else {
            return Err(String::from_str("Unsupported color for transparency"));
        };
        let mut a: Vec<String> = Vec::new();
        push_arg(&mut a, "-i");
        push_arg(&mut a, input_path);
        push_arg(&mut a, "-vf");
        push_arg(&mut a, filter);
        push_arg(&mut a, "-c:v");
        push_arg(&mut a, "libvpx-vp9");
        push_arg(&mut a, "-lossless");
        push_arg(&mut a, "1");
        push_arg(&mut a, "-y");
        push_arg(&mut a, output_path);
        assert(views(a@) =~= seq![
            "-i"@, input_path@, "-vf"@, key_filter(color@).unwrap(), "-c:v"@, "libvpx-vp9"@,
            "-lossless"@, "1"@, "-y"@, output_path@,
        ]);
        Ok(a)
    }
}

} // verus!
