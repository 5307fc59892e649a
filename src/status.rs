//! Per-protocol stream status for reporting, from the media server's path
//! readers, the relay processes and the session counts.
use vstd::prelude::*;
use crate::distribution::ProcessPoll;
use crate::settings::EngineSettings;
use crate::text::{
    text_eq, text_contains, text_ends_with, text_replace, text_concat, has_sub, ends_with,
    replaced,
};

verus! {

/// Readiness and reader counts of one media-server path.
#[derive(Clone, Copy, Debug, PartialEq, Eq, Structural)]
pub struct PathInfo {
    pub ready: bool,
    pub rtmp: i32,
    pub hls: i32,
    pub srt: i32,
    pub webrtc: i32,
    pub rtsp: i32,
}

/// One line of the protocol status table.
pub struct ActiveStream {
    pub protocol: String,
    pub status: String,
    pub sessions: i32,
    pub details: String,
}

pub struct StreamView {
    pub protocol: Seq<char>,
    pub status: Seq<char>,
    pub sessions: int,
    pub details: Seq<char>,
}

impl View for ActiveStream {
    type V = StreamView;

    open spec fn view(&self) -> StreamView {
        StreamView {
            protocol: self.protocol@,
            status: self.status@,
            sessions: self.sessions as int,
            details: self.details@,
        }
    }
}

/// `a + b`, held within the range of `i32`.
pub open spec fn sat_add(a: int, b: int) -> int {
    if a + b > i32::MAX {
        i32::MAX as int
    } else if a + b < i32::MIN {
        i32::MIN as int
    } else {
        a + b
    }
}

fn sat_add_exec(a: i32, b: i32) -> (r: i32)
    ensures
        r as int == sat_add(a as int, b as int),
{
    let s = a as i64 + b as i64;
    if s > i32::MAX as i64 {
        i32::MAX
    } else if s < i32::MIN as i64 {
        i32::MIN
    } else {
        s as i32
    }
}

/// The count after one reader of kind `kind` is seen.
pub open spec fn counted(p: PathInfo, kind: Seq<char>) -> PathInfo {
    if kind == "rtmpConn"@ {
        PathInfo { rtmp: sat_add(p.rtmp as int, 1) as i32, ..p }
    } else if kind == "hlsConn"@ || kind == "hlsSession"@ {
        PathInfo { hls: sat_add(p.hls as int, 1) as i32, ..p }
    } else if kind == "srtConn"@ {
        PathInfo { srt: sat_add(p.srt as int, 1) as i32, ..p }
    } else if kind == "webrtcConn"@ || kind == "webrtcSession"@ {
        PathInfo { webrtc: sat_add(p.webrtc as int, 1) as i32, ..p }
    } else if kind == "rtspConn"@ || kind == "rtspSession"@ {
        PathInfo { rtsp: sat_add(p.rtsp as int, 1) as i32, ..p }
    } else {
        p
    }
}

/// `count` held within the range of `i32`.
pub open spec fn clamp_i32(count: int) -> int {
    if count > i32::MAX {
        i32::MAX as int
    } else if count < i32::MIN {
        i32::MIN as int
    } else {
        count
    }
}

/// A path that reports only a reader count: HLS readers when the path is an
/// HLS one, RTMP readers otherwise.
pub open spec fn from_count(ready: bool, name: Option<Seq<char>>, count: int) -> PathInfo {
    let hls = name is Some && (has_sub(name.unwrap(), "hls"@) || ends_with(name.unwrap(), "m3u8"@));
    let c = clamp_i32(count) as i32;
    if hls {
        PathInfo { ready, rtmp: 0, hls: c, srt: 0, webrtc: 0, rtsp: 0 }
    } else {
        PathInfo { ready, rtmp: c, hls: 0, srt: 0, webrtc: 0, rtsp: 0 }
    }
}

impl PathInfo {
    /// A path with no readers.
    pub fn new(ready: bool) -> (r: PathInfo)
        ensures
            r == (PathInfo { ready, rtmp: 0, hls: 0, srt: 0, webrtc: 0, rtsp: 0 }),
    {
        PathInfo { ready, rtmp: 0, hls: 0, srt: 0, webrtc: 0, rtsp: 0 }
    }

    /// Counts one reader of kind `kind` (`rtmpConn`, `hlsSession`, ...);
    /// other kinds are ignored.
    pub fn count_reader(&mut self, kind: &str)
        ensures
            *final(self) == counted(*old(self), kind@),
    {
        if text_eq(kind, "rtmpConn") {
            self.rtmp = sat_add_exec(self.rtmp, 1);
        } else if text_eq(kind, "hlsConn") || text_eq(kind, "hlsSession") {
            self.hls = sat_add_exec(self.hls, 1);
        } else if text_eq(kind, "srtConn") {
            self.srt = sat_add_exec(self.srt, 1);
        } else if text_eq(kind, "webrtcConn") || text_eq(kind, "webrtcSession") {
            self.webrtc = sat_add_exec(self.webrtc, 1);
        } else if text_eq(kind, "rtspConn") || text_eq(kind, "rtspSession") {
            self.rtsp = sat_add_exec(self.rtsp, 1);
        }
    }

    /// A path known only by its reader count.
    pub fn from_reader_count(ready: bool, name: Option<&str>, count: i64) -> (r: PathInfo)
        ensures
            r == from_count(
                ready,
                match name {
                    Some(n) => Some(n@),
                    None => None,
                },
                count as int,
            ),
    {
        let hls = match name {
            Some(n) => text_contains(n, "hls") || text_ends_with(n, "m3u8"),
            None => false,
        };
        let c: i32 = if count > i32::MAX as i64 {
            i32::MAX
        } else if count < i32::MIN as i64 {
            i32::MIN
        } else {
            count as i32
        };
        if hls {
            PathInfo { ready, rtmp: 0, hls: c, srt: 0, webrtc: 0, rtsp: 0 }
        } else {
            PathInfo { ready, rtmp: c, hls: 0, srt: 0, webrtc: 0, rtsp: 0 }
        }
    }

    /// All readers of the path.
    pub fn total_readers(&self) -> (r: i32)
        ensures
            r as int == sat_add(
                sat_add(sat_add(sat_add(self.rtmp as int, self.hls as int), self.srt as int), self.webrtc as int),
                self.rtsp as int,
            ),
    {
        sat_add_exec(
            sat_add_exec(sat_add_exec(sat_add_exec(self.rtmp, self.hls), self.srt), self.webrtc),
            self.rtsp,
        )
    }
}

pub open spec fn is_ready(p: Option<PathInfo>) -> bool {
    p is Some && p.unwrap().ready
}

/// The status of a relayed protocol: idle when off; when on, active once
/// its path is ready, else starting; an error when its relay has stopped.
pub open spec fn relay_status(on: bool, path: Option<PathInfo>, poll: Option<ProcessPoll>) -> Seq<char> {
    if !on {
        "idle"@
    } else if poll is Some && poll.unwrap() != ProcessPoll::Running {
        "error"@
    } else if is_ready(path) {
        "active"@
    } else {
        "starting"@
    }
}

/// The UDP status comes from its relay alone.
pub open spec fn udp_status(on: bool, poll: Option<ProcessPoll>) -> Seq<char> {
    if !on {
        "idle"@
    } else {
        match poll {
            Some(ProcessPoll::Running) => "active"@,
            Some(_) => "error"@,
            None => "starting"@,
        }
    }
}

pub open spec fn relay_details(url: Option<String>, default: Seq<char>) -> Seq<char> {
    let u = match url {
        Some(s) => s@,
        None => default,
    };
    "Relay: "@ + replaced(u, "mediamtx"@, "localhost"@)
}

pub open spec fn udp_details(url: Option<String>) -> Seq<char> {
    let u = match url {
        Some(s) => s@,
        None => "udp://@:1234"@,
    };
    "Relay: "@ + replaced(replaced(u, "127.0.0.1"@, "@"@), "localhost"@, "@"@)
}

pub open spec fn line(protocol: Seq<char>, status: Seq<char>, sessions: int, details: Seq<char>) -> StreamView {
    StreamView { protocol, status, sessions, details }
}

pub open spec fn sessions_of(p: Option<PathInfo>, f: spec_fn(PathInfo) -> i32) -> int {
    match p {
        Some(i) => f(i) as int,
        None => 0,
    }
}

pub open spec fn active_if(b: bool) -> Seq<char> {
    if b {
        "active"@
    } else {
        "idle"@
    }
}

/// The status table: master feed, RTMP, HLS, SRT, UDP, then the protocols
/// the media server serves off the default path.
pub open spec fn report(
    st: EngineSettings,
    engine_running: bool,
    master: Option<PathInfo>,
    live: Option<PathInfo>,
    live_srt: Option<PathInfo>,
    rtmp_poll: Option<ProcessPoll>,
    srt_poll: Option<ProcessPoll>,
    udp_poll: Option<ProcessPoll>,
    hls_sessions: int,
    udp_sessions: int,
) -> Seq<StreamView> {
    let rtmp_on = st.rtmp_enabled || st.output_type@ == "rtmp"@;
    let srt_on = st.srt_enabled || st.output_type@ == "srt"@;
    let udp_on = st.udp_enabled || st.output_type@ == "udp"@;
    let ready = is_ready(live);
    let us = udp_status(udp_on, udp_poll);
    seq![
        line(
            "MASTER"@,
            active_if(is_ready(master)),
            match master {
                Some(m) => sat_add(
                    sat_add(sat_add(sat_add(m.rtmp as int, m.hls as int), m.srt as int), m.webrtc as int),
                    m.rtsp as int,
                ),
                None => 0,
            },
            "Internal Feed"@,
        ),
        line(
            "RTMP"@,
            relay_status(rtmp_on, live, rtmp_poll),
            sessions_of(live, |i: PathInfo| i.rtmp),
            relay_details(st.rtmp_output_url, "rtmp://localhost:1935/live_stream"@),
        ),
        line("HLS"@, active_if(engine_running), hls_sessions, "http://localhost:3000/hls/stream.m3u8"@),
        line(
            "SRT"@,
            relay_status(srt_on, live_srt, srt_poll),
            sessions_of(live_srt, |i: PathInfo| i.srt),
            relay_details(st.srt_output_url, "srt://localhost:8890?mode=caller&streamid=read:live_stream_srt"@),
        ),
        line("UDP"@, us, if us == "active"@ { udp_sessions } else { 0 }, udp_details(st.udp_output_url)),
        line("DASH"@, active_if(st.dash_enabled && ready), sessions_of(live, |i: PathInfo| i.hls), "Manifest-based"@),
        line("MSS"@, active_if(st.mss_enabled && ready), sessions_of(live, |i: PathInfo| i.hls), "Smooth Streaming"@),
        line("RTSP"@, active_if(st.rtsp_enabled && ready), sessions_of(live, |i: PathInfo| i.rtsp), "Port 8554"@),
        line("WebRTC"@, active_if(st.webrtc_enabled && ready), sessions_of(live, |i: PathInfo| i.webrtc), "Low Latency"@),
    ]
}

pub open spec fn views_of(v: Seq<ActiveStream>) -> Seq<StreamView> {
    v.map_values(|a: ActiveStream| a@)
}

fn push_line(v: &mut Vec<ActiveStream>, protocol: &str, status: &str, sessions: i32, details: String)
    ensures
        views_of(final(v)@) == views_of(old(v)@).push(line(protocol@, status@, sessions as int, details@)),
{
    v.push(ActiveStream {
        protocol: String::from_str(protocol),
        status: String::from_str(status),
        sessions,
        details,
    });
    assert(views_of(v@) =~= views_of(old(v)@).push(line(protocol@, status@, sessions as int, details@)));
}

fn relay_status_exec(on: bool, path: Option<PathInfo>, poll: Option<ProcessPoll>) -> (r: &'static str)
    ensures
        r@ == relay_status(on, path, poll),
{
    if !on {
        "idle"
    } else if match poll {
        Some(p) => p != ProcessPoll::Running,
        None => false,
    } {
        "error"
    } else if match path {
        Some(p) => p.ready,
        None => false,
    } {
        "active"
    } else {
        "starting"
    }
}

fn relay_details_exec(url: &Option<String>, default: &str) -> (r: String)
    ensures
        r@ == relay_details(*url, default@),
{
    let u = match url {
        Some(s) => s.as_str(),
        None => default,
    };
    proof {
        reveal_strlit("mediamtx");
    }
    let m = text_replace(u, "mediamtx", "localhost");
    text_concat("Relay: ", m.as_str())
}

fn active_if_exec(b: bool) -> (r: &'static str)
    ensures
        r@ == active_if(b),
{
    if b {
        "active"
    } else {
        "idle"
    }
}

/// Builds the status table (see `report`). `udp_sessions` counts only while
/// the UDP relay runs.
#[verifier::spinoff_prover]
#[verifier::rlimit(50)]
pub fn stream_report(
    st: &EngineSettings,
    engine_running: bool,
    master: Option<PathInfo>,
    live: Option<PathInfo>,
    live_srt: Option<PathInfo>,
    rtmp_poll: Option<ProcessPoll>,
    srt_poll: Option<ProcessPoll>,
    udp_poll: Option<ProcessPoll>,
    hls_sessions: i32,
    udp_sessions: i32,
) -> (r: Vec<ActiveStream>)
    ensures
        views_of(r@) == report(
            *st,
            engine_running,
            master,
            live,
            live_srt,
            rtmp_poll,
            srt_poll,
            udp_poll,
            hls_sessions as int,
            udp_sessions as int,
        ),
{
    let rtmp_on = st.rtmp_enabled || text_eq(st.output_type.as_str(), "rtmp");
    let srt_on = st.srt_enabled || text_eq(st.output_type.as_str(), "srt");
    let udp_on = st.udp_enabled || text_eq(st.output_type.as_str(), "udp");
    let ready = match live {
        Some(p) => p.ready,
        None => false,
    };
    let mut v: Vec<ActiveStream> = Vec::new();
    let master_ready = match master {
        Some(p) => p.ready,
        None => false,
    };
    let master_sessions = match master {
        Some(m) => m.total_readers(),
        None => 0,
    };
    push_line(&mut v, "MASTER", active_if_exec(master_ready), master_sessions, String::from_str("Internal Feed"));
    push_line(
        &mut v,
        "RTMP",
        relay_status_exec(rtmp_on, live, rtmp_poll),
        match live {
            Some(i) => i.rtmp,
            None => 0,
        },
        relay_details_exec(&st.rtmp_output_url, "rtmp://localhost:1935/live_stream"),
    );
    push_line(
        &mut v,
        "HLS",
        active_if_exec(engine_running),
        hls_sessions,
        String::from_str("http://localhost:3000/hls/stream.m3u8"),
    );
    push_line(
        &mut v,
        "SRT",
        relay_status_exec(srt_on, live_srt, srt_poll),
        match live_srt {
            Some(i) => i.srt,
            None => 0,
        },
        relay_details_exec(&st.srt_output_url, "srt://localhost:8890?mode=caller&streamid=read:live_stream_srt"),
    );
    let us = if !udp_on {
        "idle"
    } else {
        match udp_poll {
            Some(ProcessPoll::Running) => "active",
            Some(_) => "error",
            None => "starting",
        }
    };
    let udp_url = match &st.udp_output_url {
        Some(s) => s.as_str(),
        None => "udp://@:1234",
    };
    proof {
        reveal_strlit("127.0.0.1");
        reveal_strlit("localhost");
    }
    let a = text_replace(udp_url, "127.0.0.1", "@");
    let b = text_replace(a.as_str(), "localhost", "@");
    let udp_detail = text_concat("Relay: ", b.as_str());
    let udp_count = if text_eq(us, "active") {
        udp_sessions
    } else {
        0
    };
    push_line(&mut v, "UDP", us, udp_count, udp_detail);
    let hls_readers = match live {
        Some(i) => i.hls,
        None => 0,
    };
    push_line(&mut v, "DASH", active_if_exec(st.dash_enabled && ready), hls_readers, String::from_str("Manifest-based"));
    push_line(&mut v, "MSS", active_if_exec(st.mss_enabled && ready), hls_readers, String::from_str("Smooth Streaming"));
    push_line(
        &mut v,
        "RTSP",
        active_if_exec(st.rtsp_enabled && ready),
        match live {
            Some(i) => i.rtsp,
            None => 0,
        },
        String::from_str("Port 8554"),
    );
    push_line(
        &mut v,
        "WebRTC",
        active_if_exec(st.webrtc_enabled && ready),
        match live {
            Some(i) => i.webrtc,
            None => 0,
        },
        String::from_str("Low Latency"),
    );
    assert(views_of(v@) =~= report(
        *st,
        engine_running,
        master,
        live,
        live_srt,
        rtmp_poll,
        srt_poll,
        udp_poll,
        hls_sessions as int,
        udp_sessions as int,
    ));
    v
}

/// The viewer-facing URL of each protocol.
pub struct DisplayUrls {
    pub rtmp: String,
    pub srt: String,
    pub udp: String,
    pub hls: String,
    pub master: String,
}

pub open spec fn host_for(u: Seq<char>, host: Seq<char>) -> Seq<char> {
    replaced(replaced(u, "mediamtx"@, host), "127.0.0.1"@, host)
}

pub open spec fn display_srt(u: Seq<char>, host: Seq<char>) -> Seq<char> {
    let f = host_for(u, host);
    if has_sub(f, "streamid=publish"@) {
        replaced(f, "streamid=publish"@, "streamid=read"@)
    } else if !has_sub(f, "streamid="@) {
        f + "&streamid=read:live/stream"@
    } else {
        f
    }
}

pub open spec fn display_udp(u: Seq<char>, host: Seq<char>) -> Seq<char> {
    let at = "@"@ + host + ":"@;
    if has_sub(u, "@"@) {
        replaced(replaced(replaced(u, "@:"@, at), "@localhost:"@, at), "@127.0.0.1:"@, at)
    } else {
        replaced(replaced(u, "localhost"@, host), "127.0.0.1"@, host)
    }
}

pub open spec fn or_text(o: Option<String>, default: Seq<char>) -> Seq<char> {
    match o {
        Some(s) => s@,
        None => default,
    }
}

fn or_str<'a>(o: &'a Option<String>, default: &'a str) -> (r: &'a str)
    ensures
        r@ == or_text(*o, default@),
{
    match o {
        Some(s) => s.as_str(),
        None => default,
    }
}

fn host_for_exec(u: &str, host: &str) -> (r: String)
    ensures
        r@ == host_for(u@, host@),
{
    proof {
        reveal_strlit("mediamtx");
        reveal_strlit("127.0.0.1");
    }
    let a = text_replace(u, "mediamtx", host);
    text_replace(a.as_str(), "127.0.0.1", host)
}

impl EngineSettings {
    /// The URLs shown to viewers, with the media server's name and the
    /// loopback address replaced by `host`.
    pub fn get_display_urls(&self, host: &str) -> (r: DisplayUrls)
        ensures
            r.rtmp@ == host_for(or_text(self.rtmp_output_url, "rtmp://localhost:1935/live/stream"@), host@),
            r.srt@ == display_srt(
                or_text(self.srt_output_url, "srt://localhost:8890?mode=caller&streamid=read:live/stream"@),
                host@,
            ),
            r.udp@ == display_udp(or_text(self.udp_output_url, "udp://@:1234"@), host@),
            r.hls@ == "http://"@ + host@ + ":3000/hls/stream.m3u8"@,
            r.master@ == "Internal System Feed"@,
    {
        let rtmp = host_for_exec(or_str(&self.rtmp_output_url, "rtmp://localhost:1935/live/stream"), host);
        let f = host_for_exec(
            or_str(&self.srt_output_url, "srt://localhost:8890?mode=caller&streamid=read:live/stream"),
            host,
        );
        proof {
            reveal_strlit("streamid=publish");
        }
        let srt = if text_contains(f.as_str(), "streamid=publish") {
            text_replace(f.as_str(), "streamid=publish", "streamid=read")
        } else if !text_contains(f.as_str(), "streamid=") {
            text_concat(f.as_str(), "&streamid=read:live/stream")
        } else {
            f
        };
        let u = or_str(&self.udp_output_url, "udp://@:1234");
        let at = text_concat(text_concat("@", host).as_str(), ":");
        proof {
            reveal_strlit("@:");
            reveal_strlit("@localhost:");
            reveal_strlit("@127.0.0.1:");
            reveal_strlit("localhost");
            reveal_strlit("127.0.0.1");
        }
        let udp = if text_contains(u, "@") {
            let a = text_replace(u, "@:", at.as_str());
            let b = text_replace(a.as_str(), "@localhost:", at.as_str());
            text_replace(b.as_str(), "@127.0.0.1:", at.as_str())
        } else {
            let a = text_replace(u, "localhost", host);
            text_replace(a.as_str(), "127.0.0.1", host)
        };
        let hls = text_concat(text_concat("http://", host).as_str(), ":3000/hls/stream.m3u8");
        DisplayUrls { rtmp, srt, udp, hls, master: String::from_str("Internal System Feed") }
    }
}

/// Viewer sessions by identifier, with the time each was last seen.
pub struct SessionTracker {
    pub entries: Vec<(String, u64)>,
}

pub open spec fn ids_of(e: Seq<(String, u64)>) -> Seq<Seq<char>> {
    e.map_values(|p: (String, u64)| p.0@)
}

/// A session seen at `seen` is still live at `now`.
pub open spec fn fresh(seen: int, now: int, window: int) -> bool {
    now < seen || now - seen < window
}

impl SessionTracker {
    /// No identifier occurs twice.
    pub open spec fn wf(&self) -> bool {
        forall|i: int, j: int|
            0 <= i < j < self.entries@.len() ==> self.entries@[i].0@ != self.entries@[j].0@
    }

    pub fn new() -> (r: SessionTracker)
        ensures
            r.wf(),
            r.entries@.len() == 0,
    {
        SessionTracker { entries: Vec::new() }
    }

    /// Records that session `id` was seen at `now_ms`.
    pub fn touch(&mut self, id: String, now_ms: u64)
        requires
            old(self).wf(),
        ensures
            final(self).wf(),
            ids_of(old(self).entries@).contains(id@) ==> ids_of(final(self).entries@) == ids_of(
                old(self).entries@,
            ),
            !ids_of(old(self).entries@).contains(id@) ==> ids_of(final(self).entries@) == ids_of(
                old(self).entries@,
            ).push(id@),
            forall|k: int|
                0 <= k < final(self).entries@.len() && final(self).entries@[k].0@ == id@
                    ==> #[trigger] final(self).entries@[k].1 == now_ms,
            forall|k: int|
                0 <= k < old(self).entries@.len() && old(self).entries@[k].0@ != id@
                    ==> #[trigger] final(self).entries@[k] == old(self).entries@[k],
    {
        let ghost ids = ids_of(self.entries@);
        let mut i: usize = 0;
        while i < self.entries.len()
            invariant
                self.wf(),
                self.entries@ == old(self).entries@,
                ids == ids_of(self.entries@),
                0 <= i <= self.entries@.len(),
                forall|k: int| 0 <= k < i ==> self.entries@[k].0@ != id@,
            decreases self.entries@.len() - i,
        {
            if self.entries[i].0 == id {
                let ghost before = self.entries@;
                self.entries.set(i, (id, now_ms));
                proof {
                    assert(ids_of(self.entries@) =~= ids);
                    assert(ids[i as int] == id@);
                }
                return;
            }
            i = i + 1;
        }
        proof {
            assert forall|k: int| 0 <= k < ids.len() implies ids[k] != id@ by {
                assert(ids[k] == self.entries@[k].0@);
            }
        }
        self.entries.push((id, now_ms));
        proof {
            assert(ids_of(self.entries@) =~= ids.push(id@));
        }
    }

    /// Drops the sessions not seen within `window_ms` of `now_ms` and
    /// returns how many remain.
    pub fn prune(&mut self, now_ms: u64, window_ms: u64) -> (count: usize)
        requires
            old(self).wf(),
        ensures
            final(self).wf(),
            count == final(self).entries@.len(),
            final(self).entries@ == old(self).entries@.filter(
                |p: (String, u64)| fresh(p.1 as int, now_ms as int, window_ms as int),
            ),
    {
        let ghost pred = |p: (String, u64)| fresh(p.1 as int, now_ms as int, window_ms as int);
        let old_entries = &self.entries;
        let mut kept: Vec<(String, u64)> = Vec::new();
        let mut i: usize = 0;
        proof {
            reveal(Seq::filter);
            assert(old_entries@.subrange(0, 0).filter(pred) =~= Seq::<(String, u64)>::empty());
        }
        while i < old_entries.len()
            invariant
                old_entries@ == old(self).entries@,
                0 <= i <= old_entries@.len(),
                kept@ == old_entries@.subrange(0, i as int).filter(pred),
                pred == (|p: (String, u64)| fresh(p.1 as int, now_ms as int, window_ms as int)),
            decreases old_entries@.len() - i,
        {
            let seen = old_entries[i].1;
            let keep = now_ms < seen || now_ms - seen < window_ms;
            proof {
                let next = old_entries@.subrange(0, i + 1);
                assert(next.drop_last() =~= old_entries@.subrange(0, i as int));
                assert(next.last() == old_entries@[i as int]);
                reveal(Seq::filter);
            }
            if keep {
                let id = old_entries[i].0.clone();
                kept.push((id, seen));
            }
            i = i + 1;
        }
        proof {
            assert(old_entries@.subrange(0, old_entries@.len() as int) =~= old_entries@);
            let f = old_entries@.filter(pred);
            assert forall|a: int, b: int| 0 <= a < b < f.len() implies f[a].0@ != f[b].0@ by {
                lemma_filter_keeps_distinct(old_entries@, pred, a, b);
            }
        }
        self.entries = kept;
        self.entries.len()
    }
}

proof fn lemma_filter_keeps_distinct(s: Seq<(String, u64)>, pred: spec_fn((String, u64)) -> bool, a: int, b: int)
    requires
        forall|i: int, j: int| 0 <= i < j < s.len() ==> s[i].0@ != s[j].0@,
        0 <= a < b < s.filter(pred).len(),
    ensures
        s.filter(pred)[a].0@ != s.filter(pred)[b].0@,
    decreases s.len(),
{
    reveal(Seq::filter);
    let rest = s.drop_last();
    assert forall|i: int, j: int| 0 <= i < j < rest.len() implies rest[i].0@ != rest[j].0@ by {
        assert(rest[i] == s[i] && rest[j] == s[j]);
    }
    if pred(s.last()) && b == s.filter(pred).len() - 1 {
        // the last kept element is s.last(); every earlier one comes from rest
        assert(s.filter(pred)[a] == rest.filter(pred)[a]);
        rest.lemma_filter_contains_rev(pred, rest.filter(pred)[a]);
        let k = choose|k: int| 0 <= k < rest.len() && rest[k] == rest.filter(pred)[a];
        assert(s[k] == rest[k]);
        assert(s[s.len() - 1] == s.last());
    } else {
        if pred(s.last()) {
            assert(s.filter(pred)[a] == rest.filter(pred)[a]);
            assert(s.filter(pred)[b] == rest.filter(pred)[b]);
        }
        lemma_filter_keeps_distinct(rest, pred, a, b);
    }
}

} // verus!
