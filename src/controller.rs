//! Gapless playout controller: decides on each tick whether the running
//! encoder's clip sequence still covers the clip that is due, or whether a
//! new sequence must be started.
use vstd::prelude::*;
use crate::cursor::{ClipRef, clip_key};

verus! {

/// Lifecycle state of the engine as reported in its status.
#[derive(Clone, Copy, Debug, PartialEq, Eq, Structural)]
pub enum Phase {
    Stopped,
    Idle,
    Playing,
}

/// What the tick asks of the process supervisor.
#[derive(Clone, Copy, Debug, PartialEq, Eq, Structural)]
pub enum TickDecision {
    /// The running encoder already covers the due clip: leave it alone.
    InSequence,
    /// Kill the running encoder, if any, and start a new sequence.
    Restart,
}

/// The output settings that require a re-encode when they change. Overlay
/// opacity and scale are in thousandths.
pub struct OutputSnapshot {
    pub output_url: String,
    pub resolution: String,
    pub video_bitrate: String,
    pub audio_bitrate: String,
    pub overlay_enabled: bool,
    pub overlay_opacity_milli: i32,
    pub overlay_scale_milli: i32,
}

pub struct SnapshotView {
    pub output_url: Seq<char>,
    pub resolution: Seq<char>,
    pub video_bitrate: Seq<char>,
    pub audio_bitrate: Seq<char>,
    pub overlay_enabled: bool,
    pub overlay_opacity: int,
    pub overlay_scale: int,
}

impl View for OutputSnapshot {
    type V = SnapshotView;

    open spec fn view(&self) -> SnapshotView {
        SnapshotView {
            output_url: self.output_url@,
            resolution: self.resolution@,
            video_bitrate: self.video_bitrate@,
            audio_bitrate: self.audio_bitrate@,
            overlay_enabled: self.overlay_enabled,
            overlay_opacity: self.overlay_opacity_milli as int,
            overlay_scale: self.overlay_scale_milli as int,
        }
    }
}

pub struct PlayoutController {
    pub phase: Phase,
    /// Keys of the clips the running encoder was started with, in order.
    pub running_sequence: Vec<String>,
    /// Key of the clip last reported as playing.
    pub current_clip: Option<String>,
    pub clips_played: u64,
    pub applied_output_url: String,
    pub applied_resolution: String,
    pub applied_video_bitrate: String,
    pub applied_audio_bitrate: String,
    pub applied_opacity_milli: i32,
    pub applied_scale_milli: i32,
    /// A change of overlay opacity or scale larger than this, in
    /// thousandths, requires a restart while the overlay is enabled.
    pub overlay_epsilon_milli: u32,
}

pub struct ControllerView {
    pub phase: Phase,
    pub sequence: Seq<Seq<char>>,
    pub current: Option<Seq<char>>,
    pub clips_played: int,
    pub url: Seq<char>,
    pub resolution: Seq<char>,
    pub video_bitrate: Seq<char>,
    pub audio_bitrate: Seq<char>,
    pub opacity: int,
    pub scale: int,
    pub epsilon: int,
}

impl View for PlayoutController {
    type V = ControllerView;

    open spec fn view(&self) -> ControllerView {
        ControllerView {
            phase: self.phase,
            sequence: self.running_sequence@.map_values(|s: String| s@),
            current: match self.current_clip {
                Some(s) => Some(s@),
                None => None,
            },
            clips_played: self.clips_played as int,
            url: self.applied_output_url@,
            resolution: self.applied_resolution@,
            video_bitrate: self.applied_video_bitrate@,
            audio_bitrate: self.applied_audio_bitrate@,
            opacity: self.applied_opacity_milli as int,
            scale: self.applied_scale_milli as int,
            epsilon: self.overlay_epsilon_milli as int,
        }
    }
}

pub open spec fn abs_diff(a: int, b: int) -> int {
    if a >= b { a - b } else { b - a }
}

/// The overlay is enabled and its opacity or scale moved by more than the
/// epsilon since the settings were last applied.
pub open spec fn overlay_changed(v: ControllerView, s: SnapshotView) -> bool {
    s.overlay_enabled && (abs_diff(s.overlay_opacity, v.opacity) > v.epsilon || abs_diff(
        s.overlay_scale,
        v.scale,
    ) > v.epsilon)
}

/// Destination, resolution or a bitrate differs from what was applied.
pub open spec fn output_changed(v: ControllerView, s: SnapshotView) -> bool {
    s.output_url != v.url || s.resolution != v.resolution || s.video_bitrate != v.video_bitrate
        || s.audio_bitrate != v.audio_bitrate
}

pub open spec fn restart_required(v: ControllerView, s: SnapshotView) -> bool {
    overlay_changed(v, s) || output_changed(v, s)
}

/// The snapshot is exactly what was last applied.
pub open spec fn snapshot_applied(v: ControllerView, s: SnapshotView) -> bool {
    &&& s.output_url == v.url
    &&& s.resolution == v.resolution
    &&& s.video_bitrate == v.video_bitrate
    &&& s.audio_bitrate == v.audio_bitrate
    &&& s.overlay_opacity == v.opacity
    &&& s.overlay_scale == v.scale
}

pub open spec fn tick_decision(v: ControllerView, key: Seq<char>, alive: bool, s: SnapshotView) -> TickDecision {
    if alive && !restart_required(v, s) && v.sequence.contains(key) {
        TickDecision::InSequence
    } else {
        TickDecision::Restart
    }
}

/// The state after a tick on which clip `key` is due.
pub open spec fn tick_next(v: ControllerView, key: Seq<char>, alive: bool, s: SnapshotView) -> ControllerView {
    let applied = if restart_required(v, s) {
        ControllerView {
            url: s.output_url,
            resolution: s.resolution,
            video_bitrate: s.video_bitrate,
            audio_bitrate: s.audio_bitrate,
            opacity: s.overlay_opacity,
            scale: s.overlay_scale,
            phase: Phase::Playing,
            ..v
        }
    } else {
        ControllerView { phase: Phase::Playing, ..v }
    };
    if tick_decision(v, key, alive, s) == TickDecision::InSequence && v.current != Some(key) {
        ControllerView {
            clips_played: if v.clips_played < u64::MAX { v.clips_played + 1 } else { v.clips_played },
            current: Some(key),
            ..applied
        }
    } else {
        applied
    }
}

/// Every tick of `keys`, with the encoder alive and snapshot `s`, keeps the
/// running sequence.
pub open spec fn all_in_sequence(v: ControllerView, keys: Seq<Seq<char>>, s: SnapshotView) -> bool
    decreases keys.len(),
{
    if keys.len() == 0 {
        true
    } else {
        &&& tick_decision(v, keys[0], true, s) == TickDecision::InSequence
        &&& all_in_sequence(tick_next(v, keys[0], true, s), keys.drop_first(), s)
    }
}

/// Once a sequence runs under the settings it was started with, ticking on
/// through clips of that sequence, with the encoder alive and no settings
/// change, never starts another encoder.
pub proof fn lemma_in_sequence_never_restarts(v: ControllerView, keys: Seq<Seq<char>>, s: SnapshotView)
    requires
        v.epsilon >= 0,
        snapshot_applied(v, s),
        forall|i: int| 0 <= i < keys.len() ==> v.sequence.contains(#[trigger] keys[i]),
    ensures
        all_in_sequence(v, keys, s),
    decreases keys.len(),
{
    if keys.len() > 0 {
        let next = tick_next(v, keys[0], true, s);
        assert(next.sequence == v.sequence);
        assert forall|i: int| 0 <= i < keys.drop_first().len() implies next.sequence.contains(
            #[trigger] keys.drop_first()[i],
        ) by {
            assert(keys.drop_first()[i] == keys[i + 1]);
        }
        lemma_in_sequence_never_restarts(next, keys.drop_first(), s);
    }
}

/// The clips of a new sequence: the due clip, then those of the next `cap`
/// clips that have a source path.
pub open spec fn sequence_of(clips: Seq<ClipRef>, index: int, cap: int) -> Seq<ClipRef> {
    let end = if index + 1 + cap <= clips.len() { index + 1 + cap } else { clips.len() as int };
    seq![clips[index]] + clips.subrange(index + 1, end).filter(|c: ClipRef| c.source@.len() > 0)
}

/// Builds the clip list of a new sequence starting at clip `index`.
pub fn build_sequence(clips: &Vec<ClipRef>, index: usize, cap: usize) -> (r: Vec<ClipRef>)
    requires
        index < clips.len(),
    ensures
        r@ == sequence_of(clips@, index as int, cap as int),
{
    let end: usize = if cap <= clips.len() - index - 1 { index + 1 + cap } else { clips.len() };
    let ghost pred = |c: ClipRef| c.source@.len() > 0;
    let mut r: Vec<ClipRef> = Vec::new();
    r.push(clips[index].duplicate());
    let mut i: usize = index + 1;
    proof {
        reveal(Seq::filter);
        assert(clips@.subrange(index + 1, i as int).filter(pred) =~= Seq::<ClipRef>::empty());
        assert(r@ =~= seq![clips@[index as int]] + clips@.subrange(index + 1, i as int).filter(pred));
    }
    while i < end
        invariant
            index < clips.len(),
            index + 1 <= i <= end <= clips.len(),
            end == (if index + 1 + cap <= clips.len() { index + 1 + cap } else { clips.len() as int }),
            pred == (|c: ClipRef| c.source@.len() > 0),
            r@ == seq![clips@[index as int]] + clips@.subrange(index + 1, i as int).filter(pred),
        decreases end - i,
    {
        let c = &clips[i];
        let keep = !c.source.as_str().is_empty();
        proof {
            let prev = clips@.subrange(index + 1, i as int);
            let next = clips@.subrange(index + 1, i + 1);
            assert(next.drop_last() =~= prev);
            assert(next.last() == clips@[i as int]);
            reveal(Seq::filter);
            assert(keep == pred(clips@[i as int]));
        }
        if keep {
            r.push(c.duplicate());
        }
        proof {
            let next = clips@.subrange(index + 1, i + 1);
            assert(r@ =~= seq![clips@[index as int]] + next.filter(pred));
        }
        i = i + 1;
    }
    r
}

/// The keys of the clips of a sequence, in order.
pub fn sequence_keys(clips: &Vec<ClipRef>) -> (r: Vec<String>)
    ensures
        r@.map_values(|s: String| s@) == clips@.map_values(|c: ClipRef| clip_key(c)),
{
    let mut r: Vec<String> = Vec::new();
    let mut i: usize = 0;
    while i < clips.len()
        invariant
            0 <= i <= clips.len(),
            r@.len() == i,
            r@.map_values(|s: String| s@) == clips@.subrange(0, i as int).map_values(
                |c: ClipRef| clip_key(c),
            ),
        decreases clips.len() - i,
    {
        let ghost before = r@;
        let k = clips[i].key();
        r.push(k);
        proof {
            let a = r@.map_values(|s: String| s@);
            let b = clips@.subrange(0, i + 1).map_values(|c: ClipRef| clip_key(c));
            assert forall|k: int| 0 <= k < a.len() implies a[k] == b[k] by {
                if k < i {
                    assert(r@[k] == before[k]);
                    assert(clips@.subrange(0, i + 1)[k] == clips@.subrange(0, i as int)[k]);
                    assert(before.map_values(|s: String| s@)[k] == clips@.subrange(
                        0,
                        i as int,
                    ).map_values(|c: ClipRef| clip_key(c))[k]);
                } else {
                    assert(clips@.subrange(0, i + 1)[k] == clips@[k]);
                }
            }
            assert(a =~= b);
        }
        i = i + 1;
    }
    proof {
        assert(clips@.subrange(0, clips@.len() as int) =~= clips@);
    }
    r
}

/// The concat list that makes the encoder play `clips` back to back: one
/// `file '<path>'` line per clip.
pub open spec fn concat_list(clips: Seq<ClipRef>) -> Seq<char>
    decreases clips.len(),
{
    if clips.len() == 0 {
        Seq::empty()
    } else {
        concat_list(clips.drop_last()) + "file '"@ + clips.last().source@ + "'\n"@
    }
}

/// Writes the concat list of a sequence.
pub fn concat_list_text(clips: &Vec<ClipRef>) -> (r: String)
    ensures
        r@ == concat_list(clips@),
{
    let mut r = String::new();
    let mut i: usize = 0;
    while i < clips.len()
        invariant
            0 <= i <= clips.len(),
            r@ == concat_list(clips@.subrange(0, i as int)),
        decreases clips.len() - i,
    {
        r.append("file '");
        r.append(clips[i].source.as_str());
        r.append("'\n");
        proof {
            let next = clips@.subrange(0, i + 1);
            assert(next.drop_last() =~= clips@.subrange(0, i as int));
            assert(next.last() == clips@[i as int]);
        }
        i = i + 1;
    }
    assert(clips@.subrange(0, clips@.len() as int) =~= clips@);
    r
}

fn contains_key(keys: &Vec<String>, key: &String) -> (r: bool)
    ensures
        r == keys@.map_values(|s: String| s@).contains(key@),
{
    let ghost view = keys@.map_values(|s: String| s@);
    let mut i: usize = 0;
    while i < keys.len()
        invariant
            0 <= i <= keys.len(),
            view == keys@.map_values(|s: String| s@),
            forall|k: int| 0 <= k < i ==> view[k] != key@,
        decreases keys.len() - i,
    {
        if keys[i] == *key {
            assert(view[i as int] == key@);
            return true;
        }
        i = i + 1;
    }
    false
}

fn abs_diff_exec(a: i32, b: i32) -> (r: i64)
    ensures
        r as int == abs_diff(a as int, b as int),
{
    if a >= b {
        a as i64 - b as i64
    } else {
        b as i64 - a as i64
    }
}

impl OutputSnapshot {
    pub fn duplicate(&self) -> (r: OutputSnapshot)
        ensures
            r@ == self@,
    {
        OutputSnapshot {
            output_url: self.output_url.clone(),
            resolution: self.resolution.clone(),
            video_bitrate: self.video_bitrate.clone(),
            audio_bitrate: self.audio_bitrate.clone(),
            overlay_enabled: self.overlay_enabled,
            overlay_opacity_milli: self.overlay_opacity_milli,
            overlay_scale_milli: self.overlay_scale_milli,
        }
    }
}

impl PlayoutController {
    /// A stopped controller with no sequence, the default output settings
    /// as applied, and the given overlay epsilon.
    pub fn new(overlay_epsilon_milli: u32) -> (r: PlayoutController)
        ensures
            r@.phase == Phase::Stopped,
            r@.sequence.len() == 0,
            r@.current is None,
            r@.clips_played == 0,
            r@.opacity == 1000,
            r@.scale == 1000,
            r@.url.len() == 0,
            r@.epsilon == overlay_epsilon_milli,
    {
        let r = PlayoutController {
            phase: Phase::Stopped,
            running_sequence: Vec::new(),
            current_clip: None,
            clips_played: 0,
            applied_output_url: String::new(),
            applied_resolution: String::from_str("1920x1080"),
            applied_video_bitrate: String::from_str("5000k"),
            applied_audio_bitrate: String::from_str("192k"),
            applied_opacity_milli: 1000,
            applied_scale_milli: 1000,
            overlay_epsilon_milli,
        };
        assert(r@.sequence =~= Seq::<Seq<char>>::empty());
        r
    }

    /// One tick with a resolved cursor on clip `key`: records the settings
    /// if they changed, and decides whether the running encoder (alive or
    /// not, as `alive` says) still covers the clip. In sequence, a change of
    /// clip counts one clip played.
    pub fn on_tick(&mut self, key: &String, alive: bool, snap: &OutputSnapshot) -> (r: TickDecision)
        ensures
            r == tick_decision(old(self)@, key@, alive, snap@),
            final(self)@ == tick_next(old(self)@, key@, alive, snap@),
    {
        let ghost v = self@;
        let overlay = snap.overlay_enabled && (abs_diff_exec(
            snap.overlay_opacity_milli,
            self.applied_opacity_milli,
        ) > self.overlay_epsilon_milli as i64 || abs_diff_exec(
            snap.overlay_scale_milli,
            self.applied_scale_milli,
        ) > self.overlay_epsilon_milli as i64);
        let output = snap.output_url != self.applied_output_url || snap.resolution
            != self.applied_resolution || snap.video_bitrate != self.applied_video_bitrate
            || snap.audio_bitrate != self.applied_audio_bitrate;
        assert(overlay == overlay_changed(v, snap@));
        assert(output == output_changed(v, snap@));
        let in_sequence = alive && !overlay && !output && contains_key(&self.running_sequence, key);
        if overlay || output {
            self.applied_output_url = snap.output_url.clone();
            self.applied_resolution = snap.resolution.clone();
            self.applied_video_bitrate = snap.video_bitrate.clone();
            self.applied_audio_bitrate = snap.audio_bitrate.clone();
            self.applied_opacity_milli = snap.overlay_opacity_milli;
            self.applied_scale_milli = snap.overlay_scale_milli;
        }
        self.phase = Phase::Playing;
        if in_sequence {
            let changed = match &self.current_clip {
                Some(c) => *c != *key,
                None => true,
            };
            if changed {
                if self.clips_played < u64::MAX {
                    self.clips_played = self.clips_played + 1;
                }
                self.current_clip = Some(key.clone());
            }
            TickDecision::InSequence
        } else {
            TickDecision::Restart
        }
    }

    /// A new encoder was started with the clips whose keys are `sequence`,
    /// beginning at clip `key`.
    pub fn on_started(&mut self, sequence: Vec<String>, key: String)
        ensures
            final(self)@ == (ControllerView {
                sequence: sequence@.map_values(|s: String| s@),
                current: Some(key@),
                ..old(self)@
            }),
    {
        self.running_sequence = sequence;
        self.current_clip = Some(key);
    }

    /// No schedule applies, or the playlist has ended: the engine idles with
    /// no current clip, and the encoder is to be stopped.
    pub fn on_idle(&mut self)
        ensures
            final(self)@ == (ControllerView { phase: Phase::Idle, current: None, ..old(self)@ }),
    {
        self.phase = Phase::Idle;
        self.current_clip = None;
    }

    /// The engine was switched off: it reports stopped, with no current clip.
    pub fn on_stopped(&mut self)
        ensures
            final(self)@ == (ControllerView { phase: Phase::Stopped, current: None, ..old(self)@ }),
    {
        self.phase = Phase::Stopped;
        self.current_clip = None;
    }
}

} // verus!
