//! The playout engine's own state and its per-tick decisions: the running
//! flag, the log ring, pending skips, protocol toggles, and what to play.
use vstd::prelude::*;
use crate::controller::{
    PlayoutController, OutputSnapshot, TickDecision, Phase, ControllerView, tick_decision,
    tick_next, sequence_of, build_sequence,
};
use crate::cursor::{
    ClipRef, Cursor, locate, upcoming, covers, durations, prefix_total, total, clip_key,
};
use crate::distribution::{Distribution, FeedGate, Protocol, SlotView, gate_for};
use crate::text::{text_eq, text_concat};

verus! {

/// Messages kept in the log ring.
pub const LOG_CAPACITY: usize = 20;

/// What the supervisor must do about the primary encoder on this tick.
#[derive(Clone, Copy, Debug, PartialEq, Eq, Structural)]
pub enum PlayAction {
    /// The schedule entry has not begun yet: nothing changes.
    NotStarted,
    /// The playlist has ended: stop the encoder and idle.
    Idle,
    /// The running encoder covers the due clip.
    Continue,
    /// Kill the running encoder and start `sequence` at the cursor's offset.
    Restart,
}

pub struct PlayPlan {
    pub action: PlayAction,
    pub cursor: Option<Cursor>,
    /// Key of the clip that is due.
    pub clip_key: String,
    /// The look-ahead queue shown in the status.
    pub upcoming: Vec<ClipRef>,
    /// The clips of the new sequence, on a restart.
    pub sequence: Vec<ClipRef>,
}

/// What a protocol toggle names.
#[derive(Clone, Copy, Debug, PartialEq, Eq, Structural)]
pub enum ToggleTarget {
    Relay(Protocol),
    /// The HLS preview, which has no relay of its own.
    Hls,
}

pub open spec fn toggle_target(name: Seq<char>) -> Option<ToggleTarget> {
    if name == "rtmp"@ {
        Some(ToggleTarget::Relay(Protocol::Rtmp))
    } else if name == "srt"@ {
        Some(ToggleTarget::Relay(Protocol::Srt))
    } else if name == "udp"@ {
        Some(ToggleTarget::Relay(Protocol::Udp))
    } else if name == "hls"@ {
        Some(ToggleTarget::Hls)
    } else {
        None
    }
}

/// The protocol named by a toggle request.
pub fn parse_toggle_target(name: &str) -> (r: Option<ToggleTarget>)
    ensures
        r == toggle_target(name@),
{
    if text_eq(name, "rtmp") {
        Some(ToggleTarget::Relay(Protocol::Rtmp))
    } else if text_eq(name, "srt") {
        Some(ToggleTarget::Relay(Protocol::Srt))
    } else if text_eq(name, "udp") {
        Some(ToggleTarget::Relay(Protocol::Udp))
    } else if text_eq(name, "hls") {
        Some(ToggleTarget::Hls)
    } else {
        None
    }
}

/// The time left in the current clip, by which a skip moves the schedule
/// entry's start back; `None` when nothing is left.
pub fn skip_remaining(duration_ms: u64, offset_ms: u64) -> (r: Option<u64>)
    ensures
        duration_ms > offset_ms ==> r == Some((duration_ms - offset_ms) as u64),
        duration_ms <= offset_ms ==> r is None,
{
    if duration_ms > offset_ms {
        Some(duration_ms - offset_ms)
    } else {
        None
    }
}

pub struct PlayoutEngine {
    pub controller: PlayoutController,
    pub distribution: Distribution,
    /// The engine is switched on.
    pub is_running: bool,
    pub skip_requested: bool,
    /// Recent log lines, oldest first.
    pub logs: Vec<String>,
    pub last_error: Option<String>,
    /// Clips after the due one that a new sequence takes at most.
    pub sequence_cap: usize,
    /// Clips after the due one shown in the status queue.
    pub queue_cap: usize,
}

impl PlayoutEngine {
    pub open spec fn wf(&self) -> bool {
        self.logs@.len() <= LOG_CAPACITY
    }

    /// A stopped engine with no relays and an empty log.
    pub fn new() -> (r: PlayoutEngine)
        ensures
            r.wf(),
            !r.is_running,
            !r.skip_requested,
            r.logs@.len() == 0,
            r.last_error is None,
            r.controller@.phase == Phase::Stopped,
            r.controller@.sequence.len() == 0,
            r.controller@.epsilon == 10,
            r.sequence_cap == 50,
            r.queue_cap == 5,
    {
        PlayoutEngine {
            controller: PlayoutController::new(10),
            distribution: Distribution::new(),
            is_running: false,
            skip_requested: false,
            logs: Vec::new(),
            last_error: None,
            sequence_cap: 50,
            queue_cap: 5,
        }
    }

    /// Appends a log line, dropping the oldest lines so that at most
    /// `LOG_CAPACITY` remain.
    pub fn add_log(&mut self, msg: String)
        ensures
            final(self).wf(),
            old(self).logs@.len() < LOG_CAPACITY ==> final(self).logs@ == old(self).logs@.push(msg),
            old(self).logs@.len() >= LOG_CAPACITY ==> final(self).logs@ == old(self).logs@.subrange(
                old(self).logs@.len() - (LOG_CAPACITY - 1),
                old(self).logs@.len() as int,
            ).push(msg),
            final(self).is_running == old(self).is_running,
            final(self).controller@ == old(self).controller@,
    {
        let ghost start = self.logs@;
        let ghost n = start.len();
        while self.logs.len() >= LOG_CAPACITY
            invariant
                n == start.len(),
                self.logs@.len() <= n,
                self.logs@ == start.subrange(n - self.logs@.len(), n as int),
                n < LOG_CAPACITY ==> self.logs@ == start,
                n >= LOG_CAPACITY ==> self.logs@.len() >= LOG_CAPACITY - 1,
                self.is_running == old(self).is_running,
                self.controller@ == old(self).controller@,
            decreases self.logs@.len(),
        {
            let ghost before = self.logs@;
            self.logs.remove(0);
            assert(before.remove(0) =~= start.subrange(n - (before.len() - 1), n as int));
        }
        proof {
            if n < LOG_CAPACITY {
                assert(start.subrange(0, n as int) =~= start);
            }
        }
        self.logs.push(msg);
    }

    /// Asks for the current clip to be skipped on the next tick.
    pub fn skip_current_clip(&mut self)
        ensures
            final(self).skip_requested,
            final(self).is_running == old(self).is_running,
            final(self).logs@ == old(self).logs@,
    {
        self.skip_requested = true;
    }

    /// Takes a pending skip request, if any.
    pub fn take_skip(&mut self) -> (r: bool)
        ensures
            r == old(self).skip_requested,
            !final(self).skip_requested,
            final(self).logs@ == old(self).logs@,
    {
        let r = self.skip_requested;
        self.skip_requested = false;
        r
    }

    /// A skip has moved the schedule entry's start back: the running
    /// sequence no longer counts as covering any clip, so the next tick
    /// starts a new one at the clip that is then due. The encoder itself is
    /// left to that restart.
    pub fn skip_applied(&mut self)
        ensures
            final(self).controller@ == (ControllerView {
                sequence: Seq::empty(),
                ..old(self).controller@
            }),
            final(self).is_running == old(self).is_running,
            final(self).logs == old(self).logs,
            final(self).distribution == old(self).distribution,
    {
        self.controller.running_sequence = Vec::new();
        assert(self.controller@.sequence =~= Seq::<Seq<char>>::empty());
    }

    pub fn get_running(&self) -> (r: bool)
        ensures
            r == self.is_running,
    {
        self.is_running
    }

    /// Switches the engine on or off. Off: it reports stopped, with no
    /// current clip, and the encoder is to be stopped. On: it reports
    /// playing, the last error is cleared and the log starts afresh with
    /// `banner`.
    pub fn set_running(&mut self, running: bool, banner: String)
        ensures
            old(self).wf() || running ==> final(self).wf(),
            final(self).is_running == running,
            !running ==> final(self).controller@ == (ControllerView {
                phase: Phase::Stopped,
                current: None,
                ..old(self).controller@
            }),
            !running ==> final(self).logs@ == old(self).logs@,
            running ==> final(self).controller@ == (ControllerView {
                phase: Phase::Playing,
                ..old(self).controller@
            }),
            running ==> final(self).last_error is None,
            running ==> final(self).logs@ == seq![banner],
    {
        self.is_running = running;
        if !running {
            self.controller.on_stopped();
        } else {
            self.controller.phase = Phase::Playing;
            self.last_error = None;
            self.logs = Vec::new();
            self.logs.push(banner);
            assert(self.logs@ =~= seq![banner]);
        }
    }

    /// Handles a protocol toggle: `Ok(true)` when a running relay must be
    /// killed right away; an unknown protocol is an error.
    pub fn toggle_protocol(&mut self, protocol: &str, enabled: bool) -> (r: Result<bool, String>)
        ensures
            toggle_target(protocol@) is None <==> r is Err,
            r matches Err(e) ==> e@ == "Unknown protocol: "@ + protocol@,
            toggle_target(protocol@) matches Some(ToggleTarget::Relay(p)) ==> {
                &&& r == Ok::<bool, String>(!enabled && old(self).distribution.slot_view(p).supervised)
                &&& !enabled ==> final(self).distribution.slot_view(p) == (SlotView {
                    supervised: false,
                    ..old(self).distribution.slot_view(p)
                })
                &&& enabled ==> final(self).distribution.slot_view(p) == old(self).distribution.slot_view(p)
            },
            toggle_target(protocol@) matches Some(ToggleTarget::Relay(p)) ==> {
                &&& forall|q: Protocol|
                    q != p ==> #[trigger] final(self).distribution.slot_view(q)
                        == old(self).distribution.slot_view(q)
                &&& final(self).distribution.inactive_ticks == old(self).distribution.inactive_ticks
                &&& final(self).distribution.grace_ticks == old(self).distribution.grace_ticks
                &&& final(self).distribution.cooldown_ms == old(self).distribution.cooldown_ms
            },
            toggle_target(protocol@) == Some(ToggleTarget::Hls) ==> r == Ok::<bool, String>(false),
            (toggle_target(protocol@) is None || toggle_target(protocol@) == Some(ToggleTarget::Hls)
                || enabled) ==> final(self).distribution == old(self).distribution,
            final(self).is_running == old(self).is_running,
            final(self).controller == old(self).controller,
            final(self).logs == old(self).logs,
            final(self).skip_requested == old(self).skip_requested,
            final(self).last_error == old(self).last_error,
    {
        match parse_toggle_target(protocol) {
            None => Err(text_concat("Unknown protocol: ", protocol)),
            Some(ToggleTarget::Hls) => Ok(false),
            Some(ToggleTarget::Relay(p)) => {
                if enabled {
                    Ok(false)
                } else {
                    Ok(self.distribution.switch_off(p))
                }
            },
        }
    }

    /// Records the master feed's readiness as the media server reported
    /// it; when the server could not be asked, the engine's own running flag
    /// stands in for it.
    pub fn feed_gate(&mut self, ready: Option<bool>) -> (r: FeedGate)
        ensures
            ({
                let active = match ready {
                    Some(b) => b,
                    None => old(self).is_running,
                };
                r == gate_for(
                    active,
                    final(self).distribution.inactive_ticks as int,
                    old(self).distribution.grace_ticks as int,
                )
            }),
            final(self).is_running == old(self).is_running,
            final(self).controller@ == old(self).controller@,
            final(self).logs@ == old(self).logs@,
    {
        let active = match ready {
            Some(b) => b,
            None => self.is_running,
        };
        self.distribution.observe_feed(active)
    }

    /// Decides what to play when the schedule entry that began at
    /// `start_ms` is authoritative at `now_ms` (milliseconds since
    /// midnight): the clip that is due, whether the running encoder (alive
    /// or not, as `alive` says) still covers it, and on a restart the new
    /// sequence.
    pub fn plan_playback(
        &mut self,
        clips: &Vec<ClipRef>,
        start_ms: u32,
        now_ms: u32,
        alive: bool,
        snap: &OutputSnapshot,
    ) -> (r: PlayPlan)
        ensures
            final(self).is_running == old(self).is_running,
            final(self).logs == old(self).logs,
            final(self).distribution == old(self).distribution,
            final(self).skip_requested == old(self).skip_requested,
            final(self).last_error == old(self).last_error,
            final(self).sequence_cap == old(self).sequence_cap,
            final(self).queue_cap == old(self).queue_cap,
            now_ms < start_ms ==> r.action == PlayAction::NotStarted && final(self).controller@
                == old(self).controller@,
            ({
                let e = now_ms - start_ms;
                let d = durations(clips@);
                &&& (now_ms >= start_ms && e >= total(d)) ==> {
                    &&& r.action == PlayAction::Idle
                    &&& final(self).controller@ == (ControllerView {
                        phase: Phase::Idle,
                        current: None,
                        ..old(self).controller@
                    })
                }
                &&& (now_ms >= start_ms && e < total(d)) ==> {
                    &&& r.cursor matches Some(c)
                    &&& covers(d, c.index as int, e)
                    &&& c.offset_ms == e - prefix_total(d, c.index as int)
                    &&& r.clip_key@ == clip_key(clips@[c.index as int])
                    &&& final(self).controller@ == tick_next(
                        old(self).controller@,
                        r.clip_key@,
                        alive,
                        snap@,
                    )
                    &&& (r.action == PlayAction::Continue <==> tick_decision(
                        old(self).controller@,
                        r.clip_key@,
                        alive,
                        snap@,
                    ) == TickDecision::InSequence)
                    &&& (r.action == PlayAction::Restart <==> tick_decision(
                        old(self).controller@,
                        r.clip_key@,
                        alive,
                        snap@,
                    ) == TickDecision::Restart)
                    &&& r.upcoming@ == clips@.subrange(
                        c.index + 1,
                        if c.index + 1 + old(self).queue_cap <= clips.len() {
                            c.index + 1 + old(self).queue_cap
                        } else {
                            clips.len() as int
                        },
                    )
                    &&& r.action == PlayAction::Restart ==> r.sequence@ == sequence_of(
                        clips@,
                        c.index as int,
                        old(self).sequence_cap as int,
                    )
                }
            }),
    {
        let empty = PlayPlan {
            action: PlayAction::NotStarted,
            cursor: None,
            clip_key: String::new(),
            upcoming: Vec::new(),
            sequence: Vec::new(),
        };
        if now_ms < start_ms {
            return empty;
        }
        let elapsed = (now_ms - start_ms) as u64;
        match locate(clips, elapsed) {
            Err(_) => {
                self.controller.on_idle();
                PlayPlan { action: PlayAction::Idle, ..empty }
            },
            Ok(c) => {
                let key = clips[c.index].key();
                let decision = self.controller.on_tick(&key, alive, snap);
                let queue = upcoming(clips, c.index, self.queue_cap);
                let (action, sequence) = match decision {
                    TickDecision::InSequence => (PlayAction::Continue, Vec::new()),
                    TickDecision::Restart => (
                        PlayAction::Restart,
                        build_sequence(clips, c.index, self.sequence_cap),
                    ),
                };
                PlayPlan { action, cursor: Some(c), clip_key: key, upcoming: queue, sequence }
            },
        }
    }
}

} // verus!
