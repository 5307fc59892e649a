//! Distribution manager: one relay per enabled protocol, each copying the
//! master feed to its destination, restarted after a failure only once a
//! cooldown has passed.
use vstd::prelude::*;
use crate::settings::EngineSettings;
use crate::text::text_eq;

verus! {

/// The protocols that get a relay of their own.
#[derive(Clone, Copy, Debug, PartialEq, Eq, Structural)]
pub enum Protocol {
    Rtmp,
    Srt,
    Udp,
}

/// What a non-blocking poll of a supervised relay process reported.
#[derive(Clone, Copy, Debug, PartialEq, Eq, Structural)]
pub enum ProcessPoll {
    Running,
    Exited,
    /// The poll itself failed.
    Unknown,
}

/// Supervision state of one protocol's relay.
pub struct RelaySlot {
    /// A relay process is supervised for this protocol.
    pub supervised: bool,
    /// Destination the supervised relay was started with.
    pub last_url: Option<String>,
    /// When, in milliseconds, the relay last failed; starts a cooldown.
    pub last_failure_ms: Option<u64>,
}

pub struct SlotView {
    pub supervised: bool,
    pub last_url: Option<Seq<char>>,
    pub last_failure: Option<int>,
}

impl View for RelaySlot {
    type V = SlotView;

    open spec fn view(&self) -> SlotView {
        SlotView {
            supervised: self.supervised,
            last_url: match self.last_url {
                Some(u) => Some(u@),
                None => None,
            },
            last_failure: match self.last_failure_ms {
                Some(t) => Some(t as int),
                None => None,
            },
        }
    }
}

/// What the supervisor must do for one relay on this tick.
pub struct RelayPlan {
    /// Kill the supervised relay process and forget it.
    pub kill: bool,
    /// Start a relay to `url`, then report how that went.
    pub spawn: bool,
    pub url: String,
}

#[derive(Clone, Copy, Debug, PartialEq, Eq, Structural)]
pub struct PlanView {
    pub kill: bool,
    pub spawn: bool,
}

/// Readiness of the master feed decides whether relays are managed.
#[derive(Clone, Copy, Debug, PartialEq, Eq, Structural)]
pub enum FeedGate {
    /// The feed is ready: manage the relays.
    Proceed,
    /// The feed is not ready, within the grace window: do nothing this tick.
    Wait,
    /// The feed stayed unready past the grace window: every relay is torn
    /// down.
    TearDown,
}

/// Time since `since`, never negative.
pub open spec fn elapsed(now: int, since: int) -> int {
    if now >= since { now - since } else { 0 }
}

/// The relay failed less than `cooldown` ago.
pub open spec fn cooling(s: SlotView, now: int, cooldown: int) -> bool {
    s.last_failure is Some && elapsed(now, s.last_failure.unwrap()) < cooldown
}

/// The slot after polling its process: an exited relay is forgotten and
/// starts a cooldown; one that cannot be polled is forgotten.
pub open spec fn after_poll(s: SlotView, poll: ProcessPoll, now: int) -> SlotView {
    if s.supervised && poll == ProcessPoll::Exited {
        SlotView { supervised: false, last_url: None, last_failure: Some(now) }
    } else if s.supervised && poll == ProcessPoll::Unknown {
        SlotView { supervised: false, last_url: None, ..s }
    } else {
        s
    }
}

/// The destination differs from the one the relay was last started with.
pub open spec fn url_changed(s: SlotView, url: Seq<char>) -> bool {
    s.last_url is Some && s.last_url.unwrap() != url
}

/// One reconciliation of a relay: the next state of its slot.
pub open spec fn relay_next(
    s: SlotView,
    enabled: bool,
    url: Seq<char>,
    poll: ProcessPoll,
    now: int,
    cooldown: int,
) -> SlotView {
    let running = s.supervised && poll == ProcessPoll::Running;
    let s1 = after_poll(s, poll, now);
    let restart = enabled && url_changed(s1, url) && running;
    let s2 = if restart { SlotView { supervised: false, last_url: None, ..s1 } } else { s1 };
    if !enabled && running {
        SlotView { supervised: false, ..s2 }
    } else {
        s2
    }
}

/// One reconciliation of a relay: what to kill and whether to start one.
pub open spec fn relay_plan(
    s: SlotView,
    enabled: bool,
    url: Seq<char>,
    poll: ProcessPoll,
    now: int,
    cooldown: int,
) -> PlanView {
    let running = s.supervised && poll == ProcessPoll::Running;
    let s1 = after_poll(s, poll, now);
    let restart = enabled && url_changed(s1, url) && running;
    let s2 = if restart { SlotView { supervised: false, last_url: None, ..s1 } } else { s1 };
    PlanView {
        kill: restart || (!enabled && running),
        spawn: enabled && !s2.supervised && !cooling(s2, now, cooldown),
    }
}

/// A character with Unicode's `White_Space` property.
pub open spec fn is_white_space(c: char) -> bool {
    let u = c as u32;
    (0x9 <= u <= 0xD) || u == 0x20 || u == 0x85 || u == 0xA0 || u == 0x1680 || (0x2000 <= u
        <= 0x200A) || u == 0x2028 || u == 0x2029 || u == 0x202F || u == 0x205F || u == 0x3000
}

/// Number of white-space characters at the start of `s`.
pub open spec fn leading_space(s: Seq<char>) -> int
    decreases s.len(),
{
    if s.len() == 0 || !is_white_space(s[0]) {
        0
    } else {
        1 + leading_space(s.drop_first())
    }
}

/// Number of white-space characters at the end of `s`.
pub open spec fn trailing_space(s: Seq<char>) -> int
    decreases s.len(),
{
    if s.len() == 0 || !is_white_space(s.last()) {
        0
    } else {
        1 + trailing_space(s.drop_last())
    }
}

/// `s` without its leading and trailing white space.
pub open spec fn trimmed(s: Seq<char>) -> Seq<char> {
    if leading_space(s) >= s.len() {
        Seq::empty()
    } else {
        s.subrange(leading_space(s), s.len() - trailing_space(s))
    }
}

/// Relies on `str::trim`: the slice with leading and trailing white space
/// (Unicode's `White_Space`) removed.
#[verifier::external_body]
fn trim_text<'a>(s: &'a str) -> (r: &'a str)
    ensures
        r@ == trimmed(s@),
{
    s.trim()
}

fn elapsed_exec(now: u64, since: u64) -> (r: u64)
    ensures
        r as int == elapsed(now as int, since as int),
{
    if now >= since {
        now - since
    } else {
        0
    }
}

fn same_url(last: &Option<String>, url: &str) -> (r: bool)
    ensures
        r == (last matches Some(u) && u@ == url@),
{
    match last {
        Some(u) => text_eq(u.as_str(), url),
        None => false,
    }
}

impl RelaySlot {
    /// A slot with no relay, no destination and no failure.
    pub fn new() -> (r: RelaySlot)
        ensures
            r@ == (SlotView { supervised: false, last_url: None, last_failure: None }),
    {
        RelaySlot { supervised: false, last_url: None, last_failure_ms: None }
    }

    /// Reconciles the relay with its settings: `enabled`, destination
    /// `url`, and `poll`, what polling the supervised process reported (ignored
    /// when none is supervised), at `now_ms`.
    pub fn reconcile(
        &mut self,
        enabled: bool,
        url: &str,
        poll: ProcessPoll,
        now_ms: u64,
        cooldown_ms: u64,
    ) -> (r: RelayPlan)
        ensures
            final(self)@ == relay_next(old(self)@, enabled, url@, poll, now_ms as int, cooldown_ms as int),
            (PlanView { kill: r.kill, spawn: r.spawn }) == relay_plan(
                old(self)@,
                enabled,
                url@,
                poll,
                now_ms as int,
                cooldown_ms as int,
            ),
            r.url@ == url@,
    {
        let running = self.supervised && poll == ProcessPoll::Running;
        if self.supervised && poll == ProcessPoll::Exited {
            self.supervised = false;
            self.last_url = None;
            self.last_failure_ms = Some(now_ms);
        } else if self.supervised && poll == ProcessPoll::Unknown {
            self.supervised = false;
            self.last_url = None;
        }
        let changed = self.last_url.is_some() && !same_url(&self.last_url, url);
        let restart = enabled && changed && running;
        if restart {
            self.supervised = false;
            self.last_url = None;
        }
        let stop = !enabled && running;
        if stop {
            self.supervised = false;
        }
        let cool = match self.last_failure_ms {
            Some(t) => elapsed_exec(now_ms, t) < cooldown_ms,
            None => false,
        };
        let spawn = enabled && !self.supervised && !cool;
        RelayPlan { kill: restart || stop, spawn, url: String::from_str(url) }
    }

    /// The relay asked for was started with destination `url`: it is
    /// supervised and its cooldown cleared.
    pub fn spawn_succeeded(&mut self, url: String)
        ensures
            final(self)@ == (SlotView { supervised: true, last_url: Some(url@), last_failure: None }),
    {
        self.supervised = true;
        self.last_url = Some(url);
        self.last_failure_ms = None;
    }

    /// Starting the relay failed at `now_ms`: a cooldown begins.
    pub fn spawn_failed(&mut self, now_ms: u64)
        ensures
            final(self)@ == (SlotView { last_failure: Some(now_ms as int), ..old(self)@ }),
    {
        self.last_failure_ms = Some(now_ms);
    }

    /// The protocol was switched off: a supervised relay is killed at once,
    /// whatever its cooldown. Returns whether there was one to kill.
    pub fn switch_off(&mut self) -> (kill: bool)
        ensures
            kill == old(self)@.supervised,
            final(self)@ == (SlotView { supervised: false, ..old(self)@ }),
    {
        let kill = self.supervised;
        self.supervised = false;
        kill
    }

    /// The relay is torn down and its destination forgotten. Returns whether
    /// a process was supervised.
    pub fn tear_down(&mut self) -> (kill: bool)
        ensures
            kill == old(self)@.supervised,
            final(self)@ == (SlotView { supervised: false, last_url: None, ..old(self)@ }),
    {
        let kill = self.supervised;
        self.supervised = false;
        self.last_url = None;
        kill
    }
}

/// Switching a protocol off while its relay runs kills the relay on that
/// tick, whatever the cooldown says.
pub proof fn lemma_disable_kills(s: SlotView, url: Seq<char>, now: int, cooldown: int)
    requires
        s.supervised,
    ensures
        relay_plan(s, false, url, ProcessPoll::Running, now, cooldown).kill,
        !relay_next(s, false, url, ProcessPoll::Running, now, cooldown).supervised,
        !relay_plan(s, false, url, ProcessPoll::Running, now, cooldown).spawn,
{
}

/// Switching a protocol back on with its old destination, before any
/// failure, starts exactly one relay: one start on the first tick, and none
/// on a later tick while it runs.
pub proof fn lemma_enable_starts_once(s: SlotView, url: Seq<char>, poll: ProcessPoll, now: int, later: int, cooldown: int)
    requires
        !s.supervised,
        s.last_failure is None,
        s.last_url is None || s.last_url == Some(url),
    ensures
        relay_plan(s, true, url, poll, now, cooldown).spawn,
        !relay_plan(s, true, url, poll, now, cooldown).kill,
        ({
            let started = SlotView { supervised: true, last_url: Some(url), last_failure: None };
            &&& !relay_plan(started, true, url, ProcessPoll::Running, later, cooldown).spawn
            &&& !relay_plan(started, true, url, ProcessPoll::Running, later, cooldown).kill
            &&& relay_next(started, true, url, ProcessPoll::Running, later, cooldown) == started
        }),
{
}

/// Within the cooldown after a failure no relay is started, however often
/// the reconciliation runs.
pub proof fn lemma_cooldown_blocks_spawn(s: SlotView, url: Seq<char>, poll: ProcessPoll, now: int, cooldown: int)
    requires
        s.last_failure is Some,
        s.last_failure.unwrap() <= now < s.last_failure.unwrap() + cooldown,
    ensures
        !relay_plan(s, true, url, poll, now, cooldown).spawn,
        relay_next(s, true, url, poll, now, cooldown).last_failure == s.last_failure
            || relay_next(s, true, url, poll, now, cooldown).last_failure == Some(now),
{
}

/// The slot after reconciling it once per step, each step giving the poll
/// result and the time, while nothing is started.
pub open spec fn relay_run(s: SlotView, enabled: bool, url: Seq<char>, steps: Seq<(ProcessPoll, int)>, cooldown: int) -> SlotView
    decreases steps.len(),
{
    if steps.len() == 0 {
        s
    } else {
        relay_run(
            relay_next(s, enabled, url, steps[0].0, steps[0].1, cooldown),
            enabled,
            url,
            steps.drop_first(),
            cooldown,
        )
    }
}

/// Some step of the run asks for a relay to be started.
pub open spec fn run_spawns(s: SlotView, enabled: bool, url: Seq<char>, steps: Seq<(ProcessPoll, int)>, cooldown: int) -> bool
    decreases steps.len(),
{
    if steps.len() == 0 {
        false
    } else {
        relay_plan(s, enabled, url, steps[0].0, steps[0].1, cooldown).spawn || run_spawns(
            relay_next(s, enabled, url, steps[0].0, steps[0].1, cooldown),
            enabled,
            url,
            steps.drop_first(),
            cooldown,
        )
    }
}

/// After a relay failed at `t0`, however often it is reconciled before the
/// cooldown has passed, no start is attempted.
pub proof fn lemma_no_spawn_within_cooldown(
    s: SlotView,
    enabled: bool,
    url: Seq<char>,
    steps: Seq<(ProcessPoll, int)>,
    cooldown: int,
    t0: int,
)
    requires
        !s.supervised,
        s.last_failure == Some(t0),
        forall|i: int| 0 <= i < steps.len() ==> t0 <= (#[trigger] steps[i]).1 < t0 + cooldown,
    ensures
        !run_spawns(s, enabled, url, steps, cooldown),
        relay_run(s, enabled, url, steps, cooldown) == s,
    decreases steps.len(),
{
    if steps.len() > 0 {
        assert(t0 <= steps[0].1 < t0 + cooldown);
        let rest = steps.drop_first();
        assert forall|i: int| 0 <= i < rest.len() implies t0 <= (#[trigger] rest[i]).1 < t0 + cooldown by {
            assert(rest[i] == steps[i + 1]);
        }
        lemma_no_spawn_within_cooldown(s, enabled, url, rest, cooldown, t0);
    }
}

/// Supervision of the three relays and of the master feed's readiness.
pub struct Distribution {
    pub rtmp: RelaySlot,
    pub srt: RelaySlot,
    pub udp: RelaySlot,
    /// Consecutive ticks on which the master feed was not ready.
    pub inactive_ticks: u32,
    /// Unready ticks tolerated before the relays are torn down.
    pub grace_ticks: u32,
    pub cooldown_ms: u64,
}

/// The relay settings of one protocol: whether it is enabled, and its
/// destination (empty when it has none).
pub open spec fn relay_target(st: EngineSettings, p: Protocol) -> (bool, Seq<char>) {
    let primary = match p {
        Protocol::Rtmp => st.output_type@ == "rtmp"@,
        Protocol::Srt => st.output_type@ == "srt"@,
        Protocol::Udp => st.output_type@ == "udp"@,
    };
    let toggle = match p {
        Protocol::Rtmp => st.rtmp_enabled,
        Protocol::Srt => st.srt_enabled,
        Protocol::Udp => st.udp_enabled,
    };
    let own = match p {
        Protocol::Rtmp => st.rtmp_output_url,
        Protocol::Srt => st.srt_output_url,
        Protocol::Udp => st.udp_output_url,
    };
    // The UDP destination is taken whether or not its toggle is on.
    let use_own = (toggle || p == Protocol::Udp) && own is Some && own.unwrap()@.len() > 0;
    let url = if use_own {
        own.unwrap()@
    } else if primary {
        st.output_url@
    } else {
        Seq::empty()
    };
    (toggle || (primary && st.auto_start_protocols), url)
}

/// The enabled flag and destination of protocol `p` under `st`.
pub fn relay_target_of(st: &EngineSettings, p: Protocol) -> (r: (bool, String))
    ensures
        r.0 == relay_target(*st, p).0,
        r.1@ == relay_target(*st, p).1,
{
    let (primary, toggle, own) = match p {
        Protocol::Rtmp => (text_eq(st.output_type.as_str(), "rtmp"), st.rtmp_enabled, &st.rtmp_output_url),
        Protocol::Srt => (text_eq(st.output_type.as_str(), "srt"), st.srt_enabled, &st.srt_output_url),
        Protocol::Udp => (text_eq(st.output_type.as_str(), "udp"), st.udp_enabled, &st.udp_output_url),
    };
    let use_own = (toggle || p == Protocol::Udp) && match own {
        Some(u) => !u.as_str().is_empty(),
        None => false,
    };
    let url = if use_own {
        match own {
            Some(u) => u.clone(),
            None => String::new(),
        }
    } else if primary {
        st.output_url.clone()
    } else {
        String::new()
    };
    (toggle || (primary && st.auto_start_protocols), url)
}

/// The master feed was not ready on `count` ticks in a row (counting this
/// one): wait within the grace window, tear down past it.
pub open spec fn gate_for(active: bool, count: int, grace: int) -> FeedGate {
    if active {
        FeedGate::Proceed
    } else if count < grace {
        FeedGate::Wait
    } else {
        FeedGate::TearDown
    }
}

impl Distribution {
    /// No relays, a 5 s cooldown and a grace window of 10 ticks.
    pub fn new() -> (r: Distribution)
        ensures
            !r.rtmp@.supervised && !r.srt@.supervised && !r.udp@.supervised,
            r.rtmp@.last_failure is None && r.srt@.last_failure is None && r.udp@.last_failure is None,
            r.inactive_ticks == 0,
            r.grace_ticks == 10,
            r.cooldown_ms == 5000,
    {
        Distribution {
            rtmp: RelaySlot::new(),
            srt: RelaySlot::new(),
            udp: RelaySlot::new(),
            inactive_ticks: 0,
            grace_ticks: 10,
            cooldown_ms: 5000,
        }
    }

    /// The view of protocol `p`'s slot.
    pub open spec fn slot_view(&self, p: Protocol) -> SlotView {
        match p {
            Protocol::Rtmp => self.rtmp@,
            Protocol::Srt => self.srt@,
            Protocol::Udp => self.udp@,
        }
    }

    /// Records whether the master feed is ready and says what to do with the
    /// relays this tick. On `TearDown` every slot is emptied: each supervised
    /// relay must be killed.
    pub fn observe_feed(&mut self, active: bool) -> (r: FeedGate)
        ensures
            final(self).inactive_ticks == (if active {
                0
            } else if old(self).inactive_ticks < u32::MAX {
                old(self).inactive_ticks + 1
            } else {
                old(self).inactive_ticks as int
            }),
            r == gate_for(active, final(self).inactive_ticks as int, old(self).grace_ticks as int),
            final(self).grace_ticks == old(self).grace_ticks,
            final(self).cooldown_ms == old(self).cooldown_ms,
            r == FeedGate::TearDown ==> {
                &&& final(self).rtmp@ == (SlotView { supervised: false, last_url: None, ..old(self).rtmp@ })
                &&& final(self).srt@ == (SlotView { supervised: false, last_url: None, ..old(self).srt@ })
                &&& final(self).udp@ == (SlotView { supervised: false, last_url: None, ..old(self).udp@ })
            },
            r != FeedGate::TearDown ==> {
                &&& final(self).rtmp@ == old(self).rtmp@
                &&& final(self).srt@ == old(self).srt@
                &&& final(self).udp@ == old(self).udp@
            },
    {
        if active {
            self.inactive_ticks = 0;
            return FeedGate::Proceed;
        }
        if self.inactive_ticks < u32::MAX {
            self.inactive_ticks = self.inactive_ticks + 1;
        }
        if self.inactive_ticks < self.grace_ticks {
            FeedGate::Wait
        } else {
            self.rtmp.tear_down();
            self.srt.tear_down();
            self.udp.tear_down();
            FeedGate::TearDown
        }
    }

    /// Reconciles protocol `p` with the settings, its destination trimmed of
    /// white space. A protocol without a destination has its relay torn
    /// down.
    pub fn reconcile(&mut self, p: Protocol, st: &EngineSettings, poll: ProcessPoll, now_ms: u64) -> (r: RelayPlan)
        ensures
            ({
                let (enabled, url) = relay_target(*st, p);
                let before = old(self).slot_view(p);
                let after = final(self).slot_view(p);
                if url.len() > 0 {
                    &&& after == relay_next(before, enabled, trimmed(url), poll, now_ms as int, old(self).cooldown_ms as int)
                    &&& (PlanView { kill: r.kill, spawn: r.spawn }) == relay_plan(
                        before,
                        enabled,
                        trimmed(url),
                        poll,
                        now_ms as int,
                        old(self).cooldown_ms as int,
                    )
                    &&& r.url@ == trimmed(url)
                } else {
                    &&& after == (SlotView { supervised: false, last_url: None, ..before })
                    &&& r.kill == before.supervised
                    &&& !r.spawn
                }
            }),
            final(self).cooldown_ms == old(self).cooldown_ms,
            final(self).grace_ticks == old(self).grace_ticks,
            final(self).inactive_ticks == old(self).inactive_ticks,
            p != Protocol::Rtmp ==> final(self).rtmp@ == old(self).rtmp@,
            p != Protocol::Srt ==> final(self).srt@ == old(self).srt@,
            p != Protocol::Udp ==> final(self).udp@ == old(self).udp@,
    {
        let (enabled, url) = relay_target_of(st, p);
        let cooldown = self.cooldown_ms;
        let slot = match p {
            Protocol::Rtmp => &mut self.rtmp,
            Protocol::Srt => &mut self.srt,
            Protocol::Udp => &mut self.udp,
        };
        if url.as_str().is_empty() {
            let kill = slot.tear_down();
            RelayPlan { kill, spawn: false, url }
        } else {
            slot.reconcile(enabled, trim_text(url.as_str()), poll, now_ms, cooldown)
        }
    }

    /// Switches protocol `p` off: its relay, if supervised, must be killed now.
    pub fn switch_off(&mut self, p: Protocol) -> (kill: bool)
        ensures
            kill == old(self).slot_view(p).supervised,
            final(self).slot_view(p) == (SlotView { supervised: false, ..old(self).slot_view(p) }),
            final(self).inactive_ticks == old(self).inactive_ticks,
            final(self).grace_ticks == old(self).grace_ticks,
            final(self).cooldown_ms == old(self).cooldown_ms,
            p != Protocol::Rtmp ==> final(self).rtmp@ == old(self).rtmp@,
            p != Protocol::Srt ==> final(self).srt@ == old(self).srt@,
            p != Protocol::Udp ==> final(self).udp@ == old(self).udp@,
    {
        match p {
            Protocol::Rtmp => self.rtmp.switch_off(),
            Protocol::Srt => self.srt.switch_off(),
            Protocol::Udp => self.udp.switch_off(),
        }
    }
}

} // verus!
