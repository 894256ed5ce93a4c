//! The pause/resume state machine.
//!
//! The live state holds the paused flag, the anchor timestamp of the
//! currently open interval, and an append-only log of closed intervals.
//! Every operation takes the current wall-clock second as a plain argument:
//! the host reads the clock and drives the machine, the machine itself never
//! looks at the environment. Timestamps are seconds since the epoch.

use crate::color::Color;
use crate::color::WarnSettings;
use crate::color::spec_highlight_color;
use crate::format::format_elapsed;
use crate::format::format_text;
use crate::format::spec_format_elapsed;
use vstd::prelude::*;

verus! {

/// One closed interval: an active run or a pause, with its start and end
/// timestamps. Immutable once created, appended to the log, never removed.
#[derive(Clone, Copy, Debug, PartialEq, Eq, Structural)]
pub struct Session {
    /// Whether the interval was a pause (`true`) or an active run (`false`).
    pub is_pause: bool,
    pub start: u64,
    pub end: u64,
}

impl Session {
    /// A closed interval never ends before it starts.
    pub open spec fn wf(self) -> bool {
        self.end >= self.start
    }
}

/// Every session in the log is well-formed.
pub open spec fn sessions_wf(sessions: Seq<Session>) -> bool {
    forall|i: int| 0 <= i < sessions.len() ==> (#[trigger] sessions[i]).wf()
}

/// The number of pause intervals in the log.
pub open spec fn spec_pause_count(sessions: Seq<Session>) -> nat
    decreases sessions.len(),
{
    if sessions.len() == 0 {
        0
    } else {
        spec_pause_count(sessions.drop_last()) + if sessions.last().is_pause {
            1nat
        } else {
            0nat
        }
    }
}

/// The mathematical value of the live state.
pub ghost struct StateModel {
    pub paused: bool,
    pub anchor: u64,
    pub sessions: Seq<Session>,
}

impl StateModel {
    pub open spec fn wf(self) -> bool {
        sessions_wf(self.sessions)
    }
}

/// The end timestamp of the interval closed at `now`: clamped so that a
/// clock running backwards can never produce an interval that ends before
/// its anchor.
pub open spec fn closed_end(anchor: u64, now: u64) -> u64 {
    if now >= anchor {
        now
    } else {
        anchor
    }
}

/// What one toggle at `now` does: close the open interval, tagged with the
/// mode it ran in, append it to the log, restart the anchor when leaving the
/// paused mode, and flip the mode.
pub open spec fn spec_toggle(m: StateModel, now: u64) -> StateModel {
    StateModel {
        paused: !m.paused,
        anchor: if m.paused {
            now
        } else {
            m.anchor
        },
        sessions: m.sessions.push(
            Session { is_pause: m.paused, start: m.anchor, end: closed_end(m.anchor, now) },
        ),
    }
}

/// Seconds elapsed since the anchor, clamped to zero when the clock reports
/// a `now` earlier than the anchor.
pub open spec fn spec_elapsed(anchor: u64, now: u64) -> int {
    if now >= anchor {
        now - anchor
    } else {
        0
    }
}

/// The live state of the stopwatch.
#[derive(Clone, Debug)]
pub struct State {
    /// Whether the machine is in the paused mode.
    pub paused: bool,
    /// When the currently open interval began.
    pub anchor: u64,
    /// The closed intervals, in insertion order.
    pub sessions: Vec<Session>,
}

impl View for State {
    type V = StateModel;

    open spec fn view(&self) -> StateModel {
        StateModel { paused: self.paused, anchor: self.anchor, sessions: self.sessions@ }
    }
}

/// An event delivered to the state machine by the host.
#[derive(Clone, Copy, Debug, PartialEq, Eq, Structural)]
pub enum Message {
    /// The user asked to flip between running and paused.
    Toggle,
    /// The periodic timer fired: recompute the display, change nothing.
    Refresh,
}

impl State {
    /// A fresh machine: paused unless configured to start unpaused, the
    /// anchor at `now`, the log empty.
    pub fn new(start_unpaused: bool, now: u64) -> (r: State)
        ensures
            r@.paused == !start_unpaused,
            r@.anchor == now,
            r@.sessions == Seq::<Session>::empty(),
            r@.wf(),
    {
        let r = State { paused: !start_unpaused, anchor: now, sessions: Vec::new() };
        proof {
            assert(r@.sessions =~= Seq::<Session>::empty());
        }
        r
    }

    /// Close the open interval at `now`, append it to the log, restart the
    /// anchor when leaving the paused mode, and flip the mode.
    pub fn toggle_pause(&mut self, now: u64)
        requires
            old(self)@.wf(),
        ensures
            final(self)@ == spec_toggle(old(self)@, now),
            final(self)@.wf(),
    {
        let end = if now >= self.anchor {
            now
        } else {
            self.anchor
        };
        let session = Session { is_pause: self.paused, start: self.anchor, end };
        self.sessions.push(session);
        if self.paused {
            self.anchor = now;
        }
        self.paused = !self.paused;
    }

    /// Dispatch one event: a toggle mutates the state, a refresh leaves it
    /// untouched (the display is recomputed by the host from `tick`).
    pub fn update(&mut self, message: Message, now: u64)
        requires
            old(self)@.wf(),
        ensures
            message == Message::Toggle ==> final(self)@ == spec_toggle(old(self)@, now),
            message == Message::Refresh ==> final(self)@ == old(self)@,
            final(self)@.wf(),
    {
        if message == Message::Toggle {
            self.toggle_pause(now);
        }
    }

    /// Seconds elapsed since the anchor, clamped to zero when the clock
    /// runs backwards.
    pub fn elapsed_seconds(&self, now: u64) -> (r: u64)
        ensures
            r == spec_elapsed(self@.anchor, now),
    {
        if now >= self.anchor {
            now - self.anchor
        } else {
            0
        }
    }

    /// How many of the closed intervals were pauses.
    pub fn pause_count(&self) -> (n: usize)
        ensures
            n == spec_pause_count(self@.sessions),
    {
        let mut n: usize = 0;
        let mut i: usize = 0;
        while i < self.sessions.len()
            invariant
                i <= self.sessions.len(),
                n <= i,
                n == spec_pause_count(self.sessions@.take(i as int)),
            decreases self.sessions.len() - i,
        {
            proof {
                assert(self.sessions@.take(i + 1).drop_last() =~= self.sessions@.take(i as int));
                assert(self.sessions@.take(i + 1).last() == self.sessions@[i as int]);
            }
            if self.sessions[i].is_pause {
                n = n + 1;
            }
            i = i + 1;
        }
        proof {
            assert(self.sessions@.take(self.sessions@.len() as int) =~= self.sessions@);
        }
        n
    }

    /// One tick of display data: the label text, its color, and the pause
    /// count. While running the label shows the clamped elapsed time and
    /// the threshold color; while paused the running clock is suppressed in
    /// favor of a static indicator and the neutral color.
    pub fn tick(&self, now: u64, settings: &WarnSettings) -> (r: (String, Color, usize))
        ensures
            !self@.paused ==> r.0@ == spec_format_elapsed(spec_elapsed(self@.anchor, now), false),
            !self@.paused ==> r.1 == spec_highlight_color(
                spec_elapsed(self@.anchor, now),
                settings.warn_after as int,
                settings.danger_after as int,
            ),
            self@.paused ==> r.0@ == "paused"@,
            self@.paused ==> r.1 == Color::Neutral,
            r.2 == spec_pause_count(self@.sessions),
    {
        let count = self.pause_count();
        if self.paused {
            ("paused".to_owned(), Color::Neutral, count)
        } else {
            let elapsed = self.elapsed_seconds(now);
            let text = format_text(elapsed);
            let color = crate::color::highlight_color(elapsed, settings);
            (text, color, count)
        }
    }
}

/// How often the host should deliver a refresh, in milliseconds: a slower
/// cadence while paused (the label is static) than while running.
pub fn tick_interval_ms(paused: bool) -> (r: u64)
    ensures
        paused ==> r == 1000,
        !paused ==> r == 500,
{
    if paused {
        1000
    } else {
        500
    }
}

/// Toggling twice composes cleanly: from a paused machine, two toggles
/// append exactly two sessions (never one), leave the anchor exactly where
/// a single toggle would have put it (the moment of the first toggle), and
/// return the machine to the mode it started in.
pub proof fn lemma_double_toggle(m: StateModel, t1: u64, t2: u64)
    requires
        m.paused,
    ensures
        spec_toggle(spec_toggle(m, t1), t2).sessions.len() == m.sessions.len() + 2,
        spec_toggle(spec_toggle(m, t1), t2).anchor == spec_toggle(m, t1).anchor,
        spec_toggle(spec_toggle(m, t1), t2).anchor == t1,
        spec_toggle(spec_toggle(m, t1), t2).paused == m.paused,
{
}

/// Over the sequence toggle, toggle, toggle on a freshly started running
/// machine, exactly one of the three closed intervals is a pause: the
/// intervals alternate active, pause, active.
pub proof fn lemma_three_toggles_one_pause(t0: u64, t1: u64, t2: u64, t3: u64)
    ensures
        ({
            let m0 = StateModel { paused: false, anchor: t0, sessions: Seq::empty() };
            let m3 = spec_toggle(spec_toggle(spec_toggle(m0, t1), t2), t3);
            spec_pause_count(m3.sessions) == 1
        }),
{
    let m0 = StateModel { paused: false, anchor: t0, sessions: Seq::empty() };
    let m3 = spec_toggle(spec_toggle(spec_toggle(m0, t1), t2), t3);
    let s3 = m3.sessions;
    let s2 = s3.drop_last();
    let s1 = s2.drop_last();
    let s0 = s1.drop_last();
    assert(s3.len() == 3);
    assert(!s3.last().is_pause);
    assert(s2.last().is_pause);
    assert(!s1.last().is_pause);
    assert(s0 =~= Seq::<Session>::empty());
    assert(spec_pause_count(s0) == 0);
    assert(spec_pause_count(s1) == 0);
    assert(spec_pause_count(s2) == 1);
    assert(spec_pause_count(s3) == 1);
}

/// One record of the persisted session log: the interval's length as
/// `HH:MM:SS`, a space, its tag, a newline.
pub open spec fn spec_record(s: Session) -> Seq<char>
    recommends
        s.wf(),
{
    spec_format_elapsed(s.end - s.start, true) + seq![' '] + (if s.is_pause {
        "pause"@
    } else {
        "active"@
    }) + seq!['\n']
}

/// The persisted form of the whole log: one record per closed interval, in
/// insertion order.
pub open spec fn spec_serialize(sessions: Seq<Session>) -> Seq<char>
    recommends
        sessions_wf(sessions),
    decreases sessions.len(),
{
    if sessions.len() == 0 {
        Seq::empty()
    } else {
        spec_serialize(sessions.drop_last()) + spec_record(sessions.last())
    }
}

/// Serialize the session log as newline-terminated
/// `<HH:MM:SS> <active|pause>` records, for the persistence collaborator
/// to write out.
pub fn serialize_sessions(sessions: &Vec<Session>) -> (r: String)
    requires
        sessions_wf(sessions@),
    ensures
        r@ == spec_serialize(sessions@),
{
    let mut r = String::new();
    let mut i: usize = 0;
    while i < sessions.len()
        invariant
            i <= sessions.len(),
            sessions_wf(sessions@),
            r@ == spec_serialize(sessions@.take(i as int)),
        decreases sessions.len() - i,
    {
        let s = sessions[i];
        let formatted = format_elapsed(s.end - s.start, true);
        r.append(formatted.as_str());
        r.append(" ");
        if s.is_pause {
            r.append("pause");
        } else {
            r.append("active");
        }
        r.append("\n");
        proof {
            reveal_strlit(" ");
            reveal_strlit("pause");
            reveal_strlit("active");
            reveal_strlit("\n");
            assert(sessions@.take(i + 1).drop_last() =~= sessions@.take(i as int));
            assert(sessions@.take(i + 1).last() == sessions@[i as int]);
            assert(r@ =~= spec_serialize(sessions@.take(i + 1)));
        }
        i = i + 1;
    }
    proof {
        assert(sessions@.take(sessions@.len() as int) =~= sessions@);
    }
    r
}

} // verus!
