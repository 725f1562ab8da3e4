//! When to draw: how much of each channel one tick takes, how busy the
//! session is, and whether the next step is a frame or a pause.

use vstd::prelude::*;
use crate::app::{selected_of, App};

verus! {

/// At most this many discovery messages are taken per tick while discovery
/// runs.
pub const DISCOVERY_LIMIT_SCANNING: usize = 20;

/// At most this many discovery messages are taken per tick otherwise.
pub const DISCOVERY_LIMIT_SETTLED: usize = 10;

/// At most this many size updates are taken per tick.
pub const SIZE_UPDATE_LIMIT: usize = 5;

/// How many workers compute sizes at a time unless told otherwise.
pub const SIZE_WORKERS: usize = 4;

/// The frame interval while discovery admits entries, in milliseconds.
pub const DISCOVERY_FRAME_MS: u64 = 8;

/// The frame interval while something changes, in milliseconds.
pub const ACTIVE_FRAME_MS: u64 = 16;

/// The frame interval while nothing happens, in milliseconds.
pub const IDLE_FRAME_MS: u64 = 100;

/// How long after the last change the session still counts as active, in
/// milliseconds.
pub const ACTIVITY_WINDOW_MS: u64 = 500;

/// How long one poll for input waits, in milliseconds.
pub const INPUT_POLL_MS: u64 = 50;

/// How busy the session is.
#[derive(Debug, Clone, Copy, PartialEq, Eq, Structural)]
pub enum Activity {
    /// Discovery runs and has found something.
    Discovery,
    /// Something is to be redrawn, or something changed a moment ago.
    Active,
    /// Nothing happens.
    Idle,
}

/// What the loop does next.
#[derive(Debug, Clone, Copy, PartialEq, Eq, Structural)]
pub enum FrameStep {
    /// Pause for this many milliseconds, then look again.
    Sleep(u64),
    /// Build a frame and draw it.
    Draw,
}

/// How many discovery messages one tick takes at most.
pub fn discovery_limit(discovering: bool) -> (limit: usize)
    ensures
        limit == if discovering {
            DISCOVERY_LIMIT_SCANNING
        } else {
            DISCOVERY_LIMIT_SETTLED
        },
{
    if discovering {
        DISCOVERY_LIMIT_SCANNING
    } else {
        DISCOVERY_LIMIT_SETTLED
    }
}

/// How busy a session is: in discovery while discovery runs and has found
/// something; else active while something is to be redrawn or the last
/// change is less than half a second old; else idle.
pub open spec fn activity_of(
    discovering: bool,
    total_discovered: usize,
    dirty: bool,
    since_activity_ms: u64,
) -> Activity {
    if discovering && total_discovered > 0 {
        Activity::Discovery
    } else if dirty || since_activity_ms < ACTIVITY_WINDOW_MS {
        Activity::Active
    } else {
        Activity::Idle
    }
}

/// Classifies how busy the session is.
pub fn classify(
    discovering: bool,
    total_discovered: usize,
    dirty: bool,
    since_activity_ms: u64,
) -> (activity: Activity)
    ensures
        activity == activity_of(discovering, total_discovered, dirty, since_activity_ms),
{
    if discovering && total_discovered > 0 {
        Activity::Discovery
    } else if dirty || since_activity_ms < ACTIVITY_WINDOW_MS {
        Activity::Active
    } else {
        Activity::Idle
    }
}

/// The frame interval that goes with an activity, in milliseconds.
pub open spec fn interval_of(activity: Activity) -> u64 {
    match activity {
        Activity::Discovery => DISCOVERY_FRAME_MS,
        Activity::Active => ACTIVE_FRAME_MS,
        Activity::Idle => IDLE_FRAME_MS,
    }
}

/// The frame interval to aim for, in milliseconds.
pub fn target_frame_ms(activity: Activity) -> (interval: u64)
    ensures
        interval == interval_of(activity),
{
    match activity {
        Activity::Discovery => DISCOVERY_FRAME_MS,
        Activity::Active => ACTIVE_FRAME_MS,
        Activity::Idle => IDLE_FRAME_MS,
    }
}

/// The next step: with nothing to redraw and the last frame younger than the
/// interval, a pause for the rest of the interval; else a frame.
pub open spec fn step_of(dirty: bool, since_draw_ms: u64, interval_ms: u64) -> FrameStep {
    if !dirty && since_draw_ms < interval_ms {
        FrameStep::Sleep((interval_ms - since_draw_ms) as u64)
    } else {
        FrameStep::Draw
    }
}

/// Decides between a frame and a pause. A pause is never shorter than a
/// millisecond.
pub fn frame_step(dirty: bool, since_draw_ms: u64, interval_ms: u64) -> (step: FrameStep)
    ensures
        step == step_of(dirty, since_draw_ms, interval_ms),
        step matches FrameStep::Sleep(pause) ==> 1 <= pause <= interval_ms,
{
    if !dirty && since_draw_ms < interval_ms {
        FrameStep::Sleep(interval_ms - since_draw_ms)
    } else {
        FrameStep::Draw
    }
}

/// What the loop remembers between ticks: whether something is to be
/// redrawn, what the session looked like when that was last decided, and
/// when the last frame and the last change were, in milliseconds since the
/// loop began.
#[derive(Debug, Clone, Copy, PartialEq, Eq, Structural)]
pub struct RenderState {
    pub needs_redraw: bool,
    pub last_discovery_count: usize,
    pub last_selection_count: usize,
    pub last_page: usize,
    pub last_frame_ms: u64,
    pub last_activity_ms: u64,
    pub frame_count: u64,
}

impl RenderState {
    /// The state at the start of the loop: the first frame is due.
    pub fn new() -> (state: Self)
        ensures
            state == (RenderState {
                needs_redraw: true,
                last_discovery_count: 0,
                last_selection_count: 0,
                last_page: 0,
                last_frame_ms: 0,
                last_activity_ms: 0,
                frame_count: 0,
            }),
    {
        RenderState {
            needs_redraw: true,
            last_discovery_count: 0,
            last_selection_count: 0,
            last_page: 0,
            last_frame_ms: 0,
            last_activity_ms: 0,
            frame_count: 0,
        }
    }

    /// Whether the session looks different from what was last seen: another
    /// number of discovered or selected entries, another page, or discovery
    /// under way.
    pub open spec fn sees_change(self, app: &App) -> bool {
        ||| app.total_discovered != self.last_discovery_count
        ||| selected_of(app.directories@).len() != self.last_selection_count
        ||| app.current_page != self.last_page
        ||| app.discovery_status is Discovering
    }

    /// The state after a look at the session at `now_ms`: a change, or a
    /// redraw that was due already, makes the redraw due, is remembered, and
    /// counts as activity at `now_ms`.
    pub open spec fn observed(self, app: &App, now_ms: u64) -> RenderState {
        if self.sees_change(app) || self.needs_redraw {
            RenderState {
                needs_redraw: true,
                last_discovery_count: app.total_discovered,
                last_selection_count: selected_of(app.directories@).len() as usize,
                last_page: app.current_page,
                last_activity_ms: now_ms,
                ..self
            }
        } else {
            self
        }
    }

    /// Looks at the session and notes whether a redraw is due.
    pub fn observe(&mut self, app: &App, now_ms: u64)
        ensures
            *final(self) == old(self).observed(app, now_ms),
    {
        let discovery_count: usize = app.total_discovered;
        let selection_count: usize = app.get_selected_count();
        let page: usize = app.current_page;
        let changed: bool = discovery_count != self.last_discovery_count || selection_count
            != self.last_selection_count || page != self.last_page || app.is_discovering();
        if changed || self.needs_redraw {
            self.needs_redraw = true;
            self.last_discovery_count = discovery_count;
            self.last_selection_count = selection_count;
            self.last_page = page;
            self.last_activity_ms = now_ms;
        }
    }

    /// The milliseconds from `then_ms` to `now_ms`; 0 if the clock went
    /// back.
    pub open spec fn elapsed(now_ms: u64, then_ms: u64) -> u64 {
        if now_ms >= then_ms {
            (now_ms - then_ms) as u64
        } else {
            0
        }
    }

    /// The next step at `now_ms`, for the activity that the session and this
    /// state show.
    pub open spec fn planned(self, app: &App, now_ms: u64) -> FrameStep {
        let activity = activity_of(
            app.discovery_status is Discovering,
            app.total_discovered,
            self.needs_redraw,
            Self::elapsed(now_ms, self.last_activity_ms),
        );
        step_of(
            self.needs_redraw,
            Self::elapsed(now_ms, self.last_frame_ms),
            interval_of(activity),
        )
    }

    /// Decides whether the loop draws or pauses now.
    pub fn plan(&self, app: &App, now_ms: u64) -> (step: FrameStep)
        ensures
            step == self.planned(app, now_ms),
            self.needs_redraw ==> step == FrameStep::Draw,
    {
        let since_activity: u64 = if now_ms >= self.last_activity_ms {
            now_ms - self.last_activity_ms
        } else {
            0
        };
        let since_frame: u64 = if now_ms >= self.last_frame_ms {
            now_ms - self.last_frame_ms
        } else {
            0
        };
        let activity = classify(
            app.is_discovering(),
            app.total_discovered,
            self.needs_redraw,
            since_activity,
        );
        frame_step(self.needs_redraw, since_frame, target_frame_ms(activity))
    }

    /// Notes that a frame was drawn at `now_ms`: nothing is to be redrawn
    /// until something changes.
    pub fn drawn(&mut self, now_ms: u64)
        ensures
            *final(self) == (RenderState {
                needs_redraw: false,
                last_frame_ms: now_ms,
                frame_count: if old(self).frame_count < u64::MAX {
                    (old(self).frame_count + 1) as u64
                } else {
                    u64::MAX
                },
                ..*old(self)
            }),
    {
        self.needs_redraw = false;
        self.last_frame_ms = now_ms;
        if self.frame_count < u64::MAX {
            self.frame_count = self.frame_count + 1;
        }
    }

    /// Notes that something changed at `now_ms`, by the user's hand or by a
    /// message: a redraw is due.
    pub fn touched(&mut self, now_ms: u64)
        ensures
            *final(self) == (RenderState {
                needs_redraw: true,
                last_activity_ms: now_ms,
                ..*old(self)
            }),
    {
        self.needs_redraw = true;
        self.last_activity_ms = now_ms;
    }
}

/// Whether the frame can be drawn on a terminal of this kind, as the
/// environment names it: the name is there, is not "dumb", and does not
/// hold "Apple_Terminal".
pub open spec fn tui_capable(term: Seq<char>) -> bool {
    &&& term.len() > 0
    &&& term != "dumb"@
    &&& !crate::text::holds(term, "Apple_Terminal"@)
}

/// Decides whether to draw frames or to print lines, by the kind of the
/// terminal.
pub fn supports_tui(term: &str) -> (capable: bool)
    ensures
        capable == tui_capable(term@),
{
    let chars = crate::text::chars_of(term);
    let needle = crate::text::chars_of("Apple_Terminal");
    chars.len() > 0 && !(*term == *"dumb") && !crate::text::contains(&chars, &needle)
}

} // verus!
