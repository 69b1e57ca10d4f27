//! The event loop of a sidebar: what it does when, and for how long it waits.

#[allow(unused_imports)]
use vstd::arithmetic::div_mod;
use vstd::prelude::*;

use crate::clock;

verus! {

/// Time between two refreshes of a sidebar that someone looks at.
pub const FOREGROUND_REFRESH_INTERVAL: u64 = 1_000_000_000;

/// Time between two refreshes of a hidden sidebar.
pub const BACKGROUND_REFRESH_INTERVAL: u64 = 60_000_000_000;

/// Longest wait of a sidebar that someone looks at before it looks for signals.
pub const FOREGROUND_SIGNAL_POLL_INTERVAL: u64 = 16_000_000;

/// Longest wait of a hidden sidebar before it looks for signals.
pub const BACKGROUND_SIGNAL_POLL_INTERVAL: u64 = 1_000_000_000;

/// Time between two frames of the animation.
pub const SPINNER_INTERVAL: u64 = 200_000_000;

/// Time for which writes are quiet before other sidebars hear of them.
pub const BROADCAST_DEBOUNCE: u64 = 150_000_000;

/// The time between two refreshes.
pub open spec fn refresh_period(sidebar_visible: bool) -> u64 {
    if sidebar_visible {
        FOREGROUND_REFRESH_INTERVAL
    } else {
        BACKGROUND_REFRESH_INTERVAL
    }
}

/// The time between two refreshes.
pub fn refresh_interval(sidebar_visible: bool) -> (interval: u64)
    ensures
        interval == refresh_period(sidebar_visible),
{
    if sidebar_visible {
        FOREGROUND_REFRESH_INTERVAL
    } else {
        BACKGROUND_REFRESH_INTERVAL
    }
}

/// The longest wait before signals are looked for.
pub open spec fn signal_period(sidebar_visible: bool) -> u64 {
    if sidebar_visible {
        FOREGROUND_SIGNAL_POLL_INTERVAL
    } else {
        BACKGROUND_SIGNAL_POLL_INTERVAL
    }
}

/// The longest wait before signals are looked for.
pub fn signal_poll_interval(sidebar_visible: bool) -> (interval: u64)
    ensures
        interval == signal_period(sidebar_visible),
{
    if sidebar_visible {
        FOREGROUND_SIGNAL_POLL_INTERVAL
    } else {
        BACKGROUND_SIGNAL_POLL_INTERVAL
    }
}

/// What came of an input event.
#[derive(Clone, Copy, Debug, PartialEq, Eq, Structural)]
pub enum Input {
    /// The pane lost the keyboard focus.
    FocusLost,
    /// The pane has the keyboard focus again.
    FocusGained,
    /// Anything else, which has been handled and may have changed something.
    Handled { changed: bool },
}

/// What the loop does next.
#[derive(Clone, Copy, Debug, PartialEq, Eq, Structural)]
pub enum LoopStep {
    /// Draw a frame.
    Draw,
    /// Look whether a refresh is wanted, and leave it so.
    LookForSignal,
    /// Wait for input, for this long at most.
    Wait { timeout: u64 },
    /// Take an input event.
    Read,
    /// Want a refresh.
    Signal,
    /// Tell what moves in this sidebar.
    LookForMotion,
    /// Move the pet.
    TickPet,
    /// Look whether a refresh is wanted, and settle that.
    TakeSignal,
    /// Find out anew what the sidebar shows.
    Refresh,
    /// Read the shared options from tmux and list the agents anew.
    ReloadShared,
    /// Read the git state of the pane that has the focus now.
    RefreshGit,
    /// Tell the workers which tab of the bottom panel is open.
    StoreTab,
    /// Take what the workers have found out.
    Receive,
    /// Announce writes that have been quiet for this long.
    Flush { debounce: u64 },
}

/// What came of it.
#[derive(Clone, Copy, Debug, PartialEq, Eq, Structural)]
pub enum LoopReply {
    /// It was done.
    Done,
    /// Whether a refresh is wanted.
    Signalled { wanted: bool },
    /// Whether there is input.
    Ready { ready: bool },
    /// An input event.
    Event { input: Input },
    /// Whether the pet is enabled, and whether an agent is active.
    Motion { pet_enabled: bool, agent_active: bool },
    /// Whether someone looks at the window of this sidebar, whether the sidebar
    /// itself has the keyboard focus, and whether another pane than before has
    /// the focus beside it.
    Refreshed { visible: bool, focused: bool, focus_moved: bool },
    /// Whether there was anything.
    Received { any: bool },
}

/// What the loop waits for. Waiting and reading take turns until there is no
/// more input.
#[derive(Clone, Copy, Debug, PartialEq, Eq, Structural)]
pub enum Stage {
    Drawing,
    Looking,
    Waiting { timeout: u64 },
    Reading,
    Signalling,
    Animating,
    TickingPet,
    TakingSignal,
    Refreshing { signalled: bool },
    /// Has these things left to do after a refresh.
    Following { shared: bool, git: bool, missed: bool },
    Receiving,
    Flushing,
}

/// The event loop between two steps.
#[derive(Clone, Copy, Debug, PartialEq, Eq, Structural)]
pub struct EventLoop {
    pub stage: Stage,
    /// Whether someone looks at the window of this sidebar.
    pub sidebar_visible: bool,
    /// Whether the sidebar shows that it has the keyboard focus.
    pub sidebar_focused: bool,
    pub needs_redraw: bool,
    pub last_refresh: u64,
    pub last_spinner: u64,
    /// Frame of the animation, and how many there are.
    pub spinner_frame: usize,
    pub spinner_frames: usize,
    /// Refreshes in a row that found the sidebar hidden.
    pub window_inactive_count: u32,
}

/// The smaller of two times.
pub open spec fn sooner(a: nat, b: nat) -> nat {
    if a <= b {
        a
    } else {
        b
    }
}

impl EventLoop {
    /// Whether the animation is at one of its frames.
    pub open spec fn well_formed(self) -> bool {
        self.spinner_frame < self.spinner_frames
    }

    /// A loop that starts now: visible until a refresh says otherwise, with a
    /// first frame to draw.
    pub open spec fn started(now: u64, spinner_frames: usize, sidebar_focused: bool) -> EventLoop {
        EventLoop {
            stage: Stage::Drawing,
            sidebar_visible: true,
            sidebar_focused,
            needs_redraw: true,
            last_refresh: now,
            last_spinner: now,
            spinner_frame: 0,
            spinner_frames,
            window_inactive_count: 0,
        }
    }

    /// Starts the loop.
    pub fn new(now: u64, spinner_frames: usize, sidebar_focused: bool) -> (this: EventLoop)
        requires
            spinner_frames > 0,
        ensures
            this == Self::started(now, spinner_frames, sidebar_focused),
            this.well_formed(),
    {
        EventLoop {
            stage: Stage::Drawing,
            sidebar_visible: true,
            sidebar_focused,
            needs_redraw: true,
            last_refresh: now,
            last_spinner: now,
            spinner_frame: 0,
            spinner_frames,
            window_inactive_count: 0,
        }
    }

    /// What to do next.
    pub open spec fn next(self) -> LoopStep {
        match self.stage {
            Stage::Drawing => LoopStep::Draw,
            Stage::Looking => LoopStep::LookForSignal,
            Stage::Waiting { timeout } => LoopStep::Wait { timeout },
            Stage::Reading => LoopStep::Read,
            Stage::Signalling => LoopStep::Signal,
            Stage::Animating => LoopStep::LookForMotion,
            Stage::TickingPet => LoopStep::TickPet,
            Stage::TakingSignal => LoopStep::TakeSignal,
            Stage::Refreshing { .. } => LoopStep::Refresh,
            Stage::Following { shared, git, missed } => if shared {
                LoopStep::ReloadShared
            } else if git {
                LoopStep::RefreshGit
            } else if missed {
                LoopStep::ReloadShared
            } else {
                LoopStep::StoreTab
            },
            Stage::Receiving => LoopStep::Receive,
            Stage::Flushing => LoopStep::Flush { debounce: BROADCAST_DEBOUNCE },
        }
    }

    /// What to do next.
    pub fn step(&self) -> (step: LoopStep)
        ensures
            step == self.next(),
    {
        match self.stage {
            Stage::Drawing => LoopStep::Draw,
            Stage::Looking => LoopStep::LookForSignal,
            Stage::Waiting { timeout } => LoopStep::Wait { timeout },
            Stage::Reading => LoopStep::Read,
            Stage::Signalling => LoopStep::Signal,
            Stage::Animating => LoopStep::LookForMotion,
            Stage::TickingPet => LoopStep::TickPet,
            Stage::TakingSignal => LoopStep::TakeSignal,
            Stage::Refreshing { .. } => LoopStep::Refresh,
            Stage::Following { shared, git, missed } => {
                if shared {
                    LoopStep::ReloadShared
                } else if git {
                    LoopStep::RefreshGit
                } else if missed {
                    LoopStep::ReloadShared
                } else {
                    LoopStep::StoreTab
                }
            },
            Stage::Receiving => LoopStep::Receive,
            Stage::Flushing => LoopStep::Flush { debounce: BROADCAST_DEBOUNCE },
        }
    }

    /// How long to wait for input: until the next refresh, the next frame of
    /// the animation or the next look for signals, and not at all where a
    /// refresh is wanted. A hidden sidebar has no animation to wake for.
    pub open spec fn wait(self, now: u64, refresh_wanted: bool) -> nat {
        let refresh = clock::left(refresh_period(self.sidebar_visible), now, self.last_refresh);
        let spinner = if self.sidebar_visible {
            clock::left(SPINNER_INTERVAL, now, self.last_spinner)
        } else {
            refresh
        };
        if refresh_wanted {
            0
        } else {
            sooner(sooner(refresh, spinner), signal_period(self.sidebar_visible) as nat)
        }
    }

    /// How long to wait for input.
    fn poll_timeout(&self, now: u64, refresh_wanted: bool) -> (timeout: u64)
        ensures
            timeout == self.wait(now, refresh_wanted),
    {
        if refresh_wanted {
            return 0;
        }
        let refresh: u64 = clock::remaining(
            refresh_interval(self.sidebar_visible),
            now,
            self.last_refresh,
        );
        let spinner: u64 = if self.sidebar_visible {
            clock::remaining(SPINNER_INTERVAL, now, self.last_spinner)
        } else {
            refresh
        };
        let signal: u64 = signal_poll_interval(self.sidebar_visible);
        let mut timeout: u64 = refresh;
        if spinner < timeout {
            timeout = spinner;
        }
        if signal < timeout {
            timeout = signal;
        }
        timeout
    }

    /// The loop at the start of a round.
    pub open spec fn round(self) -> EventLoop {
        EventLoop {
            stage: if self.needs_redraw {
                Stage::Drawing
            } else {
                Stage::Looking
            },
            ..self
        }
    }

    /// The loop with all input taken: the animation has its turn where its next
    /// frame is due.
    pub open spec fn past_input(self, now: u64) -> EventLoop {
        EventLoop {
            stage: if clock::passed(now, self.last_spinner) >= SPINNER_INTERVAL {
                Stage::Animating
            } else {
                Stage::TakingSignal
            },
            ..self
        }
    }

    /// The loop after an input event. The loss of the focus shows at once, and
    /// regaining it wants a refresh.
    pub open spec fn took_input(self, input: Input) -> EventLoop {
        match input {
            Input::FocusLost => EventLoop {
                sidebar_focused: false,
                needs_redraw: self.needs_redraw || self.sidebar_focused,
                stage: Stage::Waiting { timeout: 0 },
                ..self
            },
            Input::FocusGained => EventLoop { stage: Stage::Signalling, ..self },
            Input::Handled { changed } => EventLoop {
                needs_redraw: self.needs_redraw || changed,
                stage: Stage::Waiting { timeout: 0 },
                ..self
            },
        }
    }

    /// The loop after a turn of the animation, whose frames come round. A frame
    /// is drawn only where something moves and someone looks.
    pub open spec fn spun(self, now: u64, pet_enabled: bool, agent_active: bool) -> EventLoop {
        let turned = EventLoop {
            spinner_frame: if self.spinner_frame + 1 < self.spinner_frames {
                (self.spinner_frame + 1) as usize
            } else {
                0
            },
            ..self
        };
        if self.sidebar_visible && pet_enabled {
            EventLoop { stage: Stage::TickingPet, ..turned }
        } else {
            EventLoop {
                last_spinner: now,
                needs_redraw: self.needs_redraw || self.sidebar_visible && agent_active,
                stage: Stage::TakingSignal,
                ..turned
            }
        }
    }

    /// Whether to refresh: on a signal, or after the time between two refreshes.
    pub open spec fn refreshes(self, now: u64, signalled: bool) -> bool {
        signalled || clock::passed(now, self.last_refresh) >= refresh_period(self.sidebar_visible)
    }

    /// The loop after a refresh. A signal means that shared options changed, a
    /// focus that moved means other git state, and a sidebar that comes back
    /// after two refreshes or more has missed what was shared meanwhile. Whether
    /// the sidebar has the keyboard focus is found out anew.
    pub open spec fn took_refresh(
        self,
        signalled: bool,
        visible: bool,
        focused: bool,
        focus_moved: bool,
    ) -> EventLoop {
        EventLoop {
            sidebar_visible: visible,
            sidebar_focused: focused,
            needs_redraw: true,
            window_inactive_count: if visible {
                0
            } else if self.window_inactive_count < u32::MAX {
                (self.window_inactive_count + 1) as u32
            } else {
                u32::MAX
            },
            stage: Stage::Following {
                shared: signalled,
                git: focus_moved,
                missed: visible && self.window_inactive_count >= 2,
            },
            ..self
        }
    }

    /// The loop after the next of the things to do after a refresh, the last of
    /// which ends the refresh.
    pub open spec fn followed(self, shared: bool, git: bool, missed: bool, now: u64) -> EventLoop {
        if shared {
            EventLoop { stage: Stage::Following { shared: false, git, missed }, ..self }
        } else if git {
            EventLoop { stage: Stage::Following { shared, git: false, missed }, ..self }
        } else if missed {
            EventLoop { stage: Stage::Following { shared, git, missed: false }, ..self }
        } else {
            EventLoop { last_refresh: now, stage: Stage::Receiving, ..self }
        }
    }

    /// The loop after a reply at `now`. One that answers no question changes
    /// nothing.
    pub open spec fn after(self, reply: LoopReply, now: u64) -> EventLoop {
        match (self.stage, reply) {
            (Stage::Drawing, LoopReply::Done) => EventLoop {
                needs_redraw: false,
                stage: Stage::Looking,
                ..self
            },
            (Stage::Looking, LoopReply::Signalled { wanted }) => EventLoop {
                stage: Stage::Waiting { timeout: self.wait(now, wanted) as u64 },
                ..self
            },
            (Stage::Waiting { .. }, LoopReply::Ready { ready }) => if ready {
                EventLoop { stage: Stage::Reading, ..self }
            } else {
                self.past_input(now)
            },
            (Stage::Reading, LoopReply::Event { input }) => self.took_input(input),
            (Stage::Signalling, LoopReply::Done) => EventLoop {
                stage: Stage::Waiting { timeout: 0 },
                ..self
            },
            (Stage::Animating, LoopReply::Motion { pet_enabled, agent_active }) => self.spun(
                now,
                pet_enabled,
                agent_active,
            ),
            (Stage::TickingPet, LoopReply::Done) => EventLoop {
                last_spinner: now,
                needs_redraw: true,
                stage: Stage::TakingSignal,
                ..self
            },
            (Stage::TakingSignal, LoopReply::Signalled { wanted }) => EventLoop {
                stage: if self.refreshes(now, wanted) {
                    Stage::Refreshing { signalled: wanted }
                } else {
                    Stage::Receiving
                },
                ..self
            },
            (
                Stage::Refreshing { signalled },
                LoopReply::Refreshed { visible, focused, focus_moved },
            ) => self.took_refresh(signalled, visible, focused, focus_moved),
            (Stage::Following { shared, git, missed }, LoopReply::Done) => self.followed(
                shared,
                git,
                missed,
                now,
            ),
            (Stage::Receiving, LoopReply::Received { any }) => EventLoop {
                needs_redraw: self.needs_redraw || any,
                stage: Stage::Flushing,
                ..self
            },
            (Stage::Flushing, LoopReply::Done) => self.round(),
            _ => self,
        }
    }

    /// Takes a reply.
    pub fn resume(&mut self, reply: LoopReply, now: u64)
        requires
            old(self).well_formed(),
        ensures
            *final(self) == old(self).after(reply, now),
            final(self).well_formed(),
    {
        match (self.stage, reply) {
            (Stage::Drawing, LoopReply::Done) => {
                self.needs_redraw = false;
                self.stage = Stage::Looking;
            },
            (Stage::Looking, LoopReply::Signalled { wanted }) => {
                self.stage = Stage::Waiting { timeout: self.poll_timeout(now, wanted) };
            },
            (Stage::Waiting { .. }, LoopReply::Ready { ready }) => {
                if ready {
                    self.stage = Stage::Reading;
                } else if clock::elapsed(now, self.last_spinner) >= SPINNER_INTERVAL {
                    self.stage = Stage::Animating;
                } else {
                    self.stage = Stage::TakingSignal;
                }
            },
            (Stage::Reading, LoopReply::Event { input }) => self.take_input(input),
            (Stage::Signalling, LoopReply::Done) => {
                self.stage = Stage::Waiting { timeout: 0 };
            },
            (Stage::Animating, LoopReply::Motion { pet_enabled, agent_active }) => {
                self.spin(now, pet_enabled, agent_active)
            },
            (Stage::TickingPet, LoopReply::Done) => {
                self.last_spinner = now;
                self.needs_redraw = true;
                self.stage = Stage::TakingSignal;
            },
            (Stage::TakingSignal, LoopReply::Signalled { wanted }) => {
                self.stage = if wanted || clock::elapsed(now, self.last_refresh)
                    >= refresh_interval(self.sidebar_visible) {
                    Stage::Refreshing { signalled: wanted }
                } else {
                    Stage::Receiving
                };
            },
            (
                Stage::Refreshing { signalled },
                LoopReply::Refreshed { visible, focused, focus_moved },
            ) => self.take_refresh(signalled, visible, focused, focus_moved),
            (Stage::Following { shared, git, missed }, LoopReply::Done) => {
                if shared {
                    self.stage = Stage::Following { shared: false, git, missed };
                } else if git {
                    self.stage = Stage::Following { shared, git: false, missed };
                } else if missed {
                    self.stage = Stage::Following { shared, git, missed: false };
                } else {
                    self.last_refresh = now;
                    self.stage = Stage::Receiving;
                }
            },
            (Stage::Receiving, LoopReply::Received { any }) => {
                if any {
                    self.needs_redraw = true;
                }
                self.stage = Stage::Flushing;
            },
            (Stage::Flushing, LoopReply::Done) => {
                self.stage = if self.needs_redraw {
                    Stage::Drawing
                } else {
                    Stage::Looking
                };
            },
            _ => {},
        }
    }

    /// Takes an input event.
    fn take_input(&mut self, input: Input)
        ensures
            *final(self) == old(self).took_input(input),
    {
        match input {
            Input::FocusLost => {
                if self.sidebar_focused {
                    self.sidebar_focused = false;
                    self.needs_redraw = true;
                }
                self.stage = Stage::Waiting { timeout: 0 };
            },
            Input::FocusGained => {
                self.stage = Stage::Signalling;
            },
            Input::Handled { changed } => {
                if changed {
                    self.needs_redraw = true;
                }
                self.stage = Stage::Waiting { timeout: 0 };
            },
        }
    }

    /// Gives the animation its turn.
    fn spin(&mut self, now: u64, pet_enabled: bool, agent_active: bool)
        requires
            old(self).well_formed(),
        ensures
            *final(self) == old(self).spun(now, pet_enabled, agent_active),
            final(self).well_formed(),
    {
        proof {
            let next = self.spinner_frame + 1;
            if next < self.spinner_frames {
                div_mod::lemma_small_mod(next as nat, self.spinner_frames as nat);
            } else {
                div_mod::lemma_mod_self_0(self.spinner_frames as int);
            }
        }
        self.spinner_frame = (self.spinner_frame + 1) % self.spinner_frames;
        if self.sidebar_visible && pet_enabled {
            self.stage = Stage::TickingPet;
            return;
        }
        self.last_spinner = now;
        if self.sidebar_visible && agent_active {
            self.needs_redraw = true;
        }
        self.stage = Stage::TakingSignal;
    }

    /// Takes a refresh.
    fn take_refresh(&mut self, signalled: bool, visible: bool, focused: bool, focus_moved: bool)
        ensures
            *final(self) == old(self).took_refresh(signalled, visible, focused, focus_moved),
    {
        let missed = visible && self.window_inactive_count >= 2;
        self.sidebar_visible = visible;
        self.sidebar_focused = focused;
        self.needs_redraw = true;
        if visible {
            self.window_inactive_count = 0;
        } else {
            self.window_inactive_count = self.window_inactive_count.saturating_add(1);
        }
        self.stage = Stage::Following { shared: signalled, git: focus_moved, missed };
    }
}

// ---- laws ----

/// A loop never waits past its next refresh, its next look for signals, or, as
/// long as someone looks, the next frame of the animation. Where a refresh is
/// due or wanted it does not wait at all.
pub proof fn no_wait_outlasts_its_deadlines(this: EventLoop, now: u64, refresh_wanted: bool)
    ensures
        this.wait(now, refresh_wanted) <= clock::left(
            refresh_period(this.sidebar_visible),
            now,
            this.last_refresh,
        ),
        this.wait(now, refresh_wanted) <= signal_period(this.sidebar_visible),
        this.sidebar_visible ==> this.wait(now, refresh_wanted) <= clock::left(
            SPINNER_INTERVAL,
            now,
            this.last_spinner,
        ),
        this.refreshes(now, refresh_wanted) ==> this.wait(now, refresh_wanted) == 0,
{
}

/// The animation neither wakes a hidden sidebar nor has it drawn.
pub proof fn hidden_sidebars_do_not_animate(
    this: EventLoop,
    now: u64,
    last_spinner: u64,
    refresh_wanted: bool,
    pet_enabled: bool,
    agent_active: bool,
)
    requires
        !this.sidebar_visible,
    ensures
        (EventLoop { last_spinner, ..this }).wait(now, refresh_wanted) == this.wait(
            now,
            refresh_wanted,
        ),
        this.spun(now, pet_enabled, agent_active).needs_redraw == this.needs_redraw,
        this.spun(now, pet_enabled, agent_active).stage == Stage::TakingSignal,
{
}

/// A sidebar in which nothing moves is not drawn for the animation.
pub proof fn still_sidebars_are_not_redrawn(this: EventLoop, now: u64)
    ensures
        this.spun(now, false, false).needs_redraw == this.needs_redraw,
        this.spun(now, false, false).stage == Stage::TakingSignal,
{
}

/// A sidebar that two refreshes in a row found hidden reloads the shared options
/// with the refresh that finds it visible again, and not once more with the
/// next one.
pub proof fn returning_sidebars_catch_up(
    this: EventLoop,
    signals: Seq<bool>,
    focused: Seq<bool>,
    moves: Seq<bool>,
)
    ensures
        ({
            let away = this.took_refresh(signals[0], false, focused[0], moves[0]).took_refresh(
                signals[1],
                false,
                focused[1],
                moves[1],
            );
            let back = away.took_refresh(signals[2], true, focused[2], moves[2]);
            let next = back.took_refresh(signals[3], true, focused[3], moves[3]);
            &&& back.stage matches Stage::Following { missed, .. } && missed
            &&& next.stage matches Stage::Following { missed, .. } && !missed
        }),
{
}

/// A sidebar that lost the keyboard focus shows it again once it is back: the
/// regained focus wants a refresh, the refresh takes place whenever it comes, and
/// its outcome is drawn. A later loss then shows at once again.
pub proof fn a_regained_focus_shows_again(
    this: EventLoop,
    visible: bool,
    focus_moved: bool,
    asked: u64,
    taken: u64,
    found: u64,
)
    requires
        this.stage == Stage::Reading,
    ensures
        ({
            let lost = this.took_input(Input::FocusLost);
            let regained = this.after(LoopReply::Event { input: Input::FocusGained }, asked);
            let settled = EventLoop { stage: Stage::TakingSignal, ..lost };
            let refreshing = settled.after(LoopReply::Signalled { wanted: true }, taken);
            let back = refreshing.after(
                LoopReply::Refreshed { visible, focused: true, focus_moved },
                found,
            );
            let drawn = EventLoop { needs_redraw: false, ..back };
            &&& !lost.sidebar_focused
            &&& this.sidebar_focused ==> lost.needs_redraw
            &&& regained.next() == LoopStep::Signal
            &&& refreshing.next() == LoopStep::Refresh
            &&& back.sidebar_focused && back.needs_redraw
            &&& drawn.took_input(Input::FocusLost).needs_redraw
        }),
{
}

/// What a refresh calls for is done in this order: the shared options on a
/// signal, the git state, the shared options that were missed. Then the refresh
/// ends, and only then its time counts from anew.
pub proof fn refreshes_are_followed_up(
    this: EventLoop,
    shared: bool,
    git: bool,
    missed: bool,
    now: u64,
)
    requires
        this.stage == (Stage::Following { shared, git, missed }),
    ensures
        shared ==> this.next() == LoopStep::ReloadShared && this.after(LoopReply::Done, now) == (
        EventLoop { stage: Stage::Following { shared: false, git, missed }, ..this }),
        !shared && git ==> this.next() == LoopStep::RefreshGit && this.after(
            LoopReply::Done,
            now,
        ) == (EventLoop { stage: Stage::Following { shared, git: false, missed }, ..this }),
        !shared && !git && missed ==> this.next() == LoopStep::ReloadShared && this.after(
            LoopReply::Done,
            now,
        ) == (EventLoop { stage: Stage::Following { shared, git, missed: false }, ..this }),
        !shared && !git && !missed ==> this.next() == LoopStep::StoreTab && this.after(
            LoopReply::Done,
            now,
        ) == (EventLoop { stage: Stage::Receiving, last_refresh: now, ..this }),
{
}

/// A round of the loop draws at most once, and only where something asked for
/// it; a frame that was asked for is drawn in the next round.
pub proof fn frames_are_drawn_on_demand(this: EventLoop, reply: LoopReply, now: u64)
    ensures
        this.stage == Stage::Flushing && reply == LoopReply::Done ==> (this.after(
            reply,
            now,
        ).next() == LoopStep::Draw <==> this.needs_redraw),
        this.after(reply, now).next() == LoopStep::Draw && this.next() != LoopStep::Draw
            ==> this.needs_redraw && this.stage == Stage::Flushing,
        this.needs_redraw && !this.after(reply, now).needs_redraw ==> this.next()
            == LoopStep::Draw,
{
}

/// A loop that waits for nothing else waits until the first of its deadlines: the
/// refresh, which comes every second while someone looks and every minute while
/// nobody does; the look for signals, after 16 milliseconds or a second; and, while
/// someone looks, the next frame, after 200 milliseconds.
pub proof fn waits_last_until_the_first_deadline(this: EventLoop, now: u64)
    requires
        this.last_refresh <= now,
        this.last_spinner <= now,
        now - this.last_refresh <= (if this.sidebar_visible {
            clock::SECOND as int
        } else {
            60 * clock::SECOND
        }),
        now - this.last_spinner <= 200_000_000,
    ensures
        ({
            let wait = this.wait(now, false) as int;
            let refresh = this.last_refresh + (if this.sidebar_visible {
                clock::SECOND as int
            } else {
                60 * clock::SECOND
            });
            let frame = this.last_spinner + 200_000_000;
            let signal = now + (if this.sidebar_visible {
                16_000_000
            } else {
                clock::SECOND as int
            });
            &&& now + wait <= refresh
            &&& now + wait <= signal
            &&& this.sidebar_visible ==> now + wait <= frame
            &&& now + wait == refresh || now + wait == signal || (this.sidebar_visible && now + wait
                == frame)
        }),
        this.wait(now, true) == 0,
{
}

/// Input is taken until there is no more, without waiting in between. What it
/// changes is drawn; the loss of the focus changes the sidebar where it had it, and
/// regaining it wants a refresh.
pub proof fn input_is_taken_until_there_is_no_more(
    this: EventLoop,
    timeout: u64,
    changed: bool,
    now: u64,
)
    requires
        this.stage == (Stage::Waiting { timeout }),
    ensures
        ({
            let reading = this.after(LoopReply::Ready { ready: true }, now);
            let handled = reading.after(LoopReply::Event { input: Input::Handled { changed } }, now);
            let lost = reading.after(LoopReply::Event { input: Input::FocusLost }, now);
            let gained = reading.after(LoopReply::Event { input: Input::FocusGained }, now);
            &&& this.next() == (LoopStep::Wait { timeout })
            &&& reading.next() == LoopStep::Read
            &&& handled.next() == (LoopStep::Wait { timeout: 0 })
            &&& handled.needs_redraw == (this.needs_redraw || changed)
            &&& handled.sidebar_focused == this.sidebar_focused
            &&& lost.next() == (LoopStep::Wait { timeout: 0 })
            &&& lost.needs_redraw == (this.needs_redraw || this.sidebar_focused)
            &&& !lost.sidebar_focused
            &&& gained.next() == LoopStep::Signal
            &&& gained.after(LoopReply::Done, now).next() == (LoopStep::Wait { timeout: 0 })
            &&& gained.needs_redraw == this.needs_redraw
            &&& gained.sidebar_focused == this.sidebar_focused
        }),
{
}

/// The animation has its turn exactly where its last frame is 200 milliseconds old
/// or older. A turn goes on to the next frame and round after the last, starts the
/// time anew, and is drawn exactly where someone looks and an agent or the pet
/// moves.
pub proof fn frames_come_round(
    this: EventLoop,
    timeout: u64,
    pet_enabled: bool,
    agent_active: bool,
    now: u64,
)
    requires
        this.stage == (Stage::Waiting { timeout }),
        this.well_formed(),
        this.last_spinner <= now,
    ensures
        ({
            let turn = this.after(LoopReply::Ready { ready: false }, now);
            let spun = turn.after(LoopReply::Motion { pet_enabled, agent_active }, now);
            let done = if spun.next() == LoopStep::TickPet {
                spun.after(LoopReply::Done, now)
            } else {
                spun
            };
            &&& turn.next() == LoopStep::LookForMotion <==> now - this.last_spinner >= 200_000_000
            &&& turn.next() == LoopStep::TakeSignal <==> now - this.last_spinner < 200_000_000
            &&& turn.next() == LoopStep::LookForMotion ==> {
                &&& spun.next() == LoopStep::TickPet <==> this.sidebar_visible && pet_enabled
                &&& done.next() == LoopStep::TakeSignal
                &&& this.spinner_frame + 1 < this.spinner_frames ==> done.spinner_frame
                    == this.spinner_frame + 1
                &&& this.spinner_frame + 1 == this.spinner_frames ==> done.spinner_frame == 0
                &&& done.last_spinner == now
                &&& done.needs_redraw == (this.needs_redraw || (this.sidebar_visible && (
                pet_enabled || agent_active)))
                &&& done.last_refresh == this.last_refresh
                &&& done.sidebar_visible == this.sidebar_visible
                &&& done.sidebar_focused == this.sidebar_focused
                &&& done.window_inactive_count == this.window_inactive_count
            }
        }),
{
}

/// A refresh takes place exactly on a signal, or a second after the last one while
/// someone looks and a minute after it while nobody does.
pub proof fn refreshes_take_place_when_due(this: EventLoop, wanted: bool, now: u64)
    requires
        this.stage == Stage::TakingSignal,
        this.last_refresh <= now,
    ensures
        ({
            let after = this.after(LoopReply::Signalled { wanted }, now);
            let age = now - this.last_refresh;
            &&& after.next() == LoopStep::Refresh <==> wanted || (this.sidebar_visible && age
                >= clock::SECOND) || (!this.sidebar_visible && age >= 60 * clock::SECOND)
            &&& after.next() == LoopStep::Receive <==> !(after.next() == LoopStep::Refresh)
            &&& after.needs_redraw == this.needs_redraw
        }),
{
}

/// A refresh is drawn and tells anew whether someone looks and whether the sidebar
/// has the focus. It counts the refreshes in a row that found nobody looking. Its
/// follow-ups are the shared options where it was signalled or two such refreshes
/// went before, and the git state where the focus moved.
pub proof fn refreshes_tell_who_looks(
    this: EventLoop,
    signalled: bool,
    visible: bool,
    focused: bool,
    focus_moved: bool,
    now: u64,
)
    requires
        this.stage == (Stage::Refreshing { signalled }),
    ensures
        ({
            let after = this.after(LoopReply::Refreshed { visible, focused, focus_moved }, now);
            &&& after.needs_redraw
            &&& after.sidebar_visible == visible
            &&& after.sidebar_focused == focused
            &&& visible ==> after.window_inactive_count == 0
            &&& !visible && this.window_inactive_count < u32::MAX ==> after.window_inactive_count
                == this.window_inactive_count + 1
            &&& after.last_refresh == this.last_refresh
            &&& after.last_spinner == this.last_spinner
            &&& after.spinner_frame == this.spinner_frame
            &&& signalled ==> after.next() == LoopStep::ReloadShared
            &&& !signalled && focus_moved ==> after.next() == LoopStep::RefreshGit
            &&& !signalled && !focus_moved && visible && this.window_inactive_count >= 2
                ==> after.next() == LoopStep::ReloadShared
            &&& !signalled && !focus_moved && (!visible || this.window_inactive_count < 2)
                ==> after.next() == LoopStep::StoreTab
        }),
{
}

/// A round in which nothing happens looks for a signal, waits, takes the signal,
/// takes what the workers found, announces writes that were quiet for 150
/// milliseconds, and starts over; it draws before, where that was asked for.
pub proof fn rounds_go_their_way(this: EventLoop, any: bool, now: u64)
    requires
        this.stage == Stage::Drawing,
        this.last_spinner <= now,
        now - this.last_spinner < 200_000_000,
        this.last_refresh <= now,
        now - this.last_refresh < clock::SECOND,
    ensures
        ({
            let looking = this.after(LoopReply::Done, now);
            let waiting = looking.after(LoopReply::Signalled { wanted: false }, now);
            let taking = waiting.after(LoopReply::Ready { ready: false }, now);
            let receiving = taking.after(LoopReply::Signalled { wanted: false }, now);
            let flushing = receiving.after(LoopReply::Received { any }, now);
            let over = flushing.after(LoopReply::Done, now);
            &&& this.next() == LoopStep::Draw
            &&& looking.next() == LoopStep::LookForSignal
            &&& !looking.needs_redraw
            &&& waiting.next() == (LoopStep::Wait { timeout: this.wait(now, false) as u64 })
            &&& taking.next() == LoopStep::TakeSignal
            &&& receiving.next() == LoopStep::Receive
            &&& flushing.next() == (LoopStep::Flush { debounce: 150_000_000 })
            &&& over.next() == (if any {
                LoopStep::Draw
            } else {
                LoopStep::LookForSignal
            })
        }),
{
}

/// A loop that starts draws its first frame, takes the sidebar for visible, and
/// counts its times from then on.
pub proof fn loops_start_with_a_frame(now: u64, spinner_frames: usize, sidebar_focused: bool)
    ensures
        ({
            let this = EventLoop::started(now, spinner_frames, sidebar_focused);
            &&& this.next() == LoopStep::Draw
            &&& this.sidebar_visible
            &&& this.sidebar_focused == sidebar_focused
            &&& this.wait(now, false) == 16_000_000
            &&& !this.refreshes(now, false)
            &&& spinner_frames > 0 ==> this.well_formed() && this.spinner_frame == 0
            &&& this.spinner_frames == spinner_frames
            &&& this.window_inactive_count == 0
        }),
{
}

/// A reply that answers no question of the stage changes nothing.
pub proof fn stray_replies_change_nothing(this: EventLoop, reply: LoopReply, now: u64)
    requires
        match this.stage {
            Stage::Drawing => reply !is Done,
            Stage::Looking => reply !is Signalled,
            Stage::Waiting { .. } => reply !is Ready,
            Stage::Reading => reply !is Event,
            Stage::Signalling => reply !is Done,
            Stage::Animating => reply !is Motion,
            Stage::TickingPet => reply !is Done,
            Stage::TakingSignal => reply !is Signalled,
            Stage::Refreshing { .. } => reply !is Refreshed,
            Stage::Following { .. } => reply !is Done,
            Stage::Receiving => reply !is Received,
            Stage::Flushing => reply !is Done,
        },
    ensures
        this.after(reply, now) == this,
{
}

} // verus!
