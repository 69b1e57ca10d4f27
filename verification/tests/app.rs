use std::time::Duration;

use tmux_agent_sidebar::app;
use tmux_agent_sidebar::app::signal_poll_interval;
use tmux_agent_sidebar::app::EventLoop;
use tmux_agent_sidebar::app::Input;
use tmux_agent_sidebar::app::LoopReply;
use tmux_agent_sidebar::app::LoopStep;
use tmux_agent_sidebar::app::Stage;

fn refresh_interval(sidebar_visible: bool) -> Duration {
    Duration::from_nanos(app::refresh_interval(sidebar_visible))
}

#[test]
fn background_sidebars_poll_and_refresh_less_often() {
    assert_eq!(refresh_interval(true), Duration::from_secs(1));
    assert_eq!(refresh_interval(false), Duration::from_secs(60));
    assert_eq!(
        Duration::from_nanos(signal_poll_interval(true)),
        Duration::from_millis(16)
    );
    assert_eq!(
        Duration::from_nanos(signal_poll_interval(false)),
        Duration::from_secs(1)
    );
}

fn start() -> EventLoop {
    EventLoop::new(0, 4, true)
}

fn at(stage: Stage) -> EventLoop {
    let mut this = start();
    this.needs_redraw = false;
    this.stage = stage;
    this
}

fn timeout(mut this: EventLoop, now: u64, wanted: bool) -> u64 {
    this.stage = Stage::Looking;
    this.resume(LoopReply::Signalled { wanted }, now);
    match this.step() {
        LoopStep::Wait { timeout } => timeout,
        other => panic!("unexpected step {other:?}"),
    }
}

#[test]
fn waits_end_at_the_nearest_deadline() {
    let mut this = start();
    assert_eq!(timeout(this, 0, true), 0);
    assert_eq!(timeout(this, 0, false), 16_000_000);
    // 10 ms before the next frame of the animation.
    assert_eq!(timeout(this, 190_000_000, false), 10_000_000);
    // 5 ms before the next refresh.
    this.last_spinner = 990_000_000;
    assert_eq!(timeout(this, 995_000_000, false), 5_000_000);
    this.sidebar_visible = false;
    this.last_spinner = 0;
    assert_eq!(timeout(this, 995_000_000, false), 1_000_000_000);
    assert_eq!(timeout(this, 59_500_000_000, false), 500_000_000);
    assert_eq!(timeout(this, 61_000_000_000, false), 0);
}

#[test]
fn a_quiet_round_draws_waits_and_starts_again() {
    let mut this = start();
    let round = [
        (LoopStep::Draw, LoopReply::Done),
        (LoopStep::LookForSignal, LoopReply::Signalled { wanted: false }),
        (LoopStep::Wait { timeout: 16_000_000 }, LoopReply::Ready { ready: false }),
        (LoopStep::TakeSignal, LoopReply::Signalled { wanted: false }),
        (LoopStep::Receive, LoopReply::Received { any: false }),
        (LoopStep::Flush { debounce: 150_000_000 }, LoopReply::Done),
    ];
    for (step, reply) in round {
        assert_eq!(this.step(), step);
        this.resume(reply, 0);
    }
    assert_eq!(this.step(), LoopStep::LookForSignal);
    // A reply that answers no question changes nothing.
    let before = this;
    this.resume(LoopReply::Ready { ready: true }, 9);
    assert_eq!(this, before);
}

#[test]
fn animation_is_drawn_only_where_something_moves_on_screen() {
    let still = LoopReply::Motion { pet_enabled: false, agent_active: false };
    let agent = LoopReply::Motion { pet_enabled: false, agent_active: true };
    let pet = LoopReply::Motion { pet_enabled: true, agent_active: false };
    let mut this = at(Stage::Waiting { timeout: 0 });
    this.resume(LoopReply::Ready { ready: false }, 199_999_999);
    assert_eq!(this.step(), LoopStep::TakeSignal);
    let mut this = at(Stage::Waiting { timeout: 0 });
    this.resume(LoopReply::Ready { ready: false }, 200_000_000);
    assert_eq!(this.step(), LoopStep::LookForMotion);
    let due = this;
    this.resume(still, 200_000_001);
    assert_eq!((this.spinner_frame, this.needs_redraw), (1, false));
    assert_eq!(this.last_spinner, 200_000_001);
    assert_eq!(this.step(), LoopStep::TakeSignal);
    let mut this = due;
    this.resume(agent, 200_000_001);
    assert!(this.needs_redraw);
    let mut this = due;
    this.resume(pet, 200_000_001);
    assert_eq!(this.step(), LoopStep::TickPet);
    this.resume(LoopReply::Done, 200_000_002);
    assert!(this.needs_redraw);
    assert_eq!(this.last_spinner, 200_000_002);
    for moving in [agent, pet] {
        let mut this = due;
        this.sidebar_visible = false;
        this.spinner_frame = 3;
        this.resume(moving, 200_000_001);
        assert_eq!((this.spinner_frame, this.needs_redraw), (0, false));
        assert_eq!(this.step(), LoopStep::TakeSignal);
    }
}

#[test]
fn a_refresh_is_due_in_time_or_on_a_signal() {
    let taken = |now, wanted| {
        let mut this = at(Stage::TakingSignal);
        this.resume(LoopReply::Signalled { wanted }, now);
        this.step()
    };
    assert_eq!(taken(999_999_999, false), LoopStep::Receive);
    assert_eq!(taken(1_000_000_000, false), LoopStep::Refresh);
    assert_eq!(taken(0, true), LoopStep::Refresh);
}

fn refresh(this: &mut EventLoop, signalled: bool, visible: bool, focus_moved: bool) -> Vec<LoopStep> {
    this.stage = Stage::Refreshing { signalled };
    this.resume(LoopReply::Refreshed { visible, focused: true, focus_moved }, 7);
    let mut steps = vec![];
    while this.stage != Stage::Receiving {
        steps.push(this.step());
        this.resume(LoopReply::Done, 8);
    }
    assert_eq!(this.last_refresh, 8);
    assert!(this.needs_redraw);
    steps
}

#[test]
fn a_sidebar_that_was_away_reloads_once() {
    let mut this = start();
    assert_eq!(refresh(&mut this, false, false, false), vec![LoopStep::StoreTab]);
    assert_eq!(refresh(&mut this, false, true, false), vec![LoopStep::StoreTab]);
    refresh(&mut this, false, false, false);
    refresh(&mut this, false, false, false);
    assert_eq!(this.window_inactive_count, 2);
    assert_eq!(
        refresh(&mut this, true, true, true),
        vec![
            LoopStep::ReloadShared,
            LoopStep::RefreshGit,
            LoopStep::ReloadShared,
            LoopStep::StoreTab
        ]
    );
    assert_eq!(this.window_inactive_count, 0);
    assert_eq!(refresh(&mut this, false, true, false), vec![LoopStep::StoreTab]);
    this.window_inactive_count = u32::MAX;
    refresh(&mut this, false, false, false);
    assert_eq!(this.window_inactive_count, u32::MAX);
}

#[test]
fn focus_input_and_data_ask_for_a_frame() {
    let read = |focused, input| {
        let mut this = at(Stage::Waiting { timeout: 9 });
        this.sidebar_focused = focused;
        this.resume(LoopReply::Ready { ready: true }, 0);
        assert_eq!(this.step(), LoopStep::Read);
        this.resume(LoopReply::Event { input }, 0);
        this
    };
    let this = read(true, Input::FocusLost);
    assert!(this.needs_redraw && !this.sidebar_focused);
    assert_eq!(this.step(), LoopStep::Wait { timeout: 0 });
    assert!(!read(false, Input::FocusLost).needs_redraw);
    assert!(read(true, Input::Handled { changed: true }).needs_redraw);
    assert!(!read(true, Input::Handled { changed: false }).needs_redraw);
    let mut this = read(true, Input::FocusGained);
    assert_eq!(this.step(), LoopStep::Signal);
    this.resume(LoopReply::Done, 0);
    assert_eq!(this.step(), LoopStep::Wait { timeout: 0 });
    let mut this = at(Stage::Receiving);
    this.resume(LoopReply::Received { any: true }, 0);
    this.resume(LoopReply::Done, 0);
    assert_eq!(this.step(), LoopStep::Draw);
    this.resume(LoopReply::Done, 0);
    assert!(!this.needs_redraw);
}

#[test]
fn a_focus_that_comes_back_shows_again() {
    let mut this = at(Stage::Reading);
    this.resume(LoopReply::Event { input: Input::FocusLost }, 0);
    assert!(!this.sidebar_focused);
    this.stage = Stage::Reading;
    this.resume(LoopReply::Event { input: Input::FocusGained }, 0);
    assert_eq!(this.step(), LoopStep::Signal);
    this.resume(LoopReply::Done, 0);
    this.resume(LoopReply::Ready { ready: false }, 0);
    this.resume(LoopReply::Signalled { wanted: true }, 0);
    assert_eq!(this.step(), LoopStep::Refresh);
    this.resume(LoopReply::Refreshed { visible: true, focused: true, focus_moved: false }, 0);
    assert!(this.sidebar_focused);
    this.needs_redraw = false;
    this.stage = Stage::Reading;
    this.resume(LoopReply::Event { input: Input::FocusLost }, 0);
    assert!(this.needs_redraw);
    this.stage = Stage::Refreshing { signalled: false };
    this.resume(LoopReply::Refreshed { visible: true, focused: false, focus_moved: false }, 0);
    assert!(!this.sidebar_focused);
}
