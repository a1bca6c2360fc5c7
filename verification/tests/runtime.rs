use logtail::ingest::App;
use logtail::runtime::Action;
use logtail::runtime::LoopDirective;
use logtail::runtime::ShutdownPath;
use logtail::runtime::StopReason;
use logtail::runtime::TerminalAppState;
use logtail::runtime::action_for_key;
use logtail::runtime::loop_directive;
use logtail::runtime::shutdown_path;

fn fresh_state() -> TerminalAppState {
    TerminalAppState::new(App::new(10, 1_000))
}

#[test]
fn quit_stops_within_the_iteration_that_drains_it() {
    let mut state = fresh_state();
    assert!(!state.should_quit());
    state.drain_actions(&vec![Action::Quit]);
    assert!(state.should_quit());
    let d = loop_directive(true, false, state.should_quit());
    assert_eq!(d, LoopDirective::Stop(StopReason::QuitRequested));
}

#[test]
fn empty_drain_keeps_running() {
    let mut state = fresh_state();
    state.drain_actions(&vec![]);
    assert!(!state.should_quit());
    assert_eq!(loop_directive(true, false, false), LoopDirective::Render);
}

#[test]
fn failed_update_stops_first() {
    assert_eq!(
        loop_directive(false, true, true),
        LoopDirective::Stop(StopReason::UpdateFailed)
    );
}

#[test]
fn finished_input_task_stops() {
    assert_eq!(
        loop_directive(true, true, false),
        LoopDirective::Stop(StopReason::InputTaskFinished)
    );
}

#[test]
fn handle_input_event_sets_flag() {
    let mut state = fresh_state();
    state.handle_input_event(Action::Quit);
    assert!(state.should_quit());
}

#[test]
fn shutdown_reports_a_finished_task_and_cancels_a_live_one() {
    assert_eq!(shutdown_path(true), ShutdownPath::ReportOutcome);
    assert_eq!(shutdown_path(false), ShutdownPath::CancelAndAwait);
}

#[test]
fn key_mapping() {
    assert_eq!(action_for_key(true, Some('q')), Some(Action::Quit));
    assert_eq!(action_for_key(true, Some('x')), None);
    assert_eq!(action_for_key(false, Some('q')), None);
    assert_eq!(action_for_key(true, None), None);
}
