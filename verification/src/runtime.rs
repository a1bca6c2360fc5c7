//! The decision logic of the cooperative terminal runtime. Two
//! concurrent activities — an input-polling task and the main loop —
//! meet over a FIFO action channel; only the main loop mutates state.
//! The caller performs the blocking work (polling the input device,
//! the network read of the update step, rendering, task cancellation)
//! and feeds the observed events in; every decision taken on them is
//! verified here.
use crate::ingest::App;
use vstd::prelude::*;

verus! {

/// An external input event reduced to the closed set of actions the
/// main loop understands.
#[derive(Clone, Copy, PartialEq, Eq, Debug)]
pub enum Action {
    Quit,
}

/// Why the main loop stops: the update step failed, the input task is
/// gone, or a quit was requested.
#[derive(Clone, Copy, PartialEq, Eq, Debug)]
pub enum StopReason {
    UpdateFailed,
    InputTaskFinished,
    QuitRequested,
}

/// What one main-loop iteration does after its update step: render and
/// go around again, or stop.
#[derive(Clone, Copy, PartialEq, Eq, Debug)]
pub enum LoopDirective {
    Render,
    Stop(StopReason),
}

/// How the loop winds its input task down on exit: a task that already
/// finished has its outcome reported as a diagnostic; a live one is
/// cancelled and awaited.
#[derive(Clone, Copy, PartialEq, Eq, Debug)]
pub enum ShutdownPath {
    ReportOutcome,
    CancelAndAwait,
}

/// A sequence of drained actions requests termination.
pub open spec fn contains_quit(actions: Seq<Action>) -> bool {
    exists|i: int| 0 <= i < actions.len() && actions[i] is Quit
}

/// The terminal application: the core state together with the runtime's
/// own termination flag.
pub struct TerminalAppState {
    pub app: App,
    pub should_quit: bool,
}

impl TerminalAppState {
    pub fn new(app: App) -> (r: TerminalAppState)
        ensures
            r.app == app,
            r.should_quit == false,
    {
        TerminalAppState { app, should_quit: false }
    }

    /// Apply one drained action to the state: a quit request raises the
    /// termination flag and touches nothing else.
    pub fn handle_input_event(&mut self, action: Action)
        ensures
            final(self).app == old(self).app,
            final(self).should_quit == (old(self).should_quit || action is Quit),
    {
        match action {
            Action::Quit => {
                self.should_quit = true;
            },
        }
    }

    /// Apply a whole drained batch in FIFO order: the termination flag
    /// ends up raised exactly when it was already raised or the batch
    /// requests it; the core state is untouched.
    pub fn drain_actions(&mut self, actions: &Vec<Action>)
        ensures
            final(self).app == old(self).app,
            final(self).should_quit == (old(self).should_quit || contains_quit(actions@)),
    {
        let n = actions.len();
        let mut i: usize = 0;
        while i < n
            invariant
                i <= n == actions@.len(),
                self.app == old(self).app,
                self.should_quit == (old(self).should_quit || contains_quit(
                    actions@.take(i as int),
                )),
            decreases n - i,
        {
            let a = actions[i];
            self.handle_input_event(a);
            proof {
                assert(actions@.take(i + 1).drop_last() =~= actions@.take(i as int));
                assert(actions@.take(i + 1).last() == actions@[i as int]);
                if contains_quit(actions@.take(i + 1)) && !contains_quit(actions@.take(i as int))
                    && !(actions@[i as int] is Quit) {
                    let j = choose|j: int|
                        0 <= j < actions@.take(i + 1).len() && #[trigger] actions@.take(i + 1)[j]
                            is Quit;
                    assert(actions@.take(i as int)[j] is Quit);
                }
            }
            i = i + 1;
        }
        proof {
            assert(actions@.take(n as int) =~= actions@);
        }
    }

    pub fn should_quit(&self) -> (r: bool)
        ensures
            r == self.should_quit,
    {
        self.should_quit
    }
}

/// What one iteration decides once the update step's outcome and the
/// input task's liveness are known, in the order the loop checks them.
pub open spec fn loop_directive_spec(
    update_ok: bool,
    input_task_finished: bool,
    should_quit: bool,
) -> LoopDirective {
    if !update_ok {
        LoopDirective::Stop(StopReason::UpdateFailed)
    } else if input_task_finished {
        LoopDirective::Stop(StopReason::InputTaskFinished)
    } else if should_quit {
        LoopDirective::Stop(StopReason::QuitRequested)
    } else {
        LoopDirective::Render
    }
}

/// The decision of one main-loop iteration after its update step: a
/// failed update, a finished input task, or a raised termination flag
/// stops the loop, in that order of precedence; otherwise the state is
/// rendered and the loop goes around.
pub fn loop_directive(update_ok: bool, input_task_finished: bool, should_quit: bool) -> (r:
    LoopDirective)
    ensures
        r == loop_directive_spec(update_ok, input_task_finished, should_quit),
{
    if !update_ok {
        LoopDirective::Stop(StopReason::UpdateFailed)
    } else if input_task_finished {
        LoopDirective::Stop(StopReason::InputTaskFinished)
    } else if should_quit {
        LoopDirective::Stop(StopReason::QuitRequested)
    } else {
        LoopDirective::Render
    }
}

/// How shutdown proceeds once the loop has stopped: report the outcome
/// of an input task that finished on its own, else cancel it and await
/// the cancellation.
pub fn shutdown_path(input_task_finished: bool) -> (r: ShutdownPath)
    ensures
        input_task_finished ==> r == ShutdownPath::ReportOutcome,
        !input_task_finished ==> r == ShutdownPath::CancelAndAwait,
{
    if input_task_finished {
        ShutdownPath::ReportOutcome
    } else {
        ShutdownPath::CancelAndAwait
    }
}

/// The key mapping of the input task: a pressed `q` requests
/// termination; every other event is ignored.
pub fn action_for_key(is_key_press: bool, key: Option<char>) -> (r: Option<Action>)
    ensures
        r == if is_key_press && key == Some('q') {
            Some(Action::Quit)
        } else {
            None::<Action>
        },
{
    if is_key_press {
        match key {
            Some(c) => if c == 'q' {
                Some(Action::Quit)
            } else {
                None
            },
            None => None,
        }
    } else {
        None
    }
}

/// Law: a quit action stops the loop within the iteration that drains
/// it. Draining a batch that contains a quit raises the termination
/// flag, and a loop whose update succeeded and whose input task is
/// alive then decides to stop for that reason rather than render.
pub proof fn lemma_quit_stops_loop(flag_before: bool, actions: Seq<Action>)
    requires
        contains_quit(actions),
    ensures
        loop_directive_spec(true, false, flag_before || contains_quit(actions))
            == LoopDirective::Stop(StopReason::QuitRequested),
{
}

} // verus!
