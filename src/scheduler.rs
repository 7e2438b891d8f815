use vstd::prelude::*;
use crate::keys::{is_quit, is_quit_key, KeyEvent};

verus! {

/// What the host is waiting on.
#[derive(Clone, Copy, Debug, PartialEq, Eq, Structural)]
pub enum Phase {
    /// Compiling and linking the module.
    Loading,
    /// The guest's one-time `init` runs.
    Starting,
    /// The terminal is switched to raw mode and the alternate screen.
    EnteringTerminal,
    /// The guest's `draw` runs.
    Drawing,
    /// The host copies the guest's output to the terminal.
    Flushing,
    /// The host blocks for one terminal event.
    AwaitingInput,
    /// The host puts a key event into the guest's input channel.
    QueueingKey,
    /// The guest's `handle_key` runs.
    HandlingKey,
    /// The session is over; only the exit is left.
    Shutdown,
}

/// How the work last asked for came out.
#[derive(Clone, Copy, Debug, PartialEq, Eq, Structural)]
pub enum Outcome {
    /// It finished.
    Done,
    /// It failed: a compile, link, memory or terminal error, or a guest fault.
    Failed,
    /// A key was read from the terminal.
    Key(KeyEvent),
    /// Some other terminal event was read (a resize, the mouse).
    OtherInput,
}

/// The work the host is to do next.
///
/// Guest calls (`CallInit`, `CallDraw`, `CallHandleKey`) and work on the
/// shared channels (`FlushOutput`, `QueueKey`) are separate actions: the host
/// holds the sandbox lock only within one channel action, so it is never held
/// while a guest export runs and re-enters the host.
#[derive(Clone, Copy, Debug, PartialEq, Eq, Structural)]
pub enum Action {
    CallInit,
    EnterTerminal,
    CallDraw,
    FlushOutput,
    ReadInput,
    QueueKey(KeyEvent),
    CallHandleKey,
    RestoreTerminal,
    /// End the process, with success or not.
    Exit(bool),
}

/// The frame loop's decisions: `Init → {Render → Flush → AwaitInput}* → Shutdown`.
#[derive(Clone, Copy, Debug, PartialEq, Eq, Structural)]
pub struct Scheduler {
    pub phase: Phase,
    /// Whether the terminal has left its normal mode and not been restored.
    pub terminal_active: bool,
    /// Whether the session has failed.
    pub failed: bool,
}

pub open spec fn is_guest_call(a: Action) -> bool {
    a == Action::CallInit || a == Action::CallDraw || a == Action::CallHandleKey
}

pub open spec fn touches_channels(a: Action) -> bool {
    a == Action::FlushOutput || a is QueueKey
}

/// The state after the `Shutdown` phase is entered, with the action that goes with it.
pub open spec fn stop(s: Scheduler, failed: bool) -> (Scheduler, Action) {
    if s.terminal_active {
        (Scheduler { phase: Phase::Shutdown, terminal_active: false, failed }, Action::RestoreTerminal)
    } else {
        (Scheduler { phase: Phase::Shutdown, terminal_active: false, failed }, Action::Exit(!failed))
    }
}

/// One transition: the next state and action, given how the last action came out.
pub open spec fn transition(s: Scheduler, o: Outcome) -> (Scheduler, Action) {
    let go = |p: Phase| Scheduler { phase: p, ..s };
    match s.phase {
        Phase::Shutdown => (
            Scheduler { failed: s.failed || o == Outcome::Failed, ..s },
            Action::Exit(!(s.failed || o == Outcome::Failed)),
        ),
        _ => if o == Outcome::Failed {
            stop(s, true)
        } else {
            match s.phase {
                Phase::Loading => (go(Phase::Starting), Action::CallInit),
                Phase::Starting => (
                    Scheduler { phase: Phase::EnteringTerminal, terminal_active: true, ..s },
                    Action::EnterTerminal,
                ),
                Phase::EnteringTerminal => (go(Phase::Drawing), Action::CallDraw),
                Phase::Drawing => (go(Phase::Flushing), Action::FlushOutput),
                Phase::Flushing => (go(Phase::AwaitingInput), Action::ReadInput),
                Phase::AwaitingInput => match o {
                    Outcome::Key(k) => if is_quit(k) {
                        stop(s, false)
                    } else {
                        (go(Phase::QueueingKey), Action::QueueKey(k))
                    },
                    _ => (go(Phase::Drawing), Action::CallDraw),
                },
                Phase::QueueingKey => (go(Phase::HandlingKey), Action::CallHandleKey),
                _ => (go(Phase::Drawing), Action::CallDraw),
            }
        }
    }
}

/// The actions issued, one per outcome, from `s` on.
pub open spec fn run(s: Scheduler, os: Seq<Outcome>) -> Seq<Action>
    decreases os.len(),
{
    if os.len() == 0 {
        Seq::empty()
    } else {
        let (t, a) = transition(s, os[0]);
        seq![a] + run(t, os.drop_first())
    }
}

/// A session about to load its module, with the terminal untouched.
pub open spec fn fresh() -> Scheduler {
    Scheduler { phase: Phase::Loading, terminal_active: false, failed: false }
}

impl Scheduler {
    /// A session about to load its module; the terminal is untouched.
    pub fn new() -> (r: Self)
        ensures
            r == fresh(),
    {
        Scheduler { phase: Phase::Loading, terminal_active: false, failed: false }
    }

    fn stop(&mut self, failed: bool) -> (r: Action)
        ensures
            (*final(self), r) == stop(*old(self), failed),
    {
        let restore = self.terminal_active;
        self.phase = Phase::Shutdown;
        self.terminal_active = false;
        self.failed = failed;
        if restore {
            Action::RestoreTerminal
        } else {
            Action::Exit(!failed)
        }
    }

    /// Takes how the last action came out and returns the next one.
    pub fn step(&mut self, o: Outcome) -> (r: Action)
        ensures
            (*final(self), r) == transition(*old(self), o),
    {
        if self.phase == Phase::Shutdown {
            self.failed = self.failed || o == Outcome::Failed;
            return Action::Exit(!self.failed);
        }
        if o == Outcome::Failed {
            return self.stop(true);
        }
        match self.phase {
            Phase::Loading => {
                self.phase = Phase::Starting;
                Action::CallInit
            },
            Phase::Starting => {
                self.phase = Phase::EnteringTerminal;
                self.terminal_active = true;
                Action::EnterTerminal
            },
            Phase::EnteringTerminal => {
                self.phase = Phase::Drawing;
                Action::CallDraw
            },
            Phase::Drawing => {
                self.phase = Phase::Flushing;
                Action::FlushOutput
            },
            Phase::Flushing => {
                self.phase = Phase::AwaitingInput;
                Action::ReadInput
            },
            Phase::AwaitingInput => match o {
                Outcome::Key(k) => if is_quit_key(&k) {
                    self.stop(false)
                } else {
                    self.phase = Phase::QueueingKey;
                    Action::QueueKey(k)
                },
                _ => {
                    self.phase = Phase::Drawing;
                    Action::CallDraw
                },
            },
            Phase::QueueingKey => {
                self.phase = Phase::HandlingKey;
                Action::CallHandleKey
            },
            _ => {
                self.phase = Phase::Drawing;
                Action::CallDraw
            },
        }
    }
}

/// No action both calls into the guest and works on the shared channels.
pub proof fn lemma_guest_calls_hold_no_lock(s: Scheduler, o: Outcome)
    ensures
        !(is_guest_call(transition(s, o).1) && touches_channels(transition(s, o).1)),
{
}

/// Once shut down, a session only exits: it neither calls the guest nor
/// touches the terminal again.
pub proof fn lemma_shutdown_is_final(s: Scheduler, os: Seq<Outcome>)
    requires
        s.phase == Phase::Shutdown,
        !s.terminal_active,
    ensures
        forall|i: int| 0 <= i < run(s, os).len() ==> #[trigger] run(s, os)[i] is Exit,
    decreases os.len(),
{
    if os.len() > 0 {
        let (t, a) = transition(s, os[0]);
        lemma_shutdown_is_final(t, os.drop_first());
        assert forall|i: int| 0 <= i < run(s, os).len() implies #[trigger] run(s, os)[i] is Exit by {
            if i > 0 {
                assert(run(s, os)[i] == run(t, os.drop_first())[i - 1]);
            }
        }
    }
}

/// The quit key, read while awaiting input, ends the session at once: the
/// guest's `handle_key` is not called, and the terminal is restored once and
/// never again, whatever follows.
pub proof fn lemma_quit_restores_once(s: Scheduler, k: KeyEvent, os: Seq<Outcome>)
    requires
        s.phase == Phase::AwaitingInput,
        s.terminal_active,
        is_quit(k),
    ensures
        transition(s, Outcome::Key(k)).0.phase == Phase::Shutdown,
        transition(s, Outcome::Key(k)).1 == Action::RestoreTerminal,
        forall|i: int|
            0 <= i < run(transition(s, Outcome::Key(k)).0, os).len() ==> #[trigger] run(
                transition(s, Outcome::Key(k)).0,
                os,
            )[i] is Exit,
{
    lemma_shutdown_is_final(transition(s, Outcome::Key(k)).0, os);
}

/// A module that fails to load or link ends the session before any guest code
/// runs and without the terminal ever leaving its normal mode.
pub proof fn lemma_load_failure_leaves_terminal(os: Seq<Outcome>)
    ensures
        transition(fresh(), Outcome::Failed).1 == Action::Exit(false),
        forall|i: int|
            0 <= i < run(transition(fresh(), Outcome::Failed).0, os).len() ==> #[trigger] run(
                transition(fresh(), Outcome::Failed).0,
                os,
            )[i] == Action::Exit(false),
{
    lemma_failed_exits(transition(fresh(), Outcome::Failed).0, os);
}

proof fn lemma_failed_exits(t: Scheduler, os: Seq<Outcome>)
    requires
        t == (Scheduler { phase: Phase::Shutdown, terminal_active: false, failed: true }),
    ensures
        forall|i: int| 0 <= i < run(t, os).len() ==> #[trigger] run(t, os)[i] == Action::Exit(false),
    decreases os.len(),
{
    if os.len() > 0 {
        lemma_failed_exits(t, os.drop_first());
        assert forall|i: int| 0 <= i < run(t, os).len() implies #[trigger] run(t, os)[i] == Action::Exit(false) by {
            if i > 0 {
                assert(run(t, os)[i] == run(t, os.drop_first())[i - 1]);
            }
        }
    }
}

} // verus!
