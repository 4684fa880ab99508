//! Shutting the application down once, whichever trigger asks first.

use vstd::prelude::*;

verus! {

/// Whether a shutdown is under way. It starts idle, turns to closing with
/// the first trigger, and never turns back.
#[derive(Debug, Clone, Copy, PartialEq, Eq)]
pub enum ShutdownState {
    Idle,
    Closing,
}

/// The sources that may ask for a shutdown.
#[derive(Debug, Clone, Copy, PartialEq, Eq)]
pub enum Trigger {
    /// The user asked to close the window.
    WindowClose,
    /// The operating system sent an interrupt.
    Interrupt,
    /// The host runtime is about to exit.
    ExitRequested,
}

/// One step of the shutdown.
#[derive(Debug, Clone, Copy, PartialEq, Eq)]
pub enum ShutdownStep {
    /// Keep the trigger from taking its usual effect, so that the host stays
    /// alive until the cleanup is over.
    DeferDefault(Trigger),
    /// Run the stop of the worker to its end.
    StopWorker,
    /// Wait this long for the operating system to tear the process down.
    Wait { millis: u64 },
    /// Terminate the host process with this exit code.
    ExitHost { code: i32 },
}

/// The steps that the winning trigger takes, in their order: the worker is
/// stopped before the host exits, and the grace delay, where one is
/// configured, lies between the two.
pub open spec fn shutdown_steps(trigger: Trigger, grace_millis: Option<u64>) -> Seq<ShutdownStep> {
    let wait = match grace_millis {
        Some(millis) => seq![ShutdownStep::Wait { millis }],
        None => seq![],
    };
    seq![ShutdownStep::DeferDefault(trigger), ShutdownStep::StopWorker] + wait
        + seq![ShutdownStep::ExitHost { code: 0 }]
}

/// What a trigger is to do, given the state it finds.
pub open spec fn response_to(
    state: ShutdownState,
    trigger: Trigger,
    grace_millis: Option<u64>,
) -> Seq<ShutdownStep> {
    match state {
        ShutdownState::Idle => shutdown_steps(trigger, grace_millis),
        ShutdownState::Closing => seq![],
    }
}

/// What each of a run of triggers is to do, the first of which finds the
/// state `state`. Every trigger leaves the state closing.
pub open spec fn responses(
    state: ShutdownState,
    triggers: Seq<Trigger>,
    grace_millis: Option<u64>,
) -> Seq<Seq<ShutdownStep>>
    decreases triggers.len(),
{
    if triggers.len() == 0 {
        seq![]
    } else {
        seq![response_to(state, triggers[0], grace_millis)] + responses(
            ShutdownState::Closing,
            triggers.skip(1),
            grace_millis,
        )
    }
}

/// How many of the responses ask for the worker to be stopped.
pub open spec fn stops_asked(responses: Seq<Seq<ShutdownStep>>) -> nat
    decreases responses.len(),
{
    if responses.len() == 0 {
        0
    } else {
        let here: nat = if responses[0].contains(ShutdownStep::StopWorker) {
            1
        } else {
            0
        };
        here + stops_asked(responses.skip(1))
    }
}

impl ShutdownState {
    /// The state with which the application starts.
    pub fn new() -> (state: Self)
        ensures
            state == ShutdownState::Idle,
    {
        ShutdownState::Idle
    }

    /// The state that a flag stands for: closing where it is set.
    pub fn from_flag(closing: bool) -> (state: Self)
        ensures
            state == if closing {
                ShutdownState::Closing
            } else {
                ShutdownState::Idle
            },
    {
        if closing {
            ShutdownState::Closing
        } else {
            ShutdownState::Idle
        }
    }

    /// Sets the state to closing and says whether it was idle before: the
    /// one caller that gets `true` runs the shutdown.
    pub fn test_and_set(&mut self) -> (won: bool)
        ensures
            won == (*old(self) == ShutdownState::Idle),
            *final(self) == ShutdownState::Closing,
    {
        let won = match self {
            ShutdownState::Idle => true,
            ShutdownState::Closing => false,
        };
        *self = ShutdownState::Closing;
        won
    }

    /// Answers one trigger. The first trigger gets the steps of the
    /// shutdown; every later one gets nothing to do.
    pub fn on_trigger(&mut self, trigger: Trigger, grace_millis: Option<u64>) -> (steps: Vec<
        ShutdownStep,
    >)
        ensures
            steps@ == response_to(*old(self), trigger, grace_millis),
            *final(self) == ShutdownState::Closing,
    {
        let mut steps: Vec<ShutdownStep> = Vec::new();
        if self.test_and_set() {
            steps.push(ShutdownStep::DeferDefault(trigger));
            steps.push(ShutdownStep::StopWorker);
            match grace_millis {
                Some(millis) => {
                    steps.push(ShutdownStep::Wait { millis });
                },
                None => {},
            }
            steps.push(ShutdownStep::ExitHost { code: 0 });
        }
        assert(steps@ =~= response_to(*old(self), trigger, grace_millis));
        steps
    }
}

/// Once the state is closing, no trigger asks for anything.
pub proof fn lemma_closing_stays_quiet(triggers: Seq<Trigger>, grace_millis: Option<u64>)
    ensures
        responses(ShutdownState::Closing, triggers, grace_millis).len() == triggers.len(),
        forall|i: int|
            0 <= i < triggers.len() ==> (#[trigger] responses(
                ShutdownState::Closing,
                triggers,
                grace_millis,
            )[i]).len() == 0,
        stops_asked(responses(ShutdownState::Closing, triggers, grace_millis)) == 0,
    decreases triggers.len(),
{
    if triggers.len() > 0 {
        let rest = triggers.skip(1);
        lemma_closing_stays_quiet(rest, grace_millis);
        let all = responses(ShutdownState::Closing, triggers, grace_millis);
        let tail = responses(ShutdownState::Closing, rest, grace_millis);
        assert(all.skip(1) =~= tail);
        assert forall|i: int| 0 <= i < triggers.len() implies (#[trigger] all[i]).len() == 0 by {
            if i > 0 {
                assert(all[i] == tail[i - 1]);
            }
        }
    }
}

/// However many triggers fire, and in whatever order, exactly one of them
/// runs the shutdown: the first gets all the steps, with the stop of the
/// worker before the exit of the host, and the others get none.
pub proof fn lemma_exactly_one_shutdown(triggers: Seq<Trigger>, grace_millis: Option<u64>)
    requires
        triggers.len() > 0,
    ensures
        responses(ShutdownState::Idle, triggers, grace_millis).len() == triggers.len(),
        responses(ShutdownState::Idle, triggers, grace_millis)[0] == shutdown_steps(
            triggers[0],
            grace_millis,
        ),
        forall|i: int|
            1 <= i < triggers.len() ==> (#[trigger] responses(
                ShutdownState::Idle,
                triggers,
                grace_millis,
            )[i]).len() == 0,
        stops_asked(responses(ShutdownState::Idle, triggers, grace_millis)) == 1,
{
    let rest = triggers.skip(1);
    lemma_closing_stays_quiet(rest, grace_millis);
    let all = responses(ShutdownState::Idle, triggers, grace_millis);
    let tail = responses(ShutdownState::Closing, rest, grace_millis);
    assert(all.skip(1) =~= tail);
    assert(shutdown_steps(triggers[0], grace_millis)[1] == ShutdownStep::StopWorker);
    assert forall|i: int| 1 <= i < triggers.len() implies (#[trigger] all[i]).len() == 0 by {
        assert(all[i] == tail[i - 1]);
    }
}

} // verus!
