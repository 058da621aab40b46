//! The run orchestrator: container options and the create / pull-on-miss
//! / start sequence, modelled as a state machine that the boundary
//! drives with the engine's answers.

use vstd::prelude::*;

verus! {

/// Options for one container run: the image reference, the injected
/// environment, and whether the container is removed on exit.
pub struct RunOpts {
    pub image: String,
    pub env: Option<Vec<(String, String)>>,
    pub remove: bool,
}

impl RunOpts {
    /// Builds run options; removal defaults to off.
    pub fn new(image: String, env: Option<Vec<(String, String)>>, remove: Option<bool>) -> (r: Self)
        ensures
            r.image == image,
            r.env == env,
            r.remove == (match remove {
                Some(b) => b,
                None => false,
            }),
    {
        let remove_flag = match remove {
            Some(b) => b,
            None => false,
        };
        Self { image, env, remove: remove_flag }
    }
}

/// One engine failure as the boundary reports it: the HTTP-level status
/// code when the engine gave one, and the engine's own message.
#[derive(Clone, Debug)]
pub struct EngineFailure {
    pub code: Option<u16>,
    pub message: String,
}

/// The distinguished condition that triggers the single pull-and-retry:
/// the engine answered the create with a not-found status.
pub open spec fn image_absent(f: EngineFailure) -> bool {
    f.code == Some(404u16)
}

/// Decides `image_absent` for one reported failure.
pub fn is_image_absent(f: &EngineFailure) -> (r: bool)
    ensures
        r == image_absent(*f),
{
    match f.code {
        Some(c) => c == 404,
        None => false,
    }
}

/// State of one run: which engine call is outstanding, or how the run
/// ended.
pub enum RunState {
    /// The first create is outstanding.
    Creating,
    /// The create missed the image; the pull is outstanding.
    Pulling,
    /// The pull succeeded; the single retried create is outstanding.
    Retrying,
    /// The container was created; the start is outstanding.
    Starting(String),
    /// The container is running; the run succeeded.
    Running(String),
    /// The run failed; no further engine call is made.
    Failed(EngineFailure),
}

/// One answer from the engine, as the boundary reports it.
pub enum RunEvent {
    CreateOk(String),
    CreateFailed(EngineFailure),
    PullOk,
    PullFailed(EngineFailure),
    StartOk,
    StartFailed(EngineFailure),
}

/// The engine call a state asks the boundary to make; terminal states
/// ask for none.
pub enum RunAction {
    /// Create a container from the run options.
    Create,
    /// Pull the image by its reference.
    Pull,
    /// Start the container with this id.
    Start(String),
}

/// The engine call outstanding in `state`.
pub fn run_action(state: &RunState) -> (r: Option<RunAction>)
    ensures
        state is Creating ==> (r matches Some(a) && a is Create),
        state is Pulling ==> (r matches Some(a) && a is Pull),
        state is Retrying ==> (r matches Some(a) && a is Create),
        (state matches RunState::Starting(id) ==> (r matches Some(a) && (a
            matches RunAction::Start(i) && i == id))),
        state is Running || state is Failed ==> r is None,
{
    match state {
        RunState::Creating => Some(RunAction::Create),
        RunState::Pulling => Some(RunAction::Pull),
        RunState::Retrying => Some(RunAction::Create),
        RunState::Starting(id) => Some(RunAction::Start(id.clone())),
        RunState::Running(_) => None,
        RunState::Failed(_) => None,
    }
}

/// Which events answer the call outstanding in a state.
pub open spec fn run_event_fits(state: RunState, event: RunEvent) -> bool {
    match state {
        RunState::Creating => event is CreateOk || event is CreateFailed,
        RunState::Pulling => event is PullOk || event is PullFailed,
        RunState::Retrying => event is CreateOk || event is CreateFailed,
        RunState::Starting(_) => event is StartOk || event is StartFailed,
        RunState::Running(_) => false,
        RunState::Failed(_) => false,
    }
}

/// The orchestrator's transition function. A not-found answer to the
/// first create leads to one pull and one retried create; any other
/// failure, anywhere, ends the run.
pub open spec fn run_next(state: RunState, event: RunEvent) -> RunState {
    match state {
        RunState::Creating => match event {
            RunEvent::CreateOk(id) => RunState::Starting(id),
            RunEvent::CreateFailed(f) => if image_absent(f) {
                RunState::Pulling
            } else {
                RunState::Failed(f)
            },
            _ => state,
        },
        RunState::Pulling => match event {
            RunEvent::PullOk => RunState::Retrying,
            RunEvent::PullFailed(f) => RunState::Failed(f),
            _ => state,
        },
        RunState::Retrying => match event {
            RunEvent::CreateOk(id) => RunState::Starting(id),
            RunEvent::CreateFailed(f) => RunState::Failed(f),
            _ => state,
        },
        RunState::Starting(id) => match event {
            RunEvent::StartOk => RunState::Running(id),
            RunEvent::StartFailed(f) => RunState::Failed(f),
            _ => state,
        },
        _ => state,
    }
}

/// Drives one run one step forward with the engine's answer.
pub fn run_step(state: RunState, event: RunEvent) -> (r: RunState)
    requires
        run_event_fits(state, event),
    ensures
        r == run_next(state, event),
{
    match state {
        RunState::Creating => match event {
            RunEvent::CreateOk(id) => RunState::Starting(id),
            RunEvent::CreateFailed(f) => {
                if is_image_absent(&f) {
                    RunState::Pulling
                } else {
                    RunState::Failed(f)
                }
            },
            _ => RunState::Creating,
        },
        RunState::Pulling => match event {
            RunEvent::PullOk => RunState::Retrying,
            RunEvent::PullFailed(f) => RunState::Failed(f),
            _ => RunState::Pulling,
        },
        RunState::Retrying => match event {
            RunEvent::CreateOk(id) => RunState::Starting(id),
            RunEvent::CreateFailed(f) => RunState::Failed(f),
            _ => RunState::Retrying,
        },
        RunState::Starting(id) => match event {
            RunEvent::StartOk => RunState::Running(id),
            RunEvent::StartFailed(f) => RunState::Failed(f),
            _ => RunState::Starting(id),
        },
        s => s,
    }
}

/// The state of a run after it consumes `events`, starting from the
/// first create.
pub open spec fn run_state_after(events: Seq<RunEvent>) -> RunState
    decreases events.len(),
{
    if events.len() == 0 {
        RunState::Creating
    } else {
        run_next(run_state_after(events.drop_last()), events.last())
    }
}

/// A run whose events all answer the outstanding call.
pub open spec fn run_trace_fits(events: Seq<RunEvent>) -> bool {
    forall|k: int|
        0 <= k < events.len() ==> run_event_fits(
            run_state_after(#[trigger] events.take(k)),
            events[k],
        )
}

/// Progress measure: every fitting step strictly advances it.
pub open spec fn run_phase(state: RunState) -> int {
    match state {
        RunState::Creating => 0,
        RunState::Pulling => 1,
        RunState::Retrying => 2,
        RunState::Starting(_) => 3,
        RunState::Running(_) => 4,
        RunState::Failed(_) => 4,
    }
}

proof fn lemma_run_prefix_step(events: Seq<RunEvent>, k: int)
    requires
        0 <= k < events.len(),
    ensures
        run_state_after(events.take(k + 1)) == run_next(
            run_state_after(events.take(k)),
            events[k],
        ),
{
    assert(events.take(k + 1).drop_last() =~= events.take(k));
    assert(events.take(k + 1).last() == events[k]);
}

proof fn lemma_run_phase_progress(events: Seq<RunEvent>, k: int)
    requires
        run_trace_fits(events),
        0 <= k <= events.len(),
    ensures
        run_phase(run_state_after(events.take(k))) >= k,
    decreases k,
{
    if k == 0 {
        assert(events.take(0) =~= Seq::<RunEvent>::empty());
    } else {
        lemma_run_phase_progress(events, k - 1);
        lemma_run_prefix_step(events, k - 1);
    }
}

proof fn lemma_run_phase_monotone(events: Seq<RunEvent>, k: int, m: int)
    requires
        run_trace_fits(events),
        0 <= k <= m <= events.len(),
    ensures
        run_phase(run_state_after(events.take(m))) >= run_phase(run_state_after(events.take(k))) + (
        m - k),
    decreases m - k,
{
    if m > k {
        lemma_run_phase_monotone(events, k, m - 1);
        lemma_run_prefix_step(events, m - 1);
    }
}

/// The pull discipline of a run. Writing `state k` for the state after
/// the first `k` answers, whose outstanding call `run_action` gives:
/// when the first create does not miss the image, no state of the run
/// ever asks for a pull; when it does miss, exactly one state asks for
/// a pull — the one reached at once — and at most one state asks for
/// the retried create, reached exactly when the pull succeeds.
pub proof fn lemma_pull_discipline(events: Seq<RunEvent>)
    requires
        run_trace_fits(events),
    ensures
        (events.len() == 0 || !(events[0] matches RunEvent::CreateFailed(f) && image_absent(f)))
            ==> forall|k: int| 0 <= k <= events.len() ==> !(run_state_after(
            #[trigger] events.take(k),
        ) is Pulling),
        (events.len() >= 1 && (events[0] matches RunEvent::CreateFailed(f) && image_absent(f)))
            ==> run_state_after(events.take(1)) is Pulling,
        forall|k: int|
            0 <= k <= events.len() && run_state_after(#[trigger] events.take(k)) is Pulling ==> k
                == 1,
        forall|k: int|
            0 <= k <= events.len() && run_state_after(#[trigger] events.take(k)) is Retrying ==> k
                == 2,
        (events.len() >= 2 && run_state_after(events.take(1)) is Pulling) ==> (run_state_after(
            events.take(2),
        ) is Retrying <==> events[1] is PullOk),
{
    assert(events.take(0) =~= Seq::<RunEvent>::empty());
    if events.len() >= 1 {
        lemma_run_prefix_step(events, 0);
    }
    assert forall|k: int|
        0 <= k <= events.len() && run_state_after(#[trigger] events.take(k)) is Pulling implies k
        == 1 by {
        lemma_run_phase_progress(events, k);
        if k == 0 {
        } else if k > 1 {
            lemma_run_phase_monotone(events, 1, k);
        }
    }
    assert forall|k: int|
        0 <= k <= events.len() && run_state_after(#[trigger] events.take(k)) is Retrying implies k
        == 2 by {
        lemma_run_phase_progress(events, k);
        if k == 1 {
            lemma_run_prefix_step(events, 0);
        } else if k > 2 {
            lemma_run_phase_monotone(events, 2, k);
        }
    }
    if events.len() >= 2 {
        lemma_run_prefix_step(events, 1);
    }
    if events.len() == 0 || !(events[0] matches RunEvent::CreateFailed(f) && image_absent(f)) {
        assert forall|k: int| 0 <= k <= events.len() implies !(run_state_after(
            #[trigger] events.take(k),
        ) is Pulling) by {
            if k == 1 {
                lemma_run_prefix_step(events, 0);
            }
        }
    }
}

} // verus!
