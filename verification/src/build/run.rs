//! One run of a build: the directory, the stages one after the other, the expected output.
use vstd::prelude::*;

use crate::build::events::{BuildEvent, BuildEventType, EventView};
use crate::config::{ConfigView, WatcherConfig};
use crate::paths::path_join;
use crate::text::{join_strings, joined, texts};
use crate::utils::BuildId;

verus! {

/// How a run ended.
#[derive(Clone, Copy, Debug, PartialEq, Eq, Structural)]
pub enum BuildResult {
    Success,
    Failure,
}

/// What a run is about to do. The number is the place of a stage.
#[derive(Clone, Copy, Debug, PartialEq, Eq, Structural)]
pub enum Phase {
    /// Make the directory of the build.
    CreateDirectory,
    /// Start the program of a stage.
    Spawn(usize),
    /// Follow the program of a stage.
    Watch(usize),
    /// Look for the expected output.
    CheckArtifact,
    /// Nothing any more.
    Finished(BuildResult),
}

/// One run of the build `id`.
#[derive(Debug)]
pub struct BuildRun {
    pub id: BuildId,
    pub phase: Phase,
}

/// What is to be done for a run.
#[derive(Debug)]
pub enum Task {
    /// Make this directory, and those above it.
    CreateDirectory(String),
    /// Start a program in a directory, with its output captured.
    Spawn { program: String, args: Vec<String>, dir: String },
    /// Wait for a line of output, or for the program to end.
    Watch,
    /// See whether something exists at this path.
    CheckArtifact(String),
    /// Nothing: the run has ended.
    Nothing(BuildResult),
}

/// How a task went. The texts are those of errors and exit codes.
#[derive(Debug)]
pub enum Outcome {
    DirectoryCreated,
    DirectoryFailed(String),
    Spawned,
    SpawnFailed(String),
    /// The program wrote a line.
    Line(String),
    /// One of the outputs gave no line: it has ended, or could not be read.
    NoLine,
    Exited { success: bool, code: String },
    /// The program ended, and how could not be found out.
    ExitUnknown(String),
    ArtifactFound,
    ArtifactMissing,
}

/// What a run is about to do, as a spec.
pub enum PhaseView {
    CreateDirectory,
    Spawn(nat),
    Watch(nat),
    CheckArtifact,
    Finished(BuildResult),
}

/// What is to be done for a run, as a spec.
pub enum TaskView {
    CreateDirectory(Seq<char>),
    Spawn { program: Seq<char>, args: Seq<Seq<char>>, dir: Seq<char> },
    Watch,
    CheckArtifact(Seq<char>),
    Nothing(BuildResult),
}

/// How a task went, as a spec.
pub enum OutcomeView {
    DirectoryCreated,
    DirectoryFailed(Seq<char>),
    Spawned,
    SpawnFailed(Seq<char>),
    Line(Seq<char>),
    NoLine,
    Exited { success: bool, code: Seq<char> },
    ExitUnknown(Seq<char>),
    ArtifactFound,
    ArtifactMissing,
}

impl View for Phase {
    type V = PhaseView;

    open spec fn view(&self) -> PhaseView {
        match *self {
            Phase::CreateDirectory => PhaseView::CreateDirectory,
            Phase::Spawn(stage) => PhaseView::Spawn(stage as nat),
            Phase::Watch(stage) => PhaseView::Watch(stage as nat),
            Phase::CheckArtifact => PhaseView::CheckArtifact,
            Phase::Finished(result) => PhaseView::Finished(result),
        }
    }
}

impl View for Task {
    type V = TaskView;

    open spec fn view(&self) -> TaskView {
        match self {
            Task::CreateDirectory(path) => TaskView::CreateDirectory(path@),
            Task::Spawn { program, args, dir } => TaskView::Spawn {
                program: program@,
                args: texts(args@),
                dir: dir@,
            },
            Task::Watch => TaskView::Watch,
            Task::CheckArtifact(path) => TaskView::CheckArtifact(path@),
            Task::Nothing(result) => TaskView::Nothing(*result),
        }
    }
}

impl View for Outcome {
    type V = OutcomeView;

    open spec fn view(&self) -> OutcomeView {
        match self {
            Outcome::DirectoryCreated => OutcomeView::DirectoryCreated,
            Outcome::DirectoryFailed(error) => OutcomeView::DirectoryFailed(error@),
            Outcome::Spawned => OutcomeView::Spawned,
            Outcome::SpawnFailed(error) => OutcomeView::SpawnFailed(error@),
            Outcome::Line(line) => OutcomeView::Line(line@),
            Outcome::NoLine => OutcomeView::NoLine,
            Outcome::Exited { success, code } => OutcomeView::Exited {
                success: *success,
                code: code@,
            },
            Outcome::ExitUnknown(error) => OutcomeView::ExitUnknown(error@),
            Outcome::ArtifactFound => OutcomeView::ArtifactFound,
            Outcome::ArtifactMissing => OutcomeView::ArtifactMissing,
        }
    }
}

/// The phase exists in a build of `stages` stages.
pub open spec fn phase_exists(stages: nat, phase: PhaseView) -> bool {
    match phase {
        PhaseView::Spawn(stage) => stage < stages,
        PhaseView::Watch(stage) => stage < stages,
        _ => true,
    }
}

/// The outcome can come of what is done in the phase, in a build of `stages` stages. That the
/// output is missing is told as an event of the last stage, so there must be one.
pub open spec fn can_come_of(stages: nat, phase: PhaseView, outcome: OutcomeView) -> bool {
    match phase {
        PhaseView::CreateDirectory => outcome is DirectoryCreated || outcome is DirectoryFailed,
        PhaseView::Spawn(_) => outcome is Spawned || outcome is SpawnFailed,
        PhaseView::Watch(_) => {
            ||| outcome is Line
            ||| outcome is NoLine
            ||| outcome is Exited
            ||| outcome is ExitUnknown
        },
        PhaseView::CheckArtifact => {
            outcome is ArtifactFound || (outcome is ArtifactMissing && stages > 0)
        },
        PhaseView::Finished(_) => false,
    }
}

/// The outcome is that something failed.
pub open spec fn is_failure(outcome: OutcomeView) -> bool {
    ||| outcome is DirectoryFailed
    ||| outcome is SpawnFailed
    ||| outcome matches OutcomeView::Exited { success: false, .. }
    ||| outcome is ExitUnknown
    ||| outcome is ArtifactMissing
}

/// The phase in which the stage `stage` starts; the check of the output after the last stage.
pub open spec fn stage_start(stages: nat, stage: nat) -> PhaseView {
    if stage < stages {
        PhaseView::Spawn(stage)
    } else {
        PhaseView::CheckArtifact
    }
}

/// What is to be done in a phase.
pub open spec fn task_in(config: ConfigView, id: BuildId, phase: PhaseView) -> TaskView {
    match phase {
        PhaseView::CreateDirectory => TaskView::CreateDirectory(config.build_subdirectory(id)),
        PhaseView::Spawn(stage) => TaskView::Spawn {
            program: config.build_stages[stage as int].program,
            args: config.build_stages[stage as int].args,
            dir: config.build_subdirectory(id),
        },
        PhaseView::Watch(_) => TaskView::Watch,
        PhaseView::CheckArtifact => TaskView::CheckArtifact(config.artifact(id)),
        PhaseView::Finished(result) => TaskView::Nothing(result),
    }
}

/// The phase that follows.
pub open spec fn next_phase(stages: nat, phase: PhaseView, outcome: OutcomeView) -> PhaseView {
    match (phase, outcome) {
        (PhaseView::CreateDirectory, OutcomeView::DirectoryCreated) => stage_start(stages, 0),
        (PhaseView::Spawn(stage), OutcomeView::Spawned) => PhaseView::Watch(stage),
        (PhaseView::Watch(_), OutcomeView::Line(_)) => phase,
        (PhaseView::Watch(_), OutcomeView::NoLine) => phase,
        (PhaseView::Watch(stage), OutcomeView::Exited { success: true, .. }) => stage_start(
            stages,
            stage + 1,
        ),
        (PhaseView::CheckArtifact, OutcomeView::ArtifactFound) => PhaseView::Finished(
            BuildResult::Success,
        ),
        _ => PhaseView::Finished(BuildResult::Failure),
    }
}

/// The error event with this payload.
pub open spec fn error_event(payload: Seq<char>, stage: nat) -> EventView {
    EventView { ty: BuildEventType::Error, payload, stage }
}

/// The message event with this payload.
pub open spec fn message_event(payload: Seq<char>, stage: nat) -> EventView {
    EventView { ty: BuildEventType::Message, payload, stage }
}

/// What is told of an outcome.
pub open spec fn event_of(
    config: ConfigView,
    id: BuildId,
    phase: PhaseView,
    outcome: OutcomeView,
) -> Option<EventView> {
    match (phase, outcome) {
        (PhaseView::CreateDirectory, OutcomeView::DirectoryFailed(error)) => Some(
            error_event(
                "Failed to create build directory at "@ + config.build_subdirectory(id) + ": "@
                    + error,
                0,
            ),
        ),
        (PhaseView::Spawn(stage), OutcomeView::SpawnFailed(error)) => Some(
            error_event(
                "Failed to spawn command "@ + config.build_stages[stage as int].program
                    + " with args ["@ + joined(config.build_stages[stage as int].args, ", "@)
                    + "]: "@ + error,
                stage,
            ),
        ),
        (PhaseView::Watch(stage), OutcomeView::Line(line)) => Some(message_event(line, stage)),
        (PhaseView::Watch(stage), OutcomeView::Exited { success: true, .. }) => Some(
            message_event("========== Stage completed successfully =========="@, stage),
        ),
        (PhaseView::Watch(stage), OutcomeView::Exited { success: false, code }) => Some(
            error_event("Build failed with code "@ + code, stage),
        ),
        (PhaseView::Watch(stage), OutcomeView::ExitUnknown(error)) => Some(
            error_event("Failed to get build status: "@ + error, stage),
        ),
        (PhaseView::CheckArtifact, OutcomeView::ArtifactMissing) => Some(
            error_event(
                "Expected build output at "@ + config.artifact(id) + " does not exist."@,
                (config.build_stages.len() - 1) as nat,
            ),
        ),
        _ => None,
    }
}

/// Two texts, one after the other.
fn concat(first: &str, second: &str) -> (r: String)
    ensures
        r@ == first@ + second@,
{
    let mut out = first.to_owned();
    out.append(second);
    out
}

/// A copy of the strings, in their order.
fn clone_strings(strings: &Vec<String>) -> (r: Vec<String>)
    ensures
        texts(r@) == texts(strings@),
{
    let mut out: Vec<String> = Vec::new();
    let mut i: usize = 0;
    while i < strings.len()
        invariant
            i <= strings.len(),
            texts(out@) == texts(strings@).take(i as int),
        decreases strings.len() - i,
    {
        let ghost before = out@;
        out.push(strings[i].clone());
        assert(texts(out@) =~= texts(before).push(strings@[i as int]@));
        assert(texts(strings@).take(i + 1) =~= texts(strings@).take(i as int).push(
            strings@[i as int]@,
        ));
        i += 1;
    }
    assert(texts(strings@).take(strings@.len() as int) =~= texts(strings@));
    out
}

impl BuildRun {
    /// A run of the build `id` that has yet to do its first task.
    pub fn new(id: BuildId) -> (r: Self)
        ensures
            r.id == id,
            r.phase@ == PhaseView::CreateDirectory,
    {
        BuildRun { id, phase: Phase::CreateDirectory }
    }

    /// What is to be done next.
    pub fn task(&self, config: &WatcherConfig) -> (r: Task)
        requires
            phase_exists(config@.build_stages.len(), self.phase@),
        ensures
            r@ == task_in(config@, self.id, self.phase@),
            self.phase matches Phase::Spawn(stage) ==> {
                &&& r matches Task::Spawn { program, args, dir }
                &&& program@ == config.build_stages@[stage as int].program@
                &&& texts(args@) == texts(config.build_stages@[stage as int].args@)
                &&& dir@ == config@.build_subdirectory(self.id)
            },
            self.phase matches Phase::Watch(_) ==> r is Watch,
            self.phase matches Phase::Finished(result) ==> r == Task::Nothing(result),
    {
        match self.phase {
            Phase::CreateDirectory => Task::CreateDirectory(config.build_subdirectory_of(self.id)),
            Phase::Spawn(stage) => {
                let build_stage = &config.build_stages[stage];
                Task::Spawn {
                    program: build_stage.program.clone(),
                    args: clone_strings(&build_stage.args),
                    dir: config.build_subdirectory_of(self.id),
                }
            },
            Phase::Watch(_) => Task::Watch,
            Phase::CheckArtifact => Task::CheckArtifact(config.artifact_path_of(self.id)),
            Phase::Finished(result) => Task::Nothing(result),
        }
    }

    /// Takes in how the task went, and gives the event that tells of it.
    pub fn advance(&mut self, config: &WatcherConfig, outcome: Outcome) -> (r: Option<BuildEvent>)
        requires
            phase_exists(config@.build_stages.len(), old(self).phase@),
            can_come_of(config@.build_stages.len(), old(self).phase@, outcome@),
        ensures
            final(self).id == old(self).id,
            final(self).phase@ == next_phase(
                config@.build_stages.len(),
                old(self).phase@,
                outcome@,
            ),
            phase_exists(config@.build_stages.len(), final(self).phase@),
            match r {
                Some(event) => Some(event@),
                None => None,
            } == event_of(config@, old(self).id, old(self).phase@, outcome@),
            // What failed ends the run, and is told as an error; nothing else does.
            is_failure(outcome@) <==> final(self).phase == Phase::Finished(BuildResult::Failure),
            is_failure(outcome@) <==> (r matches Some(event) && event.ty == BuildEventType::Error),
            outcome is ArtifactFound <==> final(self).phase == Phase::Finished(
                BuildResult::Success,
            ),
            // The output is told as it came, under the stage whose program wrote it.
            outcome matches Outcome::Line(line) ==> {
                &&& old(self).phase matches Phase::Watch(stage)
                &&& r matches Some(event)
                &&& event.ty == BuildEventType::Message
                &&& event.payload@ == line@
                &&& event.stage == stage
            },
    {
        let stages: usize = config.build_stages.len();
        let event = self.event_for(config, &outcome);
        self.phase = match (self.phase, outcome) {
            (Phase::CreateDirectory, Outcome::DirectoryCreated) => Self::start_of(0, stages),
            (Phase::Spawn(stage), Outcome::Spawned) => Phase::Watch(stage),
            (Phase::Watch(stage), Outcome::Line(_)) => Phase::Watch(stage),
            (Phase::Watch(stage), Outcome::NoLine) => Phase::Watch(stage),
            (Phase::Watch(stage), Outcome::Exited { success: true, .. }) => Self::start_of(
                stage + 1,
                stages,
            ),
            (Phase::CheckArtifact, Outcome::ArtifactFound) => Phase::Finished(
                BuildResult::Success,
            ),
            _ => Phase::Finished(BuildResult::Failure),
        };
        event
    }

    /// The phase in which the stage `stage` starts; the check of the output after the last one.
    fn start_of(stage: usize, stages: usize) -> (r: Phase)
        ensures
            r@ == stage_start(stages as nat, stage as nat),
    {
        if stage < stages {
            Phase::Spawn(stage)
        } else {
            Phase::CheckArtifact
        }
    }

    /// The event that tells of an outcome.
    fn event_for(&self, config: &WatcherConfig, outcome: &Outcome) -> (r: Option<BuildEvent>)
        requires
            phase_exists(config@.build_stages.len(), self.phase@),
            can_come_of(config@.build_stages.len(), self.phase@, outcome@),
        ensures
            match r {
                Some(event) => Some(event@),
                None => None,
            } == event_of(config@, self.id, self.phase@, outcome@),
    {
        let ty = BuildEventType::Error;
        match (self.phase, outcome) {
            (Phase::CreateDirectory, Outcome::DirectoryFailed(error)) => {
                let mut payload = "Failed to create build directory at ".to_owned();
                payload.append(config.build_subdirectory_of(self.id).as_str());
                payload.append(": ");
                payload.append(error.as_str());
                Some(BuildEvent { ty, payload, stage: 0 })
            },
            (Phase::Spawn(stage), Outcome::SpawnFailed(error)) => {
                let build_stage = &config.build_stages[stage];
                let mut payload = "Failed to spawn command ".to_owned();
                payload.append(build_stage.program.as_str());
                payload.append(" with args [");
                payload.append(join_strings(&build_stage.args, ", ").as_str());
                payload.append("]: ");
                payload.append(error.as_str());
                Some(BuildEvent { ty, payload, stage })
            },
            (Phase::Watch(stage), Outcome::Line(line)) => Some(
                BuildEvent { ty: BuildEventType::Message, payload: line.clone(), stage },
            ),
            (Phase::Watch(stage), Outcome::Exited { success: true, .. }) => Some(
                BuildEvent {
                    ty: BuildEventType::Message,
                    payload: "========== Stage completed successfully ==========".to_owned(),
                    stage,
                },
            ),
            (Phase::Watch(stage), Outcome::Exited { success: false, code }) => Some(
                BuildEvent { ty, payload: concat("Build failed with code ", code.as_str()), stage },
            ),
            (Phase::Watch(stage), Outcome::ExitUnknown(error)) => Some(
                BuildEvent {
                    ty,
                    payload: concat("Failed to get build status: ", error.as_str()),
                    stage,
                },
            ),
            (Phase::CheckArtifact, Outcome::ArtifactMissing) => {
                let mut payload = "Expected build output at ".to_owned();
                payload.append(config.artifact_path_of(self.id).as_str());
                payload.append(" does not exist.");
                Some(BuildEvent { ty, payload, stage: config.build_stages.len() - 1 })
            },
            _ => None,
        }
    }
}

/// The phase of a run in a build of `stages` stages, after these outcomes.
pub open spec fn phase_after(stages: nat, outcomes: Seq<OutcomeView>) -> PhaseView
    decreases outcomes.len(),
{
    if outcomes.len() == 0 {
        PhaseView::CreateDirectory
    } else {
        next_phase(stages, phase_after(stages, outcomes.drop_last()), outcomes.last())
    }
}

/// The outcomes can follow each other from the start of a run in a build of `stages` stages.
pub open spec fn is_run(stages: nat, outcomes: Seq<OutcomeView>) -> bool
    decreases outcomes.len(),
{
    outcomes.len() > 0 ==> {
        &&& is_run(stages, outcomes.drop_last())
        &&& can_come_of(stages, phase_after(stages, outcomes.drop_last()), outcomes.last())
    }
}

/// What is told of the outcomes of a run of the build `id`.
pub open spec fn events_after(
    config: ConfigView,
    id: BuildId,
    outcomes: Seq<OutcomeView>,
) -> Seq<EventView>
    decreases outcomes.len(),
{
    if outcomes.len() == 0 {
        Seq::empty()
    } else {
        let before = events_after(config, id, outcomes.drop_last());
        let phase = phase_after(config.build_stages.len(), outcomes.drop_last());
        match event_of(config, id, phase, outcomes.last()) {
            Some(event) => before.push(event),
            None => before,
        }
    }
}

/// How many programs ended well.
pub open spec fn stages_completed(outcomes: Seq<OutcomeView>) -> nat
    decreases outcomes.len(),
{
    if outcomes.len() == 0 {
        0
    } else {
        let before = stages_completed(outcomes.drop_last());
        if outcomes.last() matches OutcomeView::Exited { success: true, .. } {
            before + 1
        } else {
            before
        }
    }
}

/// The stage that a phase belongs to; the last one where the output is looked for.
pub open spec fn stage_of(stages: nat, phase: PhaseView) -> nat {
    match phase {
        PhaseView::Spawn(stage) => stage,
        PhaseView::Watch(stage) => stage,
        PhaseView::CheckArtifact if stages > 0 => (stages - 1) as nat,
        _ => 0,
    }
}

/// A run is always in a phase that its build has.
pub proof fn law_run_stays_in_range(stages: nat, outcomes: Seq<OutcomeView>)
    requires
        is_run(stages, outcomes),
    ensures
        phase_exists(stages, phase_after(stages, outcomes)),
    decreases outcomes.len(),
{
    if outcomes.len() > 0 {
        law_run_stays_in_range(stages, outcomes.drop_last());
    }
}

/// Once a run has ended nothing comes of it any more.
pub proof fn law_finished_run_is_over(
    stages: nat,
    outcomes: Seq<OutcomeView>,
    outcome: OutcomeView,
)
    requires
        phase_after(stages, outcomes) is Finished,
    ensures
        !is_run(stages, outcomes.push(outcome)),
{
    assert(outcomes.push(outcome).drop_last() =~= outcomes);
}

/// A run goes through the stages one after the other and skips none: a stage starts once as many
/// programs as there are stages before it ended well, and the output is looked for, and the run
/// succeeds, once as many ended well as there are stages.
pub proof fn law_stages_run_in_order(stages: nat, outcomes: Seq<OutcomeView>)
    requires
        is_run(stages, outcomes),
    ensures
        match phase_after(stages, outcomes) {
            PhaseView::CreateDirectory => stages_completed(outcomes) == 0,
            PhaseView::Spawn(stage) => stages_completed(outcomes) == stage,
            PhaseView::Watch(stage) => stages_completed(outcomes) == stage,
            PhaseView::CheckArtifact => stages_completed(outcomes) == stages,
            PhaseView::Finished(BuildResult::Success) => {
                stages_completed(outcomes) == stages && outcomes.last() is ArtifactFound
            },
            PhaseView::Finished(BuildResult::Failure) => stages_completed(outcomes) <= stages,
        },
    decreases outcomes.len(),
{
    if outcomes.len() > 0 {
        law_run_stays_in_range(stages, outcomes.drop_last());
        law_stages_run_in_order(stages, outcomes.drop_last());
    }
}

/// A run fails exactly if it tells an error: then the error is the last thing told, and the only
/// error. In particular a run that succeeds tells none.
pub proof fn law_failure_is_told_once_and_last(
    config: ConfigView,
    id: BuildId,
    outcomes: Seq<OutcomeView>,
)
    requires
        is_run(config.build_stages.len(), outcomes),
    ensures
        ({
            let events = events_after(config, id, outcomes);
            let failed = phase_after(config.build_stages.len(), outcomes) == PhaseView::Finished(
                BuildResult::Failure,
            );
            &&& failed ==> events.len() > 0 && events.last().ty == BuildEventType::Error
            &&& forall|i: int|
                0 <= i < events.len() && (#[trigger] events[i]).ty == BuildEventType::Error
                    ==> failed && i == events.len() - 1
        }),
    decreases outcomes.len(),
{
    if outcomes.len() > 0 {
        law_failure_is_told_once_and_last(config, id, outcomes.drop_last());
        law_run_stays_in_range(config.build_stages.len(), outcomes.drop_last());
    }
}

/// Each event of a run names a stage of its build, and none names an earlier stage than the one
/// told before it. (Of a build without stages only stage 0 is ever named.)
pub proof fn law_events_follow_the_stages(
    config: ConfigView,
    id: BuildId,
    outcomes: Seq<OutcomeView>,
)
    requires
        is_run(config.build_stages.len(), outcomes),
    ensures
        ({
            let events = events_after(config, id, outcomes);
            &&& forall|i: int|
                0 <= i < events.len() ==> (#[trigger] events[i]).stage
                    < config.build_stages.len() || events[i].stage == 0
            &&& forall|i: int, j: int|
                0 <= i <= j < events.len() ==> (#[trigger] events[i]).stage <= (
                #[trigger] events[j]).stage
        }),
{
    lemma_events_follow_the_stages(config, id, outcomes);
}

proof fn lemma_events_follow_the_stages(
    config: ConfigView,
    id: BuildId,
    outcomes: Seq<OutcomeView>,
)
    requires
        is_run(config.build_stages.len(), outcomes),
    ensures
        ({
            let events = events_after(config, id, outcomes);
            let stages = config.build_stages.len();
            let phase = phase_after(stages, outcomes);
            &&& forall|i: int|
                0 <= i < events.len() ==> {
                    &&& (#[trigger] events[i]).stage < stages || events[i].stage == 0
                    &&& phase is Finished || events[i].stage <= stage_of(stages, phase)
                }
            &&& forall|i: int, j: int|
                0 <= i <= j < events.len() ==> (#[trigger] events[i]).stage <= (
                #[trigger] events[j]).stage
        }),
    decreases outcomes.len(),
{
    if outcomes.len() > 0 {
        law_run_stays_in_range(config.build_stages.len(), outcomes.drop_last());
        lemma_events_follow_the_stages(config, id, outcomes.drop_last());
    }
}

/// The programs that were started, in their order, each with its arguments and its directory.
pub open spec fn spawns(
    config: ConfigView,
    id: BuildId,
    outcomes: Seq<OutcomeView>,
) -> Seq<TaskView>
    decreases outcomes.len(),
{
    if outcomes.len() == 0 {
        Seq::empty()
    } else {
        let before = spawns(config, id, outcomes.drop_last());
        let phase = phase_after(config.build_stages.len(), outcomes.drop_last());
        if outcomes.last() is Spawned {
            before.push(task_in(config, id, phase))
        } else {
            before
        }
    }
}

/// The programs that a run starts are those of the configured stages, each with its own arguments,
/// from the first one on and in their order, in the directory named after the build; a run that
/// comes to look for the output has started every one of them.
pub proof fn law_each_stage_runs_its_own_program(
    config: ConfigView,
    id: BuildId,
    outcomes: Seq<OutcomeView>,
)
    requires
        is_run(config.build_stages.len(), outcomes),
    ensures
        ({
            let started = spawns(config, id, outcomes);
            let stages = config.build_stages;
            let phase = phase_after(stages.len(), outcomes);
            &&& started.len() <= stages.len()
            &&& phase is CheckArtifact || phase == PhaseView::Finished(BuildResult::Success)
                ==> started.len() == stages.len()
            &&& forall|k: int|
                0 <= k < started.len() ==> {
                    &&& #[trigger] started[k] matches TaskView::Spawn { program, args, dir }
                    &&& program == stages[k].program
                    &&& args == stages[k].args
                    &&& dir == path_join(config.build_dir, id.spec_text())
                }
        }),
{
    law_stages_run_in_order(config.build_stages.len(), outcomes);
    law_run_stays_in_range(config.build_stages.len(), outcomes);
    lemma_spawns(config, id, outcomes);
}

proof fn lemma_spawns(config: ConfigView, id: BuildId, outcomes: Seq<OutcomeView>)
    requires
        is_run(config.build_stages.len(), outcomes),
    ensures
        ({
            let started = spawns(config, id, outcomes);
            let stages = config.build_stages;
            &&& match phase_after(stages.len(), outcomes) {
                PhaseView::Watch(stage) => started.len() == stage + 1,
                PhaseView::Finished(BuildResult::Failure) => started.len() <= stages.len(),
                _ => started.len() == stages_completed(outcomes),
            }
            &&& forall|k: int|
                0 <= k < started.len() ==> #[trigger] started[k] == (TaskView::Spawn {
                    program: stages[k].program,
                    args: stages[k].args,
                    dir: path_join(config.build_dir, id.spec_text()),
                })
        }),
    decreases outcomes.len(),
{
    law_stages_run_in_order(config.build_stages.len(), outcomes);
    law_run_stays_in_range(config.build_stages.len(), outcomes);
    if outcomes.len() > 0 {
        law_stages_run_in_order(config.build_stages.len(), outcomes.drop_last());
        law_run_stays_in_range(config.build_stages.len(), outcomes.drop_last());
        lemma_spawns(config, id, outcomes.drop_last());
    }
}

/// What a run does next is fixed by the last outcome and by how many programs ended well: first it
/// makes its directory; then, and after each program that ended well, it starts the program of the
/// next stage, or looks for the output once there is none; a program that was started is followed
/// until it ends; the output ends the run well; whatever failed ends it.
pub proof fn law_task_follows_the_outcomes(
    config: ConfigView,
    id: BuildId,
    outcomes: Seq<OutcomeView>,
)
    requires
        is_run(config.build_stages.len(), outcomes),
    ensures
        ({
            let task = task_in(config, id, phase_after(config.build_stages.len(), outcomes));
            let done = stages_completed(outcomes);
            let dir = path_join(config.build_dir, id.spec_text());
            if outcomes.len() == 0 {
                task == TaskView::CreateDirectory(dir)
            } else if is_failure(outcomes.last()) {
                task == TaskView::Nothing(BuildResult::Failure)
            } else {
                match outcomes.last() {
                    OutcomeView::ArtifactFound => task == TaskView::Nothing(BuildResult::Success),
                    OutcomeView::Spawned => task is Watch,
                    OutcomeView::Line(_) => task is Watch,
                    OutcomeView::NoLine => task is Watch,
                    _ if done < config.build_stages.len() => task == (TaskView::Spawn {
                        program: config.build_stages[done as int].program,
                        args: config.build_stages[done as int].args,
                        dir,
                    }),
                    _ => task == TaskView::CheckArtifact(path_join(dir, config.artifact_path)),
                }
            }
        }),
{
    law_stages_run_in_order(config.build_stages.len(), outcomes);
    if outcomes.len() > 0 {
        law_stages_run_in_order(config.build_stages.len(), outcomes.drop_last());
        law_run_stays_in_range(config.build_stages.len(), outcomes.drop_last());
    }
}

/// A run has failed exactly if the last thing that happened is that something failed, in whatever
/// stage; and it has succeeded exactly if the last thing that happened is that the output was found.
pub proof fn law_failure_ends_the_run(stages: nat, outcomes: Seq<OutcomeView>)
    requires
        is_run(stages, outcomes),
        outcomes.len() > 0,
    ensures
        is_failure(outcomes.last()) <==> phase_after(stages, outcomes) == PhaseView::Finished(
            BuildResult::Failure,
        ),
        outcomes.last() is ArtifactFound <==> phase_after(stages, outcomes) == PhaseView::Finished(
            BuildResult::Success,
        ),
        forall|i: int|
            0 <= i < outcomes.len() && is_failure(#[trigger] outcomes[i]) ==> i == outcomes.len()
                - 1,
    decreases outcomes.len(),
{
    let before = outcomes.drop_last();
    law_run_stays_in_range(stages, before);
    if before.len() > 0 {
        law_failure_ends_the_run(stages, before);
        assert forall|i: int|
            0 <= i < outcomes.len() && is_failure(#[trigger] outcomes[i]) implies i
            == outcomes.len() - 1 by {
            if i < before.len() {
                assert(before[i] == outcomes[i]);
                assert(is_failure(before.last()));
            }
        }
    }
}

/// What can happen next in a run is fixed by the last outcome and by how many programs ended well.
pub proof fn law_what_can_happen(
    stages: nat,
    outcomes: Seq<OutcomeView>,
    outcome: OutcomeView,
)
    requires
        is_run(stages, outcomes),
    ensures
        is_run(stages, outcomes.push(outcome)) <==> {
            if outcomes.len() == 0 {
                outcome is DirectoryCreated || outcome is DirectoryFailed
            } else if is_failure(outcomes.last()) || outcomes.last() is ArtifactFound {
                false
            } else if outcomes.last() is DirectoryCreated || outcomes.last() is Exited {
                if stages_completed(outcomes) < stages {
                    outcome is Spawned || outcome is SpawnFailed
                } else {
                    outcome is ArtifactFound || (outcome is ArtifactMissing && stages > 0)
                }
            } else {
                ||| outcome is Line
                ||| outcome is NoLine
                ||| outcome is Exited
                ||| outcome is ExitUnknown
            }
        },
{
    assert(outcomes.push(outcome).drop_last() =~= outcomes);
    law_stages_run_in_order(stages, outcomes);
    if outcomes.len() > 0 {
        law_stages_run_in_order(stages, outcomes.drop_last());
        law_run_stays_in_range(stages, outcomes.drop_last());
    }
}

/// `text` is `start` and then `end`.
pub open spec fn reads(text: Seq<char>, start: Seq<char>, end: Seq<char>) -> bool {
    &&& start.is_prefix_of(text)
    &&& end.is_suffix_of(text)
    &&& text.len() == start.len() + end.len()
}

/// What is told of each thing that happens in a run, whatever happened before: a line of output as
/// it came, a program that ended well as a message, and each failure as one error that says what
/// failed and how, all of the stage that is running; of the rest nothing is told.
pub proof fn law_what_is_told(
    config: ConfigView,
    id: BuildId,
    outcomes: Seq<OutcomeView>,
    outcome: OutcomeView,
)
    requires
        is_run(config.build_stages.len(), outcomes.push(outcome)),
    ensures
        ({
            let before = events_after(config, id, outcomes);
            let after = events_after(config, id, outcomes.push(outcome));
            let done = stages_completed(outcomes);
            let stages = config.build_stages;
            let dir = path_join(config.build_dir, id.spec_text());
            let told = after.last();
            match outcome {
                OutcomeView::DirectoryCreated => after == before,
                OutcomeView::Spawned => after == before,
                OutcomeView::NoLine => after == before,
                OutcomeView::ArtifactFound => after == before,
                OutcomeView::Line(line) => {
                    after == before.push(
                        EventView { ty: BuildEventType::Message, payload: line, stage: done },
                    )
                },
                OutcomeView::Exited { success: true, .. } => {
                    &&& after == before.push(told)
                    &&& told.ty == BuildEventType::Message
                    &&& told.payload == "========== Stage completed successfully =========="@
                    &&& told.stage == done
                },
                OutcomeView::Exited { success: false, code } => {
                    &&& after == before.push(told)
                    &&& told.ty == BuildEventType::Error
                    &&& reads(told.payload, "Build failed with code "@, code)
                    &&& told.stage == done
                },
                OutcomeView::ExitUnknown(error) => {
                    &&& after == before.push(told)
                    &&& told.ty == BuildEventType::Error
                    &&& reads(told.payload, "Failed to get build status: "@, error)
                    &&& told.stage == done
                },
                OutcomeView::DirectoryFailed(error) => {
                    &&& after == before.push(told)
                    &&& told.ty == BuildEventType::Error
                    &&& reads(
                        told.payload,
                        "Failed to create build directory at "@ + dir,
                        ": "@ + error,
                    )
                    &&& told.stage == 0
                },
                OutcomeView::SpawnFailed(error) => {
                    &&& after == before.push(told)
                    &&& told.ty == BuildEventType::Error
                    &&& reads(
                        told.payload,
                        "Failed to spawn command "@ + stages[done as int].program
                            + " with args ["@ + joined(stages[done as int].args, ", "@),
                        "]: "@ + error,
                    )
                    &&& told.stage == done
                },
                OutcomeView::ArtifactMissing => {
                    &&& after == before.push(told)
                    &&& told.ty == BuildEventType::Error
                    &&& reads(
                        told.payload,
                        "Expected build output at "@ + path_join(dir, config.artifact_path),
                        " does not exist."@,
                    )
                    &&& told.stage + 1 == stages.len()
                },
            }
        }),
{
    let all = outcomes.push(outcome);
    assert(all.drop_last() =~= outcomes);
    assert(all.last() == outcome);
    law_stages_run_in_order(config.build_stages.len(), outcomes);
    law_run_stays_in_range(config.build_stages.len(), outcomes);
    let after = events_after(config, id, all);
    if event_of(
        config,
        id,
        phase_after(config.build_stages.len(), outcomes),
        outcome,
    ) is Some {
        let payload = after.last().payload;
        let dir = path_join(config.build_dir, id.spec_text());
        let done = stages_completed(outcomes);
        match outcome {
            OutcomeView::Exited { success: false, code } => {
                lemma_reads(payload, "Build failed with code "@, code);
            },
            OutcomeView::ExitUnknown(error) => {
                lemma_reads(payload, "Failed to get build status: "@, error);
            },
            OutcomeView::DirectoryFailed(error) => {
                lemma_reads(
                    payload,
                    "Failed to create build directory at "@ + dir,
                    ": "@ + error,
                );
            },
            OutcomeView::SpawnFailed(error) => {
                lemma_reads(
                    payload,
                    "Failed to spawn command "@ + config.build_stages[done as int].program
                        + " with args ["@ + joined(
                        config.build_stages[done as int].args,
                        ", "@,
                    ),
                    "]: "@ + error,
                );
            },
            OutcomeView::ArtifactMissing => {
                lemma_reads(
                    payload,
                    "Expected build output at "@ + path_join(dir, config.artifact_path),
                    " does not exist."@,
                );
            },
            _ => {},
        }
    }
}

proof fn lemma_reads(text: Seq<char>, start: Seq<char>, end: Seq<char>)
    requires
        text =~= start + end,
    ensures
        reads(text, start, end),
{
    assert(text.subrange(0, start.len() as int) =~= start);
    assert(text.subrange(text.len() - end.len(), text.len() as int) =~= end);
}

} // verus!
