use build_watcher::build::{
    BuildEvent, BuildEventType, BuildLog, BuildManager, BuildResult, BuildRun, CurrentBuildInfo,
    Live, News, Outcome, Phase, Reaction, StreamStep, Task, BROADCAST_CHANNEL_SIZE,
};
use build_watcher::clock::LocalTime;
use build_watcher::config::{BuildStage, WatcherConfig};
use build_watcher::utils::BuildId;

fn stage(name: &str, program: &str, args: &[&str]) -> BuildStage {
    BuildStage {
        name: name.to_string(),
        program: program.to_string(),
        args: args.iter().map(|arg| arg.to_string()).collect(),
    }
}

fn config(stages: Vec<BuildStage>) -> WatcherConfig {
    WatcherConfig {
        ip: "127.0.0.1".to_string(),
        port: "9999".to_string(),
        build_dir: "builds/".to_string(),
        build_stages: stages,
        artifact_path: "dist".to_string(),
    }
}

fn two_stages() -> WatcherConfig {
    config(vec![
        stage("Fetch", "git", &["clone", "--depth", "1"]),
        stage("Compile", "make", &[]),
    ])
}

fn event(ty: BuildEventType, payload: &str, stage: usize) -> BuildEvent {
    BuildEvent { ty, payload: payload.to_string(), stage }
}

fn assert_event(event: Option<BuildEvent>, ty: BuildEventType, payload: &str, stage: usize) {
    let event = event.unwrap();
    assert_eq!(event.ty, ty);
    assert_eq!(event.payload, payload);
    assert_eq!(event.stage, stage);
}

const ID: BuildId = BuildId { inner: 1337 };

fn success() -> Outcome {
    Outcome::Exited { success: true, code: "exit status: 0".to_string() }
}

#[test]
fn a_run_goes_through_its_stages() {
    let config = two_stages();
    let mut run = BuildRun::new(ID);
    assert!(matches!(run.task(&config), Task::CreateDirectory(path) if path == "builds/LZ"));
    assert!(run.advance(&config, Outcome::DirectoryCreated).is_none());
    match run.task(&config) {
        Task::Spawn { program, args, dir } => {
            assert_eq!(program, "git");
            assert_eq!(args, vec!["clone", "--depth", "1"]);
            assert_eq!(dir, "builds/LZ");
        }
        other => panic!("{:?}", other),
    }
    assert!(run.advance(&config, Outcome::Spawned).is_none());
    assert!(matches!(run.task(&config), Task::Watch));
    assert_event(
        run.advance(&config, Outcome::Line("Cloning".to_string())),
        BuildEventType::Message,
        "Cloning",
        0,
    );
    assert!(run.advance(&config, Outcome::NoLine).is_none());
    assert_eq!(run.phase, Phase::Watch(0));
    assert_event(
        run.advance(&config, success()),
        BuildEventType::Message,
        "========== Stage completed successfully ==========",
        0,
    );
    assert_eq!(run.phase, Phase::Spawn(1));
    assert!(run.advance(&config, Outcome::Spawned).is_none());
    assert_event(
        run.advance(&config, success()),
        BuildEventType::Message,
        "========== Stage completed successfully ==========",
        1,
    );
    assert!(matches!(run.task(&config), Task::CheckArtifact(path) if path == "builds/LZ/dist"));
    assert!(run.advance(&config, Outcome::ArtifactFound).is_none());
    assert!(matches!(run.task(&config), Task::Nothing(BuildResult::Success)));
}

#[test]
fn a_missing_directory_fails_the_run() {
    let config = two_stages();
    let mut run = BuildRun::new(ID);
    assert_event(
        run.advance(&config, Outcome::DirectoryFailed("no space".to_string())),
        BuildEventType::Error,
        "Failed to create build directory at builds/LZ: no space",
        0,
    );
    assert!(matches!(run.task(&config), Task::Nothing(BuildResult::Failure)));
}

#[test]
fn a_program_that_does_not_start_fails_the_run() {
    let config = two_stages();
    let mut run = BuildRun::new(ID);
    run.advance(&config, Outcome::DirectoryCreated);
    assert_event(
        run.advance(&config, Outcome::SpawnFailed("not found".to_string())),
        BuildEventType::Error,
        "Failed to spawn command git with args [clone, --depth, 1]: not found",
        0,
    );
    assert_eq!(run.phase, Phase::Finished(BuildResult::Failure));
}

#[test]
fn a_program_that_fails_fails_the_run() {
    let config = two_stages();
    let mut run = BuildRun { id: ID, phase: Phase::Watch(1) };
    let exit = Outcome::Exited { success: false, code: "exit status: 2".to_string() };
    assert_event(
        run.advance(&config, exit),
        BuildEventType::Error,
        "Build failed with code exit status: 2",
        1,
    );
    assert_eq!(run.phase, Phase::Finished(BuildResult::Failure));
}

#[test]
fn an_unknown_exit_fails_the_run() {
    let config = two_stages();
    let mut run = BuildRun { id: ID, phase: Phase::Watch(0) };
    assert_event(
        run.advance(&config, Outcome::ExitUnknown("lost".to_string())),
        BuildEventType::Error,
        "Failed to get build status: lost",
        0,
    );
    assert_eq!(run.phase, Phase::Finished(BuildResult::Failure));
}

#[test]
fn a_missing_output_fails_the_run() {
    let config = two_stages();
    let mut run = BuildRun { id: ID, phase: Phase::CheckArtifact };
    assert_event(
        run.advance(&config, Outcome::ArtifactMissing),
        BuildEventType::Error,
        "Expected build output at builds/LZ/dist does not exist.",
        1,
    );
    assert_eq!(run.phase, Phase::Finished(BuildResult::Failure));
}

#[test]
fn a_build_without_stages_only_checks_its_output() {
    let config = config(vec![]);
    let mut run = BuildRun::new(ID);
    assert!(run.advance(&config, Outcome::DirectoryCreated).is_none());
    assert_eq!(run.phase, Phase::CheckArtifact);
    assert!(run.advance(&config, Outcome::ArtifactFound).is_none());
    assert_eq!(run.phase, Phase::Finished(BuildResult::Success));
}

#[test]
fn an_error_is_told_once_and_last() {
    let config = two_stages();
    let mut run = BuildRun::new(ID);
    let mut told: Vec<BuildEvent> = Vec::new();
    for outcome in [
        Outcome::DirectoryCreated,
        Outcome::Spawned,
        Outcome::Line("one".to_string()),
        success(),
        Outcome::Spawned,
        Outcome::Line("two".to_string()),
        Outcome::Exited { success: false, code: "signal: 9 (SIGKILL)".to_string() },
    ] {
        told.extend(run.advance(&config, outcome));
    }
    let errors: Vec<usize> =
        (0..told.len()).filter(|i| told[*i].ty == BuildEventType::Error).collect();
    assert_eq!(errors, vec![told.len() - 1]);
    let stages: Vec<usize> = told.iter().map(|event| event.stage).collect();
    assert_eq!(stages, vec![0, 0, 1, 1]);
    assert_eq!(run.phase, Phase::Finished(BuildResult::Failure));
}

#[test]
fn one_build_at_a_time() {
    let config = two_stages();
    let mut manager = BuildManager::new();
    assert!(!manager.is_building());
    assert_eq!(manager.start_build_as(&config, ID), Ok(ID));
    assert!(manager.is_building());
    assert_eq!(manager.start_build_as(&config, BuildId { inner: 1 }), Err(ID));
    assert_eq!(manager.start_build(&config), Err(ID));
    assert_eq!(manager.subscribe_build().unwrap().0, ID);
}

#[test]
fn a_started_build_gets_a_fresh_id() {
    let mut manager = BuildManager::new();
    let id = manager.start_build(&two_stages()).unwrap();
    assert_eq!((id.inner >> 76) & 0xf, 7);
    assert_eq!(manager.subscribe_build().unwrap().0, id);
    assert_eq!((CurrentBuildInfo::with_capacity(2).id.inner >> 76) & 0xf, 7);
}

#[test]
fn an_idle_manager_has_nothing_to_show() {
    let manager = BuildManager::new();
    assert!(manager.subscribe_build().is_none());
    assert!(manager.query_last_build().is_none());
}

#[test]
fn a_finished_build_is_the_last_one() {
    let config = two_stages();
    let now = LocalTime::new(1431648000, 0, 0).unwrap();
    let mut manager = BuildManager::new();
    manager.start_build_as(&config, ID).unwrap();
    let told = manager.record_event(event(BuildEventType::Message, "hello", 0));
    assert_eq!(told.payload, "hello");
    manager.record_event(event(BuildEventType::Error, "oh", 1));
    let finish = manager.finish_build_at(&config, now);
    assert_eq!(
        finish.announcement.unwrap(),
        "Server initialized: first build complete at LZ"
    );
    let writes: Vec<(String, String)> =
        finish.writes.into_iter().map(|write| (write.path, write.text)).collect();
    assert_eq!(
        writes,
        vec![
            ("builds/LZ/.watcher_log_0".to_string(), "hello\n".to_string()),
            ("builds/LZ/.watcher_err_1".to_string(), "oh\n".to_string()),
        ]
    );
    assert!(!manager.is_building());
    let last = manager.query_last_build().unwrap();
    assert_eq!(last.id, ID);
    assert_eq!(last.timestamp, now);
}

#[test]
fn only_the_first_build_is_announced() {
    let config = two_stages();
    let now = LocalTime::new(1431648000, 0, 0).unwrap();
    let mut manager = BuildManager::new();
    manager.start_build_as(&config, ID).unwrap();
    assert!(manager.finish_build_at(&config, now).announcement.is_some());
    manager.start_build_as(&config, BuildId { inner: 2 }).unwrap();
    assert_eq!(manager.query_last_build().unwrap().id, ID);
    assert!(manager.finish_build_at(&config, now).announcement.is_none());
    assert_eq!(manager.query_last_build().unwrap().id, BuildId { inner: 2 });
}

#[test]
fn news_are_taken_in() {
    let config = two_stages();
    let mut manager = BuildManager::new();
    manager.start_build_as(&config, ID).unwrap();
    let news = News::Event(event(BuildEventType::Message, "a", 0));
    assert!(matches!(
        manager.observe(&config, news),
        Reaction::Broadcast(event) if event.payload == "a"
    ));
    assert!(matches!(manager.observe(&config, News::Lagged), Reaction::Nothing));
    match manager.observe(&config, News::Closed) {
        Reaction::Finish(finish) => {
            assert_eq!(finish.writes.len(), 1);
            assert_eq!(finish.writes[0].path, "builds/LZ/.watcher_log_0");
        }
        other => panic!("{:?}", other),
    }
    assert!(!manager.is_building());
    assert_eq!(manager.query_last_build().unwrap().id, ID);
}

fn drain(log: BuildLog, live: Vec<Live>) -> Vec<String> {
    let mut stream = log.event_stream();
    let mut live = live.into_iter();
    let mut out = Vec::new();
    loop {
        match stream.next_step() {
            StreamStep::Yield(event) => out.push(event.payload),
            StreamStep::AwaitLive => match live.next() {
                Some(live) => out.extend(stream.on_live(live).map(|event| event.payload)),
                None => return out,
            },
            StreamStep::End => return out,
        }
    }
}

fn log_of(payloads: &[&str]) -> BuildLog {
    let mut log = BuildLog::with_capacity(payloads.len());
    for payload in payloads {
        log.log_event(event(BuildEventType::Message, payload, 0));
    }
    log
}

fn live(payload: &str) -> Live {
    Live::Event(event(BuildEventType::Message, payload, 0))
}

#[test]
fn a_follower_gets_the_past_and_the_rest() {
    let log = log_of(&["a", "b"]);
    let got = drain(log, vec![live("c"), live("d"), Live::Closed, live("e")]);
    assert_eq!(got, vec!["a", "b", "c", "d"]);
}

#[test]
fn a_follower_who_missed_something_is_left() {
    let got = drain(log_of(&["a"]), vec![live("b"), Live::Missed, live("c")]);
    assert_eq!(got, vec!["a", "b"]);
}

#[test]
fn a_follower_of_an_empty_log_waits() {
    assert_eq!(drain(log_of(&[]), vec![]), Vec::<String>::new());
    assert_eq!(drain(log_of(&[]), vec![live("a")]), vec!["a"]);
}

#[test]
fn a_subscriber_holds_a_snapshot() {
    let config = two_stages();
    let mut manager = BuildManager::new();
    manager.start_build_as(&config, ID).unwrap();
    manager.record_event(event(BuildEventType::Message, "a", 0));
    let (_, log) = manager.subscribe_build().unwrap();
    manager.record_event(event(BuildEventType::Message, "b", 0));
    assert_eq!(drain(log.clone(), vec![live("b")]), vec!["a", "b"]);
    assert_eq!(drain(log, vec![]), vec!["a"]);
}

#[test]
fn a_log_is_kept_by_stage_and_type() {
    let mut log = BuildLog::with_capacity(0);
    log.log_event(event(BuildEventType::Message, "one", 0));
    log.log_event(event(BuildEventType::Message, "two\nthree", 1));
    log.log_event(event(BuildEventType::Message, "four", 0));
    log.log_event(event(BuildEventType::Error, "", 1));
    let kept: Vec<(String, String)> =
        log.dump("dir").into_iter().map(|write| (write.path, write.text)).collect();
    assert_eq!(
        kept,
        vec![
            ("dir/.watcher_log_0".to_string(), "one\n".to_string()),
            ("dir/.watcher_log_1".to_string(), "two\nthree\n".to_string()),
            ("dir/.watcher_log_0".to_string(), "four\n".to_string()),
            ("dir/.watcher_err_1".to_string(), "\n".to_string()),
        ]
    );
}

#[test]
fn builds_share_no_log_file() {
    let config = two_stages();
    let now = LocalTime::new(1431648000, 0, 0).unwrap();
    let mut manager = BuildManager::new();
    let mut paths: Vec<String> = Vec::new();
    for inner in 1..20 {
        manager.start_build_as(&config, BuildId { inner }).unwrap();
        for stage in 0..2 {
            manager.record_event(event(BuildEventType::Message, "a", stage));
            manager.record_event(event(BuildEventType::Error, "b", stage));
        }
        let finish = manager.finish_build_at(&config, now);
        paths.extend(finish.writes.into_iter().map(|write| write.path));
    }
    let count = paths.len();
    paths.sort();
    paths.dedup();
    assert_eq!(paths.len(), count);
}

#[test]
fn channels_hold_this_many_events() {
    assert_eq!(BROADCAST_CHANNEL_SIZE, 250);
}
