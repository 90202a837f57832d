use build_watcher::clock::LocalTime;
use build_watcher::config::{
    default_build_dir, default_ip, default_port, BuildStage, WatcherConfig,
};
use build_watcher::paths::join_path;
use build_watcher::state::GlobalServeState;
use build_watcher::text::{characters, decimal_text, find, join_strings};
use build_watcher::utils::BuildId;
use std::path::Path;

fn config(build_dir: &str, artifact_path: &str) -> WatcherConfig {
    WatcherConfig {
        ip: default_ip(),
        port: default_port(),
        build_dir: build_dir.to_string(),
        build_stages: vec![BuildStage {
            name: "Compile".to_string(),
            program: "make".to_string(),
            args: vec![],
        }],
        artifact_path: artifact_path.to_string(),
    }
}

#[test]
fn defaults() {
    assert_eq!(default_ip(), "127.0.0.1");
    assert_eq!(default_port(), "9999");
    assert_eq!(default_build_dir(), "builds/");
}

#[test]
fn paths_are_joined() {
    assert_eq!(join_path("builds/", "LZ"), "builds/LZ");
    assert_eq!(join_path("builds", "LZ"), "builds/LZ");
    assert_eq!(join_path("", "LZ"), "LZ");
    assert_eq!(join_path("/", "LZ"), "/LZ");
    assert_eq!(join_path("builds", "/srv/out"), "/srv/out");
    assert_eq!(join_path("builds", ""), "builds/");
    assert_eq!(join_path("b\u{fc}ilds", "\u{e9}t\u{e9}"), "b\u{fc}ilds/\u{e9}t\u{e9}");
}

#[test]
fn paths_are_joined_as_the_system_joins_them() {
    let bases = ["", "/", "a", "a/", "/a/b", "a//", "b\u{fc}", "."];
    let children = ["", "x", "/x", "x/y", "x/", ".hidden", "..", "/"];
    for base in bases {
        for child in children {
            let joined = Path::new(base).join(child);
            assert_eq!(Path::new(&join_path(base, child)).as_os_str(), joined.as_os_str());
        }
    }
}

#[test]
fn builds_have_directories_of_their_own() {
    let config = config("builds/", "dist");
    let a = BuildId { inner: 1337 };
    let b = BuildId { inner: 1338 };
    assert_eq!(config.build_subdirectory_of(a), "builds/LZ");
    assert_eq!(config.artifact_path_of(a), "builds/LZ/dist");
    assert_ne!(config.build_subdirectory_of(a), config.build_subdirectory_of(b));
    assert!(config.build_subdirectory_of(b).starts_with("builds/"));
}

#[test]
fn artifact_may_stand_elsewhere() {
    let config = config("builds", "/srv/site");
    assert_eq!(config.artifact_path_of(BuildId { inner: 1337 }), "/srv/site");
}

#[test]
fn numerals_and_lists() {
    assert_eq!(decimal_text(0), "0");
    assert_eq!(decimal_text(10), "10");
    assert_eq!(decimal_text(9075), "9075");
    let parts = vec!["a".to_string(), "b".to_string(), "".to_string()];
    assert_eq!(join_strings(&parts, ", "), "a, b, ");
    assert_eq!(join_strings(&vec!["a".to_string()], ", "), "a");
    assert_eq!(join_strings(&vec![], ", "), "");
}

#[test]
fn markers_are_found() {
    let text = characters("abcabd");
    assert_eq!(find(&text, &characters("ab")), Some(0));
    assert_eq!(find(&text, &characters("abd")), Some(3));
    assert_eq!(find(&text, &characters("d")), Some(5));
    assert_eq!(find(&text, &characters("abe")), None);
    assert_eq!(find(&text, &characters("")), Some(0));
    assert_eq!(find(&characters(""), &characters("a")), None);
}

#[test]
fn moments_are_shown() {
    let midnight = LocalTime::new(1431648000, 0, 0).unwrap();
    assert_eq!(midnight.finished_at_text(), "May 15 at 12:00 AM (+00:00)");
    let evening = LocalTime::new(1431648000, 999_999_999, -18000).unwrap();
    assert_eq!(evening.finished_at_text(), "May 14 at 07:00 PM (-05:00)");
    let noon = LocalTime::new(1431648000 + 43200 + 59, 0, 0).unwrap();
    assert_eq!(noon.finished_at_text(), "May 15 at 12:00 PM (+00:00)");
}

#[test]
fn moments_stay_in_the_calendar() {
    assert!(LocalTime::new(8210266876799, 999_999_999, 86_399).is_some());
    assert!(LocalTime::new(8210266876800, 0, 0).is_none());
    assert!(LocalTime::new(-8334601228800, 0, -86_399).is_some());
    assert!(LocalTime::new(-8334601228801, 0, 0).is_none());
    assert!(LocalTime::new(0, 1_000_000_000, 0).is_none());
    assert!(LocalTime::new(0, 0, 86_400).is_none());
    assert!(LocalTime::new(0, 0, -86_400).is_none());
}

#[test]
fn first_and_last_moment_can_be_shown() {
    let last = LocalTime::new(8210266876799, 0, 86_399).unwrap();
    assert_eq!(last.finished_at_text(), "January 01 at 11:59 PM (+23:59:59)");
    let first = LocalTime::new(-8334601228800, 0, -86_399).unwrap();
    assert_eq!(first.finished_at_text(), "December 31 at 12:00 AM (-23:59:59)");
}

#[test]
fn the_present_is_a_moment() {
    let now = LocalTime::now();
    let later = LocalTime::now();
    assert!(!now.finished_at_text().is_empty());
    assert!(later.finished_at_text().ends_with(')'));
}

#[test]
fn state_is_set_up_once() {
    let mut state = GlobalServeState::new();
    assert!(!state.is_initialized());
    let now = LocalTime::new(1431648000, 0, 0).unwrap();
    state.initialize_at(BuildId { inner: 1 }, config("first", "out"), now);
    state.initialize(BuildId { inner: 2 }, config("second", "out"));
    assert!(state.is_initialized());
    assert_eq!(state.deref().last_build.id, BuildId { inner: 1 });
    assert_eq!(state.deref().last_build.timestamp, now);
    assert_eq!(state.deref().config.build_dir, "first");
    assert!(state.deref().current_build.is_none());
}

#[test]
fn state_is_set_up_at_the_present() {
    let mut state = GlobalServeState::new();
    state.initialize(BuildId { inner: 3 }, config("builds", "out"));
    assert_eq!(state.deref().last_build.id, BuildId { inner: 3 });
}
