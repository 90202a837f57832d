use build_watcher::build::{BuildEvent, BuildEventType, BuildManager, LastBuild};
use build_watcher::clock::LocalTime;
use build_watcher::config::{BuildStage, WatcherConfig};
use build_watcher::pages::{
    anchor_generator, banner_text, build_link_generator, build_page, finished_text, insert_header,
    log_divs, page_with_banner, page_with_message, rebuild_text, TemplatePart,
};
use build_watcher::serve::{
    body_step, event_source, first_message, init_message, is_html, listen_address, page_reply,
    rebuild_location, replay, serve_start, stored_log, BodyStep, EventSource, ServeStart,
    StoredLog,
};
use build_watcher::utils::BuildId;
use std::collections::HashMap;

fn stage(name: &str) -> BuildStage {
    BuildStage { name: name.to_string(), program: "make".to_string(), args: vec![] }
}

fn config() -> WatcherConfig {
    WatcherConfig {
        ip: "0.0.0.0".to_string(),
        port: "8080".to_string(),
        build_dir: "builds/".to_string(),
        build_stages: vec![stage("Fetch"), stage("Compile")],
        artifact_path: "dist".to_string(),
    }
}

const ID: BuildId = BuildId { inner: 1337 };
const OTHER: BuildId = BuildId { inner: 62 };

fn last() -> LastBuild {
    LastBuild { id: ID, timestamp: LocalTime::new(1431648000, 0, 0).unwrap() }
}

const VIEWED: &str =
    r#"You are viewing <a target="blank" href="/build_LZ">build LZ</a>"#;

const HEADER_OPEN: &str = "<header style=\"\n                background-color: LightGray;\n                color: #3C3836;\n                text-align: center;\n                padding: 15px 0;\n                font-style: oblique;\n                box-sizing: border-box;\n            \">";

#[test]
fn address() {
    assert_eq!(listen_address(&config()), "0.0.0.0:8080");
}

#[test]
fn a_rebuild_leads_to_the_build() {
    assert_eq!(rebuild_location(Ok(ID)), "/build_LZ");
    assert_eq!(rebuild_location(Err(OTHER)), "/build_10");
}

#[test]
fn a_location_names_its_build() {
    let fresh = BuildId::new();
    let location = rebuild_location(Ok(fresh));
    assert_eq!(BuildId::parse(location.strip_prefix("/build_").unwrap()), fresh);
}

#[test]
fn init_message_holds_its_flag() {
    let message = init_message(true);
    assert_eq!(message.ty, "Init");
    assert!(message.is_active);
    assert!(!init_message(false).is_active);
}

#[test]
fn first_message_tells_whether_the_build_is_going_on() {
    assert!(first_message(&event_source(&config(), "LZ", Some(ID))).is_active);
    assert!(!first_message(&event_source(&config(), "LZ", Some(OTHER))).is_active);
    assert!(!first_message(&event_source(&config(), "LZ", None)).is_active);
    assert_eq!(first_message(&EventSource::Live).ty, "Init");
}

#[test]
fn events_of_the_current_build_are_live() {
    assert!(matches!(event_source(&config(), "LZ", Some(ID)), EventSource::Live));
    assert!(matches!(event_source(&config(), "0LZ", Some(ID)), EventSource::Live));
}

#[test]
fn events_of_other_builds_are_stored() {
    assert!(matches!(
        event_source(&config(), "LZ", Some(OTHER)),
        EventSource::Stored(dir) if dir == "builds/LZ"
    ));
    assert!(matches!(
        event_source(&config(), "00LZ", None),
        EventSource::Stored(dir) if dir == "builds/LZ"
    ));
}

#[test]
fn no_log_without_a_directory() {
    assert!(matches!(stored_log(&config(), "builds/LZ", false), StoredLog::NotFound));
}

#[test]
fn log_files_stage_by_stage() {
    match stored_log(&config(), "builds/LZ", true) {
        StoredLog::Files { messages, errors } => {
            assert_eq!(
                messages,
                vec!["builds/LZ/.watcher_log_0", "builds/LZ/.watcher_log_1"]
            );
            assert_eq!(errors, vec!["builds/LZ/.watcher_err_0", "builds/LZ/.watcher_err_1"]);
        }
        other => panic!("{:?}", other),
    }
}

fn shown(events: Vec<BuildEvent>) -> Vec<(BuildEventType, String, usize)> {
    events.into_iter().map(|event| (event.ty, event.payload, event.stage)).collect()
}

#[test]
fn stored_texts_are_replayed() {
    let events = replay(
        vec![Some("a\nb\n".to_string()), None],
        vec![None, Some("oh\n".to_string())],
    );
    assert_eq!(
        shown(events),
        vec![
            (BuildEventType::Message, "a\nb\n".to_string(), 0),
            (BuildEventType::Message, "".to_string(), 1),
            (BuildEventType::Error, "".to_string(), 0),
            (BuildEventType::Error, "oh\n".to_string(), 1),
        ]
    );
}

#[test]
fn a_finished_build_is_replayed() {
    let config = config();
    let mut manager = BuildManager::new();
    manager.start_build_as(&config, ID).unwrap();
    for (ty, payload, stage) in [
        (BuildEventType::Message, "one", 0),
        (BuildEventType::Message, "two", 1),
        (BuildEventType::Message, "three", 1),
        (BuildEventType::Error, "broken", 1),
    ] {
        manager.record_event(BuildEvent { ty, payload: payload.to_string(), stage });
    }
    let finish = manager.finish_build_at(&config, last().timestamp);
    let mut files: HashMap<String, String> = HashMap::new();
    for write in finish.writes {
        files.entry(write.path).or_default().push_str(&write.text);
    }
    let dir = match event_source(&config, "LZ", None) {
        EventSource::Stored(dir) => dir,
        other => panic!("{:?}", other),
    };
    match stored_log(&config, &dir, true) {
        StoredLog::Files { messages, errors } => {
            let read = |paths: Vec<String>| {
                paths.iter().map(|path| files.get(path).cloned()).collect::<Vec<_>>()
            };
            assert_eq!(
                shown(replay(read(messages), read(errors))),
                vec![
                    (BuildEventType::Message, "one\n".to_string(), 0),
                    (BuildEventType::Message, "two\nthree\n".to_string(), 1),
                    (BuildEventType::Error, "".to_string(), 0),
                    (BuildEventType::Error, "broken\n".to_string(), 1),
                ]
            );
        }
        other => panic!("{:?}", other),
    }
}

#[test]
fn without_a_build_one_is_started() {
    assert!(matches!(
        serve_start(&config(), None),
        ServeStart::Redirect(location) if location == "/rebuild"
    ));
}

#[test]
fn the_last_build_is_served() {
    assert!(matches!(
        serve_start(&config(), Some(last())),
        ServeStart::ServeFrom(root) if root == "builds/LZ/dist"
    ));
}

#[test]
fn html_is_told_by_its_content_type() {
    assert!(is_html(Some(b"text/html")));
    assert!(is_html(Some(b"text/html; charset=utf-8")));
    assert!(is_html(Some(b"\ttext/html")));
    assert!(!is_html(Some(b"text/css")));
    assert!(!is_html(Some(b"text/htm")));
    assert!(!is_html(Some(b"TEXT/HTML")));
    assert!(!is_html(Some(b"")));
    assert!(!is_html(None));
}

#[test]
fn content_types_are_visible_characters() {
    assert!(!is_html(Some(b"text/html\xff")));
    assert!(!is_html(Some(b"text/html\x7f")));
    assert!(!is_html(Some(b"text/html\n")));
}

#[test]
fn elements_of_the_stages() {
    assert_eq!(
        log_divs(&config().build_stages),
        "\n                    <h1 class=\"build-stage-name\">Fetch</h1>\n                    <pre class=\"log-messages\" id=\"log-messages-0\"></pre>\n                    <pre class=\"log-error\" id=\"log-error-0\"></pre>\n                \n                    <h1 class=\"build-stage-name\">Compile</h1>\n                    <pre class=\"log-messages\" id=\"log-messages-1\"></pre>\n                    <pre class=\"log-error\" id=\"log-error-1\"></pre>\n                "
    );
    assert_eq!(log_divs(&vec![]), "");
}

#[test]
fn the_template_is_filled_in() {
    let template = vec![
        TemplatePart::Text("<p>".to_string()),
        TemplatePart::Id,
        TemplatePart::Text("</p>".to_string()),
        TemplatePart::LogDivs,
        TemplatePart::BundleJs,
        TemplatePart::Id,
    ];
    let stages = vec![stage("S")];
    assert_eq!(
        build_page(&template, "LZ", &stages, "go();"),
        format!("<p>LZ</p>{}go();LZ", log_divs(&stages))
    );
}

#[test]
fn links() {
    assert_eq!(
        anchor_generator("/rebuild", "here"),
        r#"<a target="blank" href="/rebuild">here</a>"#
    );
    assert_eq!(
        build_link_generator(ID, "click here"),
        r#"<a target="blank" href="/build_LZ">click here</a>"#
    );
}

#[test]
fn banner_of_a_finished_build() {
    assert_eq!(
        banner_text(last(), None),
        format!(
            "{}, which finished at May 15 at 12:00 AM (+00:00). To rebuild, click {}.",
            VIEWED, r#"<a target="blank" href="/rebuild">here</a>"#
        )
    );
}

#[test]
fn banner_during_a_rebuild() {
    assert_eq!(
        banner_text(last(), Some(OTHER)),
        format!(
            "{}. A rebuild is in process; {} to see its status.",
            VIEWED, r#"<a target="blank" href="/build_10">click here</a>"#
        )
    );
}

#[test]
fn banner_of_given_texts() {
    assert_eq!(
        finished_text(ID, "noon"),
        format!(
            "{}, which finished at noon. To rebuild, click {}.",
            VIEWED, r#"<a target="blank" href="/rebuild">here</a>"#
        )
    );
    assert_eq!(rebuild_text(ID, OTHER), banner_text(last(), Some(OTHER)));
    assert_eq!(
        page_with_message("<body>x", "hello"),
        format!("<body>{}hello</header>x", HEADER_OPEN)
    );
}

#[test]
fn a_header_goes_behind_the_first_body() {
    assert_eq!(insert_header("<html><body>x<body></html>", "H"), "<html><body>Hx<body></html>");
    assert_eq!(insert_header("\u{e9}<body>\u{e9}", "H"), "\u{e9}<body>H\u{e9}");
    assert_eq!(insert_header("<body", "H"), "H<body");
    assert_eq!(insert_header("<BODY>x", "H"), "H<BODY>x");
    assert_eq!(insert_header("", "H"), "H");
}

#[test]
fn a_page_gets_its_banner() {
    assert_eq!(
        page_with_banner("<body>x</body>", last(), Some(OTHER)),
        format!("<body>{}{}</header>x</body>", HEADER_OPEN, banner_text(last(), Some(OTHER)))
    );
}

#[test]
fn a_page_that_cannot_be_read_is_an_error() {
    assert!(matches!(body_step(None), BodyStep::InternalServerError));
    assert!(matches!(
        body_step(Some(b"<p>".to_vec())),
        BodyStep::AskCurrent(bytes) if bytes == b"<p>"
    ));
}

#[test]
fn bytes_become_a_page() {
    assert_eq!(
        page_reply("<body>\u{e9}".as_bytes(), last(), None),
        page_with_banner("<body>\u{e9}", last(), None)
    );
}

#[test]
fn bytes_that_are_no_text_are_replaced() {
    assert_eq!(
        page_reply(b"<body>a\xffb", last(), None),
        page_with_banner("<body>a\u{fffd}b", last(), None)
    );
}
