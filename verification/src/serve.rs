//! What the server answers: where requests are sent on to, and what is shown of a build.
use vstd::prelude::*;

use crate::build::events::{event_views, EventView};
use crate::build::log::{after_writes, file_text, kept_text, log_path, Files};
use crate::build::manager::{
    law_log_holds_what_was_told, lemma_events_in_events, ManagerView, NewsView,
};
use crate::build::run::{error_event, events_after, is_run, message_event, OutcomeView};
use crate::build::{BuildEvent, BuildEventType, LastBuild};
use crate::clock::LocalTime;
use crate::config::{ConfigView, WatcherConfig};
use crate::numeral;
use crate::pages::{
    banner_message, build_location, build_location_of, header_element, page_with_banner,
    with_header,
};
use crate::paths::{join_path, path_join};
use crate::text::{characters, find, lossy_text, occurs, occurs_at, read_lossy, texts};
use crate::utils::{log_file_name, BuildId};

verus! {

/// The address to listen at: the address and the port of the configuration.
pub fn listen_address(config: &WatcherConfig) -> (r: String)
    ensures
        r@ == config@.ip + ":"@ + config@.port,
{
    let mut out = config.ip.clone();
    out.append(":");
    out.append(config.port.as_str());
    out
}

/// Where one who asks for a rebuild is sent on to: the page of the build that was started, or of
/// the one that was going on already.
pub fn rebuild_location(response: Result<BuildId, BuildId>) -> (r: String)
    ensures
        r@ == build_location(
            match response {
                Ok(id) => id,
                Err(id) => id,
            },
        ),
{
    let id = match response {
        Ok(id) => id,
        Err(id) => id,
    };
    build_location_of(id)
}

/// The first message to one who follows a build.
#[derive(Debug)]
pub struct WsInitMessage {
    pub ty: String,
    pub is_active: bool,
}

/// The first message to one who follows a build, which tells whether the build is going on.
pub fn init_message(is_active: bool) -> (r: WsInitMessage)
    ensures
        r.ty@ == "Init"@,
        r.is_active == is_active,
{
    WsInitMessage { ty: "Init".to_owned(), is_active }
}

/// The first message to one who follows a build whose events come from `source`: it says that the
/// build is going on exactly if it is.
pub fn first_message(source: &EventSource) -> (r: WsInitMessage)
    ensures
        r.ty@ == "Init"@,
        r.is_active == (source@ is Live),
{
    match source {
        EventSource::Live => init_message(true),
        EventSource::Stored(_) => init_message(false),
    }
}

/// Where the events of a build come from.
#[derive(Debug)]
pub enum EventSource {
    /// The build is going on: from its log.
    Live,
    /// From the files in this directory, if there is such a directory.
    Stored(String),
}

/// Where the events of a build come from, as a spec.
pub enum SourceView {
    Live,
    Stored(Seq<char>),
}

impl View for EventSource {
    type V = SourceView;

    open spec fn view(&self) -> SourceView {
        match self {
            EventSource::Live => SourceView::Live,
            EventSource::Stored(dir) => SourceView::Stored(dir@),
        }
    }
}

/// Where the events of the build `id` come from, while the build `current` is going on.
pub open spec fn source_of(
    config: ConfigView,
    id: BuildId,
    current: Option<BuildId>,
) -> SourceView {
    if current == Some(id) {
        SourceView::Live
    } else {
        SourceView::Stored(config.build_subdirectory(id))
    }
}

/// Where the events of the build with the text form `id` come from, while the build `current` is
/// going on.
pub fn event_source(config: &WatcherConfig, id: &str, current: Option<BuildId>) -> (r: EventSource)
    requires
        numeral::decoded(id@) is Some,
    ensures
        r@ == source_of(config@, (BuildId { inner: numeral::decoded(id@)->0 }), current),
        r is Live <==> (current matches Some(build) && numeral::decoded(id@) == Some(build.inner)),
        r matches EventSource::Stored(dir) ==> dir@ == path_join(
            config@.build_dir,
            numeral::numeral(numeral::decoded(id@)->0 as nat),
        ),
{
    let id = BuildId::parse(id);
    match current {
        Some(current) if current == id => EventSource::Live,
        _ => EventSource::Stored(config.build_subdirectory_of(id)),
    }
}

/// What is answered to one who asks for the events of a build that is not going on.
#[derive(Debug)]
pub enum StoredLog {
    /// There was no such build.
    NotFound,
    /// Its events are in these files: the messages of each stage, and the errors of each stage.
    Files { messages: Vec<String>, errors: Vec<String> },
}

/// The paths of the log files with the events of type `ty`, stage by stage.
pub open spec fn log_paths(dir: Seq<char>, stages: nat, ty: BuildEventType) -> Seq<Seq<char>> {
    Seq::new(stages, |stage: int| log_path(dir, stage as nat, ty))
}

/// The paths of the log files with the events of type `ty`, stage by stage.
fn log_files(dir: &str, stages: usize, ty: BuildEventType) -> (r: Vec<String>)
    ensures
        texts(r@) == log_paths(dir@, stages as nat, ty),
        r@.len() == stages,
        forall|stage: int|
            0 <= stage < stages ==> (#[trigger] r@[stage])@ == log_path(dir@, stage as nat, ty),
{
    let mut out: Vec<String> = Vec::new();
    let mut stage: usize = 0;
    while stage < stages
        invariant
            stage <= stages,
            texts(out@) == log_paths(dir@, stage as nat, ty),
        decreases stages - stage,
    {
        let ghost before = out@;
        let name = log_file_name(stage, ty);
        out.push(join_path(dir, name.as_str()));
        assert(texts(out@) =~= texts(before).push(log_path(dir@, stage as nat, ty)));
        assert(log_paths(dir@, stage as nat + 1, ty) =~= log_paths(dir@, stage as nat, ty).push(
            log_path(dir@, stage as nat, ty),
        ));
        stage += 1;
    }
    assert(texts(out@).len() == out@.len());
    assert forall|stage: int| 0 <= stage < stages implies (#[trigger] out@[stage])@ == log_path(
        dir@,
        stage as nat,
        ty,
    ) by {
        assert(texts(out@)[stage] == out@[stage]@);
    }
    out
}

/// What is answered to one who asks for the events of a build that is not going on, with the
/// directory `dir`, which `exists` or does not.
pub fn stored_log(config: &WatcherConfig, dir: &str, exists: bool) -> (r: StoredLog)
    ensures
        match r {
            StoredLog::NotFound => !exists,
            StoredLog::Files { messages, errors } => {
                &&& exists
                &&& texts(messages@) == log_paths(
                    dir@,
                    config@.build_stages.len(),
                    BuildEventType::Message,
                )
                &&& texts(errors@) == log_paths(
                    dir@,
                    config@.build_stages.len(),
                    BuildEventType::Error,
                )
                &&& messages@.len() == config.build_stages@.len()
                &&& errors@.len() == config.build_stages@.len()
                &&& forall|stage: int|
                    0 <= stage < messages@.len() ==> (#[trigger] messages@[stage])@ == log_path(
                        dir@,
                        stage as nat,
                        BuildEventType::Message,
                    )
                &&& forall|stage: int|
                    0 <= stage < errors@.len() ==> (#[trigger] errors@[stage])@ == log_path(
                        dir@,
                        stage as nat,
                        BuildEventType::Error,
                    )
            },
        },
{
    if !exists {
        return StoredLog::NotFound;
    }
    let stages: usize = config.build_stages.len();
    StoredLog::Files {
        messages: log_files(dir, stages, BuildEventType::Message),
        errors: log_files(dir, stages, BuildEventType::Error),
    }
}

/// The events that show stored texts: the messages of each stage, then the errors of each stage.
pub open spec fn stored_events(
    messages: Seq<Seq<char>>,
    errors: Seq<Seq<char>>,
) -> Seq<EventView> {
    messages.map(|stage: int, text: Seq<char>| message_event(text, stage as nat)) + errors.map(
        |stage: int, text: Seq<char>| error_event(text, stage as nat),
    )
}

/// What was read; the empty text where nothing could be read.
pub open spec fn read_texts(texts: Seq<Option<String>>) -> Seq<Seq<char>> {
    texts.map_values(
        |text: Option<String>|
            match text {
                Some(text) => text@,
                None => Seq::empty(),
            },
    )
}

/// Adds to `events` one event of type `ty` for each stage, with what was read of its log file.
fn push_stored(events: &mut Vec<BuildEvent>, read: Vec<Option<String>>, ty: BuildEventType)
    ensures
        event_views(final(events)@) == event_views(old(events)@) + read_texts(read@).map(
            |stage: int, text: Seq<char>| EventView { ty, payload: text, stage: stage as nat },
        ),
{
    let ghost start = event_views(events@);
    let ghost shown = read_texts(read@).map(
        |stage: int, text: Seq<char>| EventView { ty, payload: text, stage: stage as nat },
    );
    let mut stage: usize = 0;
    while stage < read.len()
        invariant
            stage <= read.len(),
            shown == read_texts(read@).map(
                |stage: int, text: Seq<char>| EventView { ty, payload: text, stage: stage as nat },
            ),
            event_views(events@) == start + shown.take(stage as int),
        decreases read.len() - stage,
    {
        let ghost before = events@;
        let payload = match &read[stage] {
            Some(text) => text.clone(),
            None => String::new(),
        };
        events.push(BuildEvent { ty, payload, stage });
        assert(event_views(events@) =~= event_views(before).push(shown[stage as int]));
        assert(shown.take(stage + 1) =~= shown.take(stage as int).push(shown[stage as int]));
        stage += 1;
    }
    assert(shown.take(shown.len() as int) =~= shown);
}

/// The events that show what was read of the log files: the messages of each stage, then the
/// errors of each stage. A file that could not be read counts as empty.
pub fn replay(messages: Vec<Option<String>>, errors: Vec<Option<String>>) -> (r: Vec<BuildEvent>)
    ensures
        event_views(r@) == stored_events(read_texts(messages@), read_texts(errors@)),
        r@.len() == messages@.len() + errors@.len(),
        forall|i: int|
            0 <= i < messages@.len() ==> {
                &&& (#[trigger] r@[i]).ty == BuildEventType::Message
                &&& r@[i].stage == i
                &&& r@[i].payload@ == match messages@[i] {
                    Some(text) => text@,
                    None => Seq::<char>::empty(),
                }
            },
        forall|i: int|
            messages@.len() <= i < r@.len() ==> {
                &&& (#[trigger] r@[i]).ty == BuildEventType::Error
                &&& r@[i].stage == i - messages@.len()
                &&& r@[i].payload@ == match errors@[i - messages@.len()] {
                    Some(text) => text@,
                    None => Seq::<char>::empty(),
                }
            },
{
    let mut events: Vec<BuildEvent> = Vec::new();
    push_stored(&mut events, messages, BuildEventType::Message);
    push_stored(&mut events, errors, BuildEventType::Error);
    assert(event_views(events@) =~= stored_events(read_texts(messages@), read_texts(errors@)));
    assert(event_views(events@).len() == events@.len());
    assert forall|i: int| 0 <= i < events@.len() implies (#[trigger] events@[i])@ == stored_events(
        read_texts(messages@),
        read_texts(errors@),
    )[i] by {
        assert(event_views(events@)[i] == events@[i]@);
    }
    events
}

/// How a request for a page of the last build is met.
#[derive(Debug)]
pub enum ServeStart {
    /// No build has finished yet: send on to this path, which starts one.
    Redirect(String),
    /// Look for the page below this path.
    ServeFrom(String),
}

/// How a request for a page of the last build is met.
pub fn serve_start(config: &WatcherConfig, last: Option<LastBuild>) -> (r: ServeStart)
    ensures
        match (last, r) {
            (None, ServeStart::Redirect(location)) => location@ == "/rebuild"@,
            (Some(last), ServeStart::ServeFrom(root)) => root@ == config@.artifact(last.id),
            _ => false,
        },
{
    match last {
        None => ServeStart::Redirect("/rebuild".to_owned()),
        Some(last) => ServeStart::ServeFrom(config.artifact_path_of(last.id)),
    }
}

/// The byte is a visible ASCII character, a space or a tab.
pub open spec fn is_visible(byte: u8) -> bool {
    32 <= byte < 127 || byte == 9
}

/// The value of a header as text, as HTTP libraries read it: `None` where it is not made of
/// visible characters.
pub open spec fn header_text(value: Seq<u8>) -> Option<Seq<char>> {
    if forall|i: int| 0 <= i < value.len() ==> is_visible(#[trigger] value[i]) {
        Some(value.map_values(|byte: u8| byte as char))
    } else {
        None
    }
}

/// The characters of the value of a header; `None` where it is not made of visible characters.
fn header_characters(value: &[u8]) -> (r: Option<Vec<char>>)
    ensures
        match r {
            Some(text) => Some(text@),
            None => None,
        } == header_text(value@),
{
    let mut out: Vec<char> = Vec::new();
    let mut i: usize = 0;
    while i < value.len()
        invariant
            i <= value.len(),
            forall|k: int| 0 <= k < i ==> is_visible(#[trigger] value@[k]),
            out@ == value@.take(i as int).map_values(|byte: u8| byte as char),
        decreases value.len() - i,
    {
        let byte = value[i];
        if !((32 <= byte && byte < 127) || byte == 9) {
            return None;
        }
        out.push(byte as char);
        assert(value@.take(i + 1).map_values(|byte: u8| byte as char) =~= value@.take(
            i as int,
        ).map_values(|byte: u8| byte as char).push(byte as char));
        i += 1;
    }
    assert(value@.take(value@.len() as int) =~= value@);
    Some(out)
}

/// The content type says that the content is HTML.
pub open spec fn says_html(content_type: Option<Seq<u8>>) -> bool {
    match content_type {
        Some(value) => match header_text(value) {
            Some(text) => occurs(text, "text/html"@),
            None => false,
        },
        None => false,
    }
}

/// Whether the value of the content type header, if there is one, says that the content is HTML.
/// Only such content gets a banner.
pub fn is_html(content_type: Option<&[u8]>) -> (r: bool)
    ensures
        r == says_html(
            match content_type {
                Some(value) => Some(value@),
                None => None,
            },
        ),
{
    match content_type {
        Some(value) => match header_characters(value) {
            Some(text) => find(&text, &characters("text/html")).is_some(),
            None => false,
        },
        None => false,
    }
}

/// What follows once the body of an HTML page was to be read.
#[derive(Debug)]
pub enum BodyStep {
    /// The body could not be read: answer with an internal error.
    InternalServerError,
    /// Ask which build is going on, and answer with this body and its banner.
    AskCurrent(Vec<u8>),
}

/// What follows once the body of an HTML page was to be read, and `body` is what was read.
pub fn body_step(body: Option<Vec<u8>>) -> (r: BodyStep)
    ensures
        match (body, r) {
            (None, BodyStep::InternalServerError) => true,
            (Some(bytes), BodyStep::AskCurrent(kept)) => kept == bytes,
            _ => false,
        },
{
    match body {
        None => BodyStep::InternalServerError,
        Some(bytes) => BodyStep::AskCurrent(bytes),
    }
}

/// What is answered to a request for an HTML page of the build `viewed` with the body `bytes`,
/// while the build `rebuilding` is going on: the page with its banner.
pub fn page_reply(bytes: &[u8], viewed: LastBuild, rebuilding: Option<BuildId>) -> (r: String)
    ensures
        r@ == with_header(
            lossy_text(bytes@),
            header_element(banner_message(viewed, rebuilding)),
        ),
        vstd::utf8::valid_utf8(bytes@) ==> r@ == with_header(
            vstd::utf8::decode_utf8(bytes@),
            header_element(banner_message(viewed, rebuilding)),
        ),
{
    let page = read_lossy(bytes);
    page_with_banner(page.as_str(), viewed, rebuilding)
}

/// The texts of the log files with the events of type `ty`, stage by stage.
pub open spec fn texts_at(
    files: Files,
    dir: Seq<char>,
    stages: nat,
    ty: BuildEventType,
) -> Seq<Seq<char>> {
    log_paths(dir, stages, ty).map_values(|path: Seq<char>| file_text(files, path))
}

/// What a log told, by type and stage: the messages of each stage, then the errors of each stage,
/// each event as a line of its own.
pub open spec fn told_events(history: Seq<EventView>, stages: nat) -> Seq<EventView> {
    stored_events(
        Seq::new(stages, |stage: int| kept_text(history, stage as nat, BuildEventType::Message)),
        Seq::new(stages, |stage: int| kept_text(history, stage as nat, BuildEventType::Error)),
    )
}

/// A finished build is shown as it went: once each write that keeps its log has been made in its
/// directory, which held no log before, one who asks for its events gets what it told, by type and
/// stage.
pub proof fn law_finished_build_is_replayed(
    manager: ManagerView,
    config: ConfigView,
    files: Files,
    now: LocalTime,
)
    requires
        manager.current is Some,
        ({
            let (id, _) = manager.current->0;
            forall|stage: nat, ty: BuildEventType|
                file_text(files, #[trigger] log_path(config.build_subdirectory(id), stage, ty))
                    == Seq::<char>::empty()
        }),
    ensures
        ({
            let (id, history) = manager.current->0;
            let stages = config.build_stages.len();
            let dir = config.build_subdirectory(id);
            let kept = after_writes(files, manager.finish(config).writes);
            let finished = manager.after_news(NewsView::Closed, now);
            &&& finished.current is None
            &&& source_of(config, id, None) == SourceView::Stored(dir)
            &&& stored_events(
                texts_at(kept, dir, stages, BuildEventType::Message),
                texts_at(kept, dir, stages, BuildEventType::Error),
            ) == told_events(history, stages)
        }),
{
    let (id, history) = manager.current->0;
    let stages = config.build_stages.len();
    let dir = config.build_subdirectory(id);
    lemma_texts_at(files, history, dir, stages, BuildEventType::Message);
    lemma_texts_at(files, history, dir, stages, BuildEventType::Error);
}

/// A build is shown as it ran: started when no other was going on, with a directory that could be
/// made and held no log before, followed without a loss through the run, and ended, it is the last
/// build, and once its log has been written to that directory one who asks for its events gets
/// what the run told, by type and stage.
pub proof fn law_run_is_replayed(
    manager: ManagerView,
    config: ConfigView,
    id: BuildId,
    outcomes: Seq<OutcomeView>,
    files: Files,
    now: LocalTime,
)
    requires
        manager.current is None,
        is_run(config.build_stages.len(), outcomes),
        outcomes.len() > 0,
        outcomes[0] is DirectoryCreated,
        forall|stage: nat, ty: BuildEventType|
            file_text(files, #[trigger] log_path(config.build_subdirectory(id), stage, ty))
                == Seq::<char>::empty(),
    ensures
        ({
            let events = events_after(config, id, outcomes);
            let news = events.map_values(|e: EventView| NewsView::Event(e));
            let building = manager.after_start(id).after_all_news(news, now);
            let finished = building.after_news(NewsView::Closed, now);
            let stages = config.build_stages.len();
            let dir = config.build_subdirectory(id);
            let kept = after_writes(files, building.finish(config).writes);
            &&& finished == (ManagerView {
                current: None,
                last: Some(LastBuild { id, timestamp: now }),
            })
            &&& source_of(config, id, None) == SourceView::Stored(dir)
            &&& stored_events(
                texts_at(kept, dir, stages, BuildEventType::Message),
                texts_at(kept, dir, stages, BuildEventType::Error),
            ) == told_events(events, stages)
        }),
{
    let events = events_after(config, id, outcomes);
    let news = events.map_values(|e: EventView| NewsView::Event(e));
    let building = manager.after_start(id).after_all_news(news, now);
    law_log_holds_what_was_told(manager, id, news, now);
    lemma_events_in_events(events);
    law_finished_build_is_replayed(building, config, files, now);
}

/// `shown` holds `event` as a line of its own, under its type and its stage.
pub open spec fn shows_event(shown: EventView, event: EventView) -> bool {
    &&& shown.ty == event.ty
    &&& shown.stage == event.stage
    &&& occurs(shown.payload, event.payload.push('\n'))
}

/// What is shown of a finished build holds each event of its log as a line of its own, under the
/// type and the stage of the event, if the build has that stage.
pub proof fn law_each_event_is_replayed(history: Seq<EventView>, stages: nat, i: int)
    requires
        0 <= i < history.len(),
        history[i].stage < stages,
    ensures
        exists|k: int|
            0 <= k < told_events(history, stages).len() && shows_event(
                #[trigger] told_events(history, stages)[k],
                history[i],
            ),
{
    let event = history[i];
    let told = told_events(history, stages);
    let k = if event.ty == BuildEventType::Message {
        event.stage as int
    } else {
        (stages + event.stage) as int
    };
    assert(told[k].payload == kept_text(history, event.stage, event.ty));
    lemma_kept_line(history, i);
    assert(shows_event(told[k], event));
}

proof fn lemma_kept_line(history: Seq<EventView>, i: int)
    requires
        0 <= i < history.len(),
    ensures
        occurs(
            kept_text(history, history[i].stage, history[i].ty),
            history[i].payload.push('\n'),
        ),
    decreases history.len(),
{
    let event = history[i];
    let line = event.payload.push('\n');
    let text = kept_text(history, event.stage, event.ty);
    let before = kept_text(history.drop_last(), event.stage, event.ty);
    if i == history.len() - 1 {
        assert(text.subrange(before.len() as int, before.len() as int + line.len()) =~= line);
        assert(occurs_at(text, line, before.len() as int));
    } else {
        lemma_kept_line(history.drop_last(), i);
        let at = choose|at: int| occurs_at(before, line, at);
        assert(text.subrange(at, at + line.len()) =~= before.subrange(at, at + line.len()));
        assert(occurs_at(text, line, at));
    }
}

proof fn lemma_texts_at(
    files: Files,
    history: Seq<EventView>,
    dir: Seq<char>,
    stages: nat,
    ty: BuildEventType,
)
    requires
        forall|stage: nat, ty: BuildEventType|
            file_text(files, #[trigger] log_path(dir, stage, ty)) == Seq::<char>::empty(),
    ensures
        texts_at(
            after_writes(files, crate::build::log::dump_writes(history, dir)),
            dir,
            stages,
            ty,
        ) == Seq::new(stages, |stage: int| kept_text(history, stage as nat, ty)),
{
    let kept = after_writes(files, crate::build::log::dump_writes(history, dir));
    let read = texts_at(kept, dir, stages, ty);
    assert forall|stage: int| 0 <= stage < stages implies #[trigger] read[stage] == kept_text(
        history,
        stage as nat,
        ty,
    ) by {
        crate::build::log::law_dump_keeps_each_event(files, history, dir, stage as nat, ty);
        let path = log_path(dir, stage as nat, ty);
        assert(file_text(files, path) == Seq::<char>::empty());
        assert(Seq::<char>::empty() + kept_text(history, stage as nat, ty) =~= kept_text(
            history,
            stage as nat,
            ty,
        ));
    }
    assert(read =~= Seq::new(stages, |stage: int| kept_text(history, stage as nat, ty)));
}

/// The events of a build come live exactly if that build is the one that is going on; while
/// another one is going on, or none, they come from the files in the directory of the build that
/// was asked for, which is not the directory of the other one.
pub proof fn law_only_the_current_build_is_live(
    config: ConfigView,
    asked: BuildId,
    other: BuildId,
    current: Option<BuildId>,
)
    requires
        asked != other,
    ensures
        source_of(config, asked, Some(asked)) is Live,
        source_of(config, asked, Some(other)) == SourceView::Stored(
            path_join(config.build_dir, asked.spec_text()),
        ),
        source_of(config, asked, None) == source_of(config, asked, Some(other)),
        source_of(config, other, Some(asked)) != source_of(config, asked, Some(other)),
        source_of(config, asked, current) is Live ==> current == Some(asked),
{
    if config.build_subdirectory(asked) == config.build_subdirectory(other) {
        crate::config::law_builds_run_apart(config, asked, other);
    }
}

/// A build that is going on is shown from its log, and every other one from its files, at each
/// moment of a manager: while a build is started, tells its events and ends, the builds before it
/// are shown from their own directories.
pub proof fn law_earlier_builds_are_shown_from_their_files(
    manager: ManagerView,
    config: ConfigView,
    earlier: BuildId,
    id: BuildId,
    news: Seq<NewsView>,
    now: LocalTime,
)
    requires
        manager.current is None,
        earlier != id,
        forall|i: int| 0 <= i < news.len() ==> !(#[trigger] news[i] is Closed),
    ensures
        ({
            let building = manager.after_start(id).after_all_news(news, now);
            let finished = building.after_news(NewsView::Closed, now);
            &&& source_of(config, id, current_id(building)) is Live
            &&& source_of(config, id, current_id(finished)) == SourceView::Stored(
                path_join(config.build_dir, id.spec_text()),
            )
            &&& source_of(config, earlier, current_id(building)) == SourceView::Stored(
                path_join(config.build_dir, earlier.spec_text()),
            )
            &&& source_of(config, earlier, current_id(finished)) == SourceView::Stored(
                path_join(config.build_dir, earlier.spec_text()),
            )
        }),
{
    law_log_holds_what_was_told(manager, id, news, now);
}

/// The id of the build that is going on.
pub open spec fn current_id(manager: ManagerView) -> Option<BuildId> {
    match manager.current {
        Some((id, _)) => Some(id),
        None => None,
    }
}

/// The bytes of `text/html`.
pub open spec fn html_bytes() -> Seq<u8> {
    seq![116u8, 101, 120, 116, 47, 104, 116, 109, 108]
}

/// A content type says that the content is HTML exactly if it is made of visible bytes and holds
/// the bytes of `text/html` somewhere.
pub proof fn law_html_is_told_by_its_bytes(value: Seq<u8>)
    ensures
        !says_html(None),
        says_html(Some(value)) <==> {
            &&& forall|i: int|
                0 <= i < value.len() ==> (32 <= #[trigger] value[i] <= 126 || value[i] == 9)
            &&& exists|at: int|
                0 <= at <= value.len() - 9 && #[trigger] value.subrange(at, at + 9) == html_bytes()
        },
{
    reveal_strlit("text/html");
    let visible = forall|i: int| 0 <= i < value.len() ==> is_visible(#[trigger] value[i]);
    let marker = "text/html"@;
    let text = value.map_values(|byte: u8| byte as char);
    if visible {
        assert(header_text(value) == Some(text));
        assert forall|i: int| 0 <= i < value.len() implies text[i] as int
            == #[trigger] value[i] as int by {
            assert(is_visible(value[i]));
        }
        if occurs(text, marker) {
            let at = choose|at: int| occurs_at(text, marker, at);
            let found = text.subrange(at, at + marker.len());
            assert forall|k: int| 0 <= k < 9 implies #[trigger] value.subrange(at, at + 9)[k]
                == html_bytes()[k] by {
                assert(found[k] == marker[k]);
                assert(text[at + k] as int == value[at + k] as int);
            }
            assert(value.subrange(at, at + 9) =~= html_bytes());
        }
        if exists|at: int|
            0 <= at <= value.len() - 9 && #[trigger] value.subrange(at, at + 9) == html_bytes() {
            let at = choose|at: int|
                0 <= at <= value.len() - 9 && #[trigger] value.subrange(at, at + 9)
                    == html_bytes();
            let found = value.subrange(at, at + 9);
            assert forall|k: int| 0 <= k < 9 implies #[trigger] text.subrange(at, at + 9)[k]
                == marker[k] by {
                assert(found[k] == html_bytes()[k]);
                assert(text[at + k] as int == value[at + k] as int);
            }
            assert(text.subrange(at, at + 9) =~= marker);
            assert(occurs_at(text, marker, at));
        }
        assert forall|i: int| 0 <= i < value.len() implies (32 <= #[trigger] value[i] <= 126
            || value[i] == 9) by {
            assert(is_visible(value[i]));
        }
    } else {
        let i = choose|i: int| 0 <= i < value.len() && !is_visible(#[trigger] value[i]);
        assert(!(32 <= value[i] <= 126 || value[i] == 9));
    }
}

} // verus!
