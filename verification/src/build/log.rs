//! The log of a build: what was told so far, how it is handed on, and where it is kept.
use vstd::prelude::*;

use crate::build::events::{event_views, BuildEvent, BuildEventType, EventView};
use crate::config::ConfigView;
use crate::paths::{join_path, path_join};
use crate::utils::{log_file_name, log_name, BuildId};

verus! {

/// The events of one build so far.
pub struct BuildLog {
    history: Vec<BuildEvent>,
}

/// A text to be added at the end of a file, which is made where it is missing.
#[derive(Debug)]
pub struct LogWrite {
    pub path: String,
    pub text: String,
}

/// What a write says.
pub struct WriteView {
    pub path: Seq<char>,
    pub text: Seq<char>,
}

impl View for LogWrite {
    type V = WriteView;

    open spec fn view(&self) -> WriteView {
        WriteView { path: self.path@, text: self.text@ }
    }
}

impl View for BuildLog {
    type V = Seq<EventView>;

    closed spec fn view(&self) -> Seq<EventView> {
        event_views(self.history@)
    }
}

impl Clone for BuildLog {
    fn clone(&self) -> (r: Self)
        ensures
            r@ == self@,
    {
        BuildLog { history: clone_events(&self.history) }
    }
}

/// A copy of the events, in their order.
fn clone_events(events: &Vec<BuildEvent>) -> (r: Vec<BuildEvent>)
    ensures
        event_views(r@) == event_views(events@),
{
    let mut out: Vec<BuildEvent> = Vec::new();
    let mut i: usize = 0;
    while i < events.len()
        invariant
            i <= events.len(),
            event_views(out@) == event_views(events@).take(i as int),
        decreases events.len() - i,
    {
        let ghost before = out@;
        out.push(events[i].clone());
        assert(event_views(out@) =~= event_views(before).push(events@[i as int]@));
        assert(event_views(events@).take(i + 1) =~= event_views(events@).take(i as int).push(
            events@[i as int]@,
        ));
        i += 1;
    }
    assert(event_views(events@).take(events@.len() as int) =~= event_views(events@));
    out
}

/// The path of the log file for one type of event of one stage, below the directory `dir`.
pub open spec fn log_path(dir: Seq<char>, stage: nat, ty: BuildEventType) -> Seq<char> {
    path_join(dir, log_name(stage, ty))
}

/// What is written to keep `event` in the directory `dir`: its payload, as a line of its own.
pub open spec fn event_write(event: EventView, dir: Seq<char>) -> WriteView {
    WriteView { path: log_path(dir, event.stage, event.ty), text: event.payload.push('\n') }
}

/// What is written to keep the events in the directory `dir`.
pub open spec fn dump_writes(history: Seq<EventView>, dir: Seq<char>) -> Seq<WriteView> {
    history.map_values(|e: EventView| event_write(e, dir))
}

/// What each of the writes says.
pub open spec fn write_views(writes: Seq<LogWrite>) -> Seq<WriteView> {
    writes.map_values(|w: LogWrite| w@)
}

impl BuildLog {
    /// An empty log, with room for `cap` events.
    pub fn with_capacity(cap: usize) -> (r: Self)
        ensures
            r@ == Seq::<EventView>::empty(),
    {
        let r = BuildLog { history: Vec::with_capacity(cap) };
        assert(r@ =~= Seq::<EventView>::empty());
        r
    }

    /// Adds `event` to the log, and hands it back for those who follow the build.
    pub fn log_event(&mut self, event: BuildEvent) -> (r: BuildEvent)
        ensures
            final(self)@ == old(self)@.push(event@),
            r@ == event@,
    {
        let copy = event.clone();
        self.history.push(event);
        assert(self@ =~= old(self)@.push(event@));
        copy
    }

    /// The stream of what was told so far and of what is told from now on.
    pub fn event_stream(self) -> (r: EventStream)
        ensures
            r@ == (StreamView { pending: self@, open: true }),
    {
        let r = EventStream { history: self.history, next: 0, open: true };
        assert(r@.pending =~= self@);
        r
    }

    /// What is to be written to keep the log in the directory `dir`.
    pub fn dump(&self, dir: &str) -> (r: Vec<LogWrite>)
        ensures
            write_views(r@) == dump_writes(self@, dir@),
            r@.len() == self@.len(),
            forall|i: int|
                0 <= i < r@.len() ==> {
                    &&& (#[trigger] r@[i]).text@ == self@[i].payload.push('\n')
                    &&& r@[i].path@ == path_join(dir@, log_name(self@[i].stage, self@[i].ty))
                },
    {
        let mut out: Vec<LogWrite> = Vec::new();
        let mut i: usize = 0;
        while i < self.history.len()
            invariant
                i <= self.history.len(),
                write_views(out@) == dump_writes(self@, dir@).take(i as int),
            decreases self.history.len() - i,
        {
            let ghost before = out@;
            let entry = &self.history[i];
            let name = log_file_name(entry.stage, entry.ty);
            let mut text = entry.payload.clone();
            text.append("\n");
            proof {
                reveal_strlit("\n");
                assert(text@ =~= entry.payload@.push('\n'));
            }
            out.push(LogWrite { path: join_path(dir, name.as_str()), text });
            assert(write_views(out@) =~= write_views(before).push(out@.last()@));
            assert(self@[i as int] == entry@);
            assert(dump_writes(self@, dir@).take(i + 1) =~= dump_writes(self@, dir@).take(
                i as int,
            ).push(event_write(entry@, dir@)));
            i += 1;
        }
        assert(dump_writes(self@, dir@).take(self@.len() as int) =~= dump_writes(self@, dir@));
        assert(write_views(out@).len() == out@.len());
        assert forall|i: int| 0 <= i < out@.len() implies {
            &&& (#[trigger] out@[i]).text@ == self@[i].payload.push('\n')
            &&& out@[i].path@ == path_join(dir@, log_name(self@[i].stage, self@[i].ty))
        } by {
            assert(write_views(out@)[i] == out@[i]@);
            assert(dump_writes(self@, dir@)[i] == event_write(self@[i], dir@));
        }
        out
    }
}

/// The events of a build, as one who follows it gets them: first those of the past, then those
/// that come in live, until the live ones end or some of them were missed.
pub struct EventStream {
    history: Vec<BuildEvent>,
    next: usize,
    open: bool,
}

/// What a stream has still to give: the events of the past, and whether live ones may follow.
pub struct StreamView {
    pub pending: Seq<EventView>,
    pub open: bool,
}

impl View for EventStream {
    type V = StreamView;

    closed spec fn view(&self) -> StreamView {
        StreamView { pending: event_views(self.history@).skip(self.next as int), open: self.open }
    }
}

/// What a stream does next.
#[derive(Debug)]
pub enum StreamStep {
    /// Give this event.
    Yield(BuildEvent),
    /// Wait for what comes in live.
    AwaitLive,
    /// Give nothing any more.
    End,
}

/// What came in live.
#[derive(Debug)]
pub enum Live {
    /// An event.
    Event(BuildEvent),
    /// Word that events were missed.
    Missed,
    /// Word that no event will follow.
    Closed,
}

/// What came in live, as a spec.
pub enum LiveView {
    Event(EventView),
    Missed,
    Closed,
}

impl View for Live {
    type V = LiveView;

    open spec fn view(&self) -> LiveView {
        match self {
            Live::Event(event) => LiveView::Event(event@),
            Live::Missed => LiveView::Missed,
            Live::Closed => LiveView::Closed,
        }
    }
}

impl StreamView {
    /// What is left once `live` has come in.
    pub open spec fn after(self, live: LiveView) -> StreamView {
        StreamView { open: self.open && live is Event, ..self }
    }

    /// Everything that the stream gives while `live` comes in.
    pub open spec fn output(self, live: Seq<LiveView>) -> Seq<EventView>
        decreases self.pending.len(), live.len(),
    {
        if self.pending.len() > 0 {
            seq![self.pending[0]] + (StreamView {
                pending: self.pending.drop_first(),
                ..self
            }).output(live)
        } else if !self.open || live.len() == 0 {
            Seq::empty()
        } else {
            match live[0] {
                LiveView::Event(event) => seq![event] + self.after(live[0]).output(
                    live.drop_first(),
                ),
                _ => self.after(live[0]).output(live.drop_first()),
            }
        }
    }
}

/// The events that come in live, up to the first word that some were missed or that they end.
pub open spec fn live_events(live: Seq<LiveView>) -> Seq<EventView>
    decreases live.len(),
{
    if live.len() == 0 {
        Seq::empty()
    } else {
        match live[0] {
            LiveView::Event(event) => seq![event] + live_events(live.drop_first()),
            _ => Seq::empty(),
        }
    }
}

/// The texts of files, by their paths.
pub type Files = Map<Seq<char>, Seq<char>>;

/// The text of the file at `path`; the empty text where there is none.
pub open spec fn file_text(files: Files, path: Seq<char>) -> Seq<char> {
    if files.contains_key(path) {
        files[path]
    } else {
        Seq::empty()
    }
}

/// The files once each of the writes has been made, one after the other. Where a write cannot be
/// made, as in a directory that is not there, these are not the files.
pub open spec fn after_writes(files: Files, writes: Seq<WriteView>) -> Files
    decreases writes.len(),
{
    if writes.len() == 0 {
        files
    } else {
        let before = after_writes(files, writes.drop_last());
        let write = writes.last();
        before.insert(write.path, file_text(before, write.path) + write.text)
    }
}

/// The payloads of the events of type `ty` of one stage, each as a line of its own.
pub open spec fn kept_text(history: Seq<EventView>, stage: nat, ty: BuildEventType) -> Seq<char>
    decreases history.len(),
{
    if history.len() == 0 {
        Seq::empty()
    } else {
        let before = kept_text(history.drop_last(), stage, ty);
        let event = history.last();
        if event.stage == stage && event.ty == ty {
            before + event.payload.push('\n')
        } else {
            before
        }
    }
}

impl EventStream {
    #[verifier::type_invariant]
    spec fn in_range(self) -> bool {
        self.next <= self.history@.len()
    }

    /// What the stream does next.
    pub fn next_step(&mut self) -> (r: StreamStep)
        ensures
            if old(self)@.pending.len() > 0 {
                &&& r matches StreamStep::Yield(event)
                &&& event@ == old(self)@.pending[0]
                &&& final(self)@ == (StreamView {
                    pending: old(self)@.pending.drop_first(),
                    ..old(self)@
                })
            } else {
                &&& final(self)@ == old(self)@
                &&& r == (if old(self)@.open {
                    StreamStep::AwaitLive
                } else {
                    StreamStep::End
                })
            },
    {
        proof {
            use_type_invariant(&*self);
        }
        if self.next < self.history.len() {
            let event = self.history[self.next].clone();
            self.next += 1;
            assert(self@.pending =~= old(self)@.pending.drop_first());
            StreamStep::Yield(event)
        } else if self.open {
            StreamStep::AwaitLive
        } else {
            StreamStep::End
        }
    }

    /// Takes in what came live, and gives the event in it.
    pub fn on_live(&mut self, live: Live) -> (r: Option<BuildEvent>)
        requires
            old(self)@.pending.len() == 0,
            old(self)@.open,
        ensures
            final(self)@ == old(self)@.after(live@),
            final(self)@.pending == old(self)@.pending,
            final(self)@.open <==> live is Event,
            match live {
                Live::Event(event) => r == Some(event),
                _ => r is None,
            },
    {
        proof {
            use_type_invariant(&*self);
        }
        match live {
            Live::Event(event) => Some(event),
            _ => {
                self.open = false;
                None
            },
        }
    }
}

/// A stream gives the events of the past, each once and in their order, and then the live ones,
/// until they end or some were missed.
pub proof fn law_stream_gives_past_and_live(history: Seq<EventView>, live: Seq<LiveView>)
    ensures
        (StreamView { pending: history, open: true }).output(live) == history + live_events(live),
    decreases history.len(), live.len(),
{
    let stream = StreamView { pending: history, open: true };
    if history.len() > 0 {
        law_stream_gives_past_and_live(history.drop_first(), live);
        assert(seq![history[0]] + (history.drop_first() + live_events(live)) =~= history
            + live_events(live));
    } else if live.len() > 0 {
        assert(stream.after(live[0]).pending == history);
        if live[0] is Event {
            law_stream_gives_past_and_live(history, live.drop_first());
            assert(history + live_events(live.drop_first()) =~= live_events(live.drop_first()));
            assert(history + live_events(live) =~= live_events(live));
        } else {
            assert(stream.after(live[0]).output(live.drop_first()) =~= Seq::<EventView>::empty());
            assert(history + live_events(live) =~= Seq::<EventView>::empty());
        }
    } else {
        assert(history + live_events(live) =~= Seq::<EventView>::empty());
    }
}

/// One who follows a build from any moment on, and misses no event, gets the whole log: the
/// events `before` that moment and the events `since`.
pub proof fn law_follower_gets_the_whole_log(before: Seq<EventView>, since: Seq<EventView>)
    ensures
        (StreamView { pending: before, open: true }).output(
            since.map_values(|e: EventView| LiveView::Event(e)),
        ) == before + since,
{
    let live = since.map_values(|e: EventView| LiveView::Event(e));
    law_stream_gives_past_and_live(before, live);
    lemma_live_events_of_events(since);
}

proof fn lemma_live_events_of_events(events: Seq<EventView>)
    ensures
        live_events(events.map_values(|e: EventView| LiveView::Event(e))) == events,
    decreases events.len(),
{
    let live = events.map_values(|e: EventView| LiveView::Event(e));
    if events.len() > 0 {
        lemma_live_events_of_events(events.drop_first());
        assert(live.drop_first() =~= events.drop_first().map_values(
            |e: EventView| LiveView::Event(e),
        ));
        assert(seq![events[0]] + events.drop_first() =~= events);
    } else {
        assert(live_events(live) =~= events);
    }
}

/// Keeping a log adds to the log file of each type of each stage the lines of just the events of
/// that type and stage, in their order.
pub proof fn law_dump_keeps_each_event(
    files: Files,
    history: Seq<EventView>,
    dir: Seq<char>,
    stage: nat,
    ty: BuildEventType,
)
    ensures
        file_text(after_writes(files, dump_writes(history, dir)), log_path(dir, stage, ty))
            == file_text(files, log_path(dir, stage, ty)) + kept_text(history, stage, ty),
    decreases history.len(),
{
    let path = log_path(dir, stage, ty);
    let writes = dump_writes(history, dir);
    if history.len() == 0 {
        assert(file_text(files, path) + kept_text(history, stage, ty) =~= file_text(files, path));
    } else {
        let event = history.last();
        law_dump_keeps_each_event(files, history.drop_last(), dir, stage, ty);
        assert(writes.drop_last() =~= dump_writes(history.drop_last(), dir));
        assert(writes.last() == event_write(event, dir));
        if event.stage == stage && event.ty == ty {
            let kept = kept_text(history.drop_last(), stage, ty);
            assert(file_text(files, path) + kept + event.payload.push('\n') =~= file_text(
                files,
                path,
            ) + (kept + event.payload.push('\n')));
        } else if writes.last().path == path {
            law_log_paths_are_distinct(dir, event.stage, event.ty, stage, ty);
        }
    }
}

/// Keeping a log changes no file but the log files in its directory.
pub proof fn law_dump_changes_log_files_only(
    files: Files,
    history: Seq<EventView>,
    dir: Seq<char>,
    path: Seq<char>,
)
    requires
        forall|stage: nat, ty: BuildEventType| path != #[trigger] log_path(dir, stage, ty),
    ensures
        after_writes(files, dump_writes(history, dir)).contains_key(path) == files.contains_key(
            path,
        ),
        file_text(after_writes(files, dump_writes(history, dir)), path) == file_text(files, path),
    decreases history.len(),
{
    let writes = dump_writes(history, dir);
    if history.len() > 0 {
        let event = history.last();
        law_dump_changes_log_files_only(files, history.drop_last(), dir, path);
        assert(writes.drop_last() =~= dump_writes(history.drop_last(), dir));
        assert(writes.last() == event_write(event, dir));
        assert(path != log_path(dir, event.stage, event.ty));
    }
}

/// In one directory, each type of event of each stage has a log file of its own.
pub proof fn law_log_paths_are_distinct(
    dir: Seq<char>,
    stage1: nat,
    ty1: BuildEventType,
    stage2: nat,
    ty2: BuildEventType,
)
    requires
        log_path(dir, stage1, ty1) == log_path(dir, stage2, ty2),
    ensures
        stage1 == stage2,
        ty1 == ty2,
{
    crate::utils::law_log_name_is_a_file_name(stage1, ty1);
    crate::utils::law_log_name_is_a_file_name(stage2, ty2);
    crate::paths::law_names_below_a_directory_are_distinct(
        dir,
        log_name(stage1, ty1),
        log_name(stage2, ty2),
    );
    crate::utils::law_log_names_are_distinct(stage1, ty1, stage2, ty2);
}

/// The log files of different builds are different files, whatever the stage and the type.
pub proof fn law_builds_share_no_log_file(
    config: ConfigView,
    id1: BuildId,
    stage1: nat,
    ty1: BuildEventType,
    id2: BuildId,
    stage2: nat,
    ty2: BuildEventType,
)
    requires
        log_path(config.build_subdirectory(id1), stage1, ty1) == log_path(
            config.build_subdirectory(id2),
            stage2,
            ty2,
        ),
    ensures
        id1 == id2,
        stage1 == stage2,
        ty1 == ty2,
{
    crate::utils::law_id_text_is_a_file_name(id1);
    crate::utils::law_id_text_is_a_file_name(id2);
    crate::utils::law_log_name_is_a_file_name(stage1, ty1);
    crate::utils::law_log_name_is_a_file_name(stage2, ty2);
    crate::paths::law_directories_are_apart(
        config.build_dir,
        id1.spec_text(),
        log_name(stage1, ty1),
        id2.spec_text(),
        log_name(stage2, ty2),
    );
    crate::utils::law_id_texts_are_distinct(id1, id2);
    crate::utils::law_log_names_are_distinct(stage1, ty1, stage2, ty2);
}

} // verus!
