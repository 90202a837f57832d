//! The manager: it runs one build at a time, and remembers the last one that finished.
use vstd::prelude::*;

use crate::build::events::{BuildEvent, EventView};
use crate::build::log::{
    dump_writes, law_follower_gets_the_whole_log, write_views, BuildLog, LiveView, LogWrite,
    StreamView, WriteView,
};
use crate::clock::{is_moment, LocalTime};
use crate::config::{ConfigView, WatcherConfig};
use crate::utils::{is_version_7, BuildId};

verus! {

/// How many events a channel holds for those who are slow to take them.
pub const BROADCAST_CHANNEL_SIZE: usize = 250;

/// The build that is going on.
pub struct CurrentBuildInfo {
    pub id: BuildId,
    pub log: BuildLog,
}

/// A build that has finished.
#[derive(Clone, Copy, Debug, PartialEq, Eq, Structural)]
pub struct LastBuild {
    pub id: BuildId,
    pub timestamp: LocalTime,
}

impl CurrentBuildInfo {
    /// The build `id`, with nothing told yet and room for `cap` events.
    pub fn start(id: BuildId, cap: usize) -> (r: Self)
        ensures
            r.id == id,
            r.log@ == Seq::<EventView>::empty(),
    {
        CurrentBuildInfo { id, log: BuildLog::with_capacity(cap) }
    }

    /// A build with a fresh id, with nothing told yet and room for `cap` events.
    pub fn with_capacity(cap: usize) -> (r: Self)
        ensures
            is_version_7(r.id.inner),
            call_ensures(BuildId::new, (), r.id),
            r.log@ == Seq::<EventView>::empty(),
    {
        Self::start(BuildId::new(), cap)
    }
}

/// The builds: at most one that is going on, and the last one that finished.
pub struct BuildManager {
    current: Option<CurrentBuildInfo>,
    last: Option<LastBuild>,
}

/// The id and the events of the build that is going on, and the last one that finished.
pub struct ManagerView {
    pub current: Option<(BuildId, Seq<EventView>)>,
    pub last: Option<LastBuild>,
}

impl View for BuildManager {
    type V = ManagerView;

    closed spec fn view(&self) -> ManagerView {
        ManagerView {
            current: match self.current {
                Some(build) => Some((build.id, build.log@)),
                None => None,
            },
            last: self.last,
        }
    }
}

/// Word from the build that is going on.
#[derive(Debug)]
pub enum News {
    /// An event.
    Event(BuildEvent),
    /// Events were lost on the way.
    Lagged,
    /// The build has finished.
    Closed,
}

/// Word from the build that is going on, as a spec.
pub enum NewsView {
    Event(EventView),
    Lagged,
    Closed,
}

impl View for News {
    type V = NewsView;

    open spec fn view(&self) -> NewsView {
        match self {
            News::Event(event) => NewsView::Event(event@),
            News::Lagged => NewsView::Lagged,
            News::Closed => NewsView::Closed,
        }
    }
}

/// What is to be done upon word from a build.
#[derive(Debug)]
pub enum Reaction {
    /// Hand this event to those who follow the build.
    Broadcast(BuildEvent),
    /// Nothing.
    Nothing,
    /// End the build.
    Finish(Finish),
}

/// What is to be done at the end of a build: announce it if it was the first, and keep its log.
#[derive(Debug)]
pub struct Finish {
    pub announcement: Option<String>,
    pub writes: Vec<LogWrite>,
}

/// What is to be done at the end of a build, as a spec.
pub struct FinishView {
    pub announcement: Option<Seq<char>>,
    pub writes: Seq<WriteView>,
}

impl View for Finish {
    type V = FinishView;

    open spec fn view(&self) -> FinishView {
        FinishView {
            announcement: match self.announcement {
                Some(text) => Some(text@),
                None => None,
            },
            writes: write_views(self.writes@),
        }
    }
}

/// What is to be done upon word from a build, as a spec.
pub enum ReactionView {
    Broadcast(EventView),
    Nothing,
    Finish(FinishView),
}

impl View for Reaction {
    type V = ReactionView;

    open spec fn view(&self) -> ReactionView {
        match self {
            Reaction::Broadcast(event) => ReactionView::Broadcast(event@),
            Reaction::Nothing => ReactionView::Nothing,
            Reaction::Finish(finish) => ReactionView::Finish(finish@),
        }
    }
}

impl ManagerView {
    /// No build is going on, and none has finished.
    pub open spec fn initial() -> ManagerView {
        ManagerView { current: None, last: None }
    }

    /// The answer to the request to start a build, which would get the id `id`: `Ok` with that
    /// id, or `Err` with the id of the build that is going on already.
    pub open spec fn start_response(self, id: BuildId) -> Result<BuildId, BuildId> {
        match self.current {
            Some((current, _)) => Err(current),
            None => Ok(id),
        }
    }

    /// The manager once it was asked to start a build, which would get the id `id`.
    pub open spec fn after_start(self, id: BuildId) -> ManagerView {
        match self.current {
            Some(_) => self,
            None => ManagerView { current: Some((id, Seq::empty())), ..self },
        }
    }

    /// The manager once the build that is going on has told an event.
    pub open spec fn after_event(self, event: EventView) -> ManagerView {
        let (id, history) = self.current->0;
        ManagerView { current: Some((id, history.push(event))), ..self }
    }

    /// The manager once the build that is going on has ended, at the moment `now`.
    pub open spec fn after_finish(self, now: LocalTime) -> ManagerView {
        let (id, _) = self.current->0;
        ManagerView { current: None, last: Some(LastBuild { id, timestamp: now }) }
    }

    /// What is to be done at the end of the build that is going on.
    pub open spec fn finish(self, config: ConfigView) -> FinishView {
        let (id, history) = self.current->0;
        FinishView {
            announcement: if self.last is None {
                Some("Server initialized: first build complete at "@ + id.spec_text())
            } else {
                None
            },
            writes: dump_writes(history, config.build_subdirectory(id)),
        }
    }

    /// The manager once it had word, at the moment `now`, from the build that is going on.
    pub open spec fn after_news(self, news: NewsView, now: LocalTime) -> ManagerView {
        match news {
            NewsView::Event(event) => self.after_event(event),
            NewsView::Lagged => self,
            NewsView::Closed => self.after_finish(now),
        }
    }

    /// The manager once it had these news, one after the other.
    pub open spec fn after_all_news(self, news: Seq<NewsView>, now: LocalTime) -> ManagerView
        decreases news.len(),
    {
        if news.len() == 0 {
            self
        } else {
            self.after_all_news(news.drop_last(), now).after_news(news.last(), now)
        }
    }

    /// What is to be done upon word from the build that is going on.
    pub open spec fn reaction(self, config: ConfigView, news: NewsView) -> ReactionView {
        match news {
            NewsView::Event(event) => ReactionView::Broadcast(event),
            NewsView::Lagged => ReactionView::Nothing,
            NewsView::Closed => ReactionView::Finish(self.finish(config)),
        }
    }
}

impl BuildManager {
    /// A manager that has seen no build.
    pub fn new() -> (r: Self)
        ensures
            r@ == ManagerView::initial(),
    {
        BuildManager { current: None, last: None }
    }

    /// Whether a build is going on.
    pub fn is_building(&self) -> (r: bool)
        ensures
            r == self@.current is Some,
    {
        self.current.is_some()
    }

    /// Answers the request to start a build, which gets the id `id` if none is going on.
    pub fn start_build_as(&mut self, config: &WatcherConfig, id: BuildId) -> (r: Result<
        BuildId,
        BuildId,
    >)
        ensures
            r == old(self)@.start_response(id),
            final(self)@ == old(self)@.after_start(id),
            match old(self)@.current {
                Some((current, _)) => r == Err::<BuildId, BuildId>(current) && final(self)@
                    == old(self)@,
                None => {
                    &&& r == Ok::<BuildId, BuildId>(id)
                    &&& final(self)@.current == Some((id, Seq::<EventView>::empty()))
                    &&& final(self)@.last == old(self)@.last
                },
            },
    {
        match &self.current {
            Some(build) => Err(build.id),
            None => {
                self.current = Some(CurrentBuildInfo::start(id, config.build_stages.len()));
                Ok(id)
            },
        }
    }

    /// Answers the request to start a build: `Ok` with a fresh id, or `Err` with the id of the
    /// build that is going on already.
    pub fn start_build(&mut self, config: &WatcherConfig) -> (r: Result<BuildId, BuildId>)
        ensures
            match r {
                Ok(id) => {
                    &&& old(self)@.current is None
                    &&& is_version_7(id.inner)
                    &&& call_ensures(BuildId::new, (), id)
                    &&& final(self)@ == old(self)@.after_start(id)
                    &&& final(self)@.current == Some((id, Seq::<EventView>::empty()))
                    &&& final(self)@.last == old(self)@.last
                },
                Err(id) => {
                    &&& old(self)@.current matches Some((current, _))
                    &&& id == current
                    &&& final(self)@ == old(self)@
                },
            },
    {
        match &self.current {
            Some(build) => Err(build.id),
            None => {
                let build = CurrentBuildInfo::with_capacity(config.build_stages.len());
                let id = build.id;
                self.current = Some(build);
                Ok(id)
            },
        }
    }

    /// Answers the request to follow the build that is going on: its id, and its log so far.
    pub fn subscribe_build(&self) -> (r: Option<(BuildId, BuildLog)>)
        ensures
            match r {
                Some((id, log)) => Some((id, log@)),
                None => None,
            } == self@.current,
    {
        match &self.current {
            Some(build) => Some((build.id, build.log.clone())),
            None => None,
        }
    }

    /// Answers the request for the last build that finished.
    pub fn query_last_build(&self) -> (r: Option<LastBuild>)
        ensures
            r == self@.last,
    {
        self.last
    }

    /// Adds an event to the log of the build that is going on, and hands it back for those who
    /// follow the build.
    pub fn record_event(&mut self, event: BuildEvent) -> (r: BuildEvent)
        requires
            old(self)@.current is Some,
        ensures
            final(self)@ == old(self)@.after_event(event@),
            r@ == event@,
            ({
                let (id, history) = old(self)@.current->0;
                &&& final(self)@.current == Some((id, history.push(event@)))
                &&& final(self)@.last == old(self)@.last
            }),
    {
        let mut build = self.current.take().unwrap();
        let event = build.log.log_event(event);
        self.current = Some(build);
        event
    }

    /// Ends the build that is going on, at the moment `now`.
    pub fn finish_build_at(&mut self, config: &WatcherConfig, now: LocalTime) -> (r: Finish)
        requires
            old(self)@.current is Some,
        ensures
            final(self)@ == old(self)@.after_finish(now),
            r@ == old(self)@.finish(config@),
            final(self)@.current is None,
            ({
                let (id, history) = old(self)@.current->0;
                &&& final(self)@.last == Some(LastBuild { id, timestamp: now })
                &&& r.announcement is Some <==> old(self)@.last is None
                &&& r.writes@.len() == history.len()
                &&& forall|i: int|
                    0 <= i < history.len() ==> (#[trigger] r.writes@[i]).text@
                        == history[i].payload.push('\n')
            }),
    {
        let build = self.current.take().unwrap();
        let announcement = if self.last.is_none() {
            let mut text = "Server initialized: first build complete at ".to_owned();
            text.append(build.id.to_string().as_str());
            Some(text)
        } else {
            None
        };
        self.last = Some(LastBuild { id: build.id, timestamp: now });
        let dir = config.build_subdirectory_of(build.id);
        Finish { announcement, writes: build.log.dump(dir.as_str()) }
    }

    /// Takes in word from the build that is going on. The build ends at the present moment if
    /// the word is that it has finished.
    pub fn observe(&mut self, config: &WatcherConfig, news: News) -> (r: Reaction)
        requires
            old(self)@.current is Some,
        ensures
            match news@ {
                NewsView::Event(event) => final(self)@ == old(self)@.after_event(event),
                NewsView::Lagged => final(self)@ == old(self)@,
                NewsView::Closed => exists|now: LocalTime|
                    {
                        &&& is_moment(now@.secs, now@.nanos, now@.offset)
                        &&& call_ensures(LocalTime::now, (), now)
                        &&& final(self)@ == #[trigger] old(self)@.after_finish(now)
                    },
            },
            r@ == old(self)@.reaction(config@, news@),
            match news@ {
                NewsView::Event(event) => r matches Reaction::Broadcast(told) && told@ == event,
                NewsView::Lagged => r is Nothing,
                NewsView::Closed => r is Finish,
            },
    {
        match news {
            News::Event(event) => Reaction::Broadcast(self.record_event(event)),
            News::Lagged => Reaction::Nothing,
            News::Closed => {
                let now = LocalTime::now();
                Reaction::Finish(self.finish_build_at(config, now))
            },
        }
    }
}

/// The events among the news.
pub open spec fn events_in(news: Seq<NewsView>) -> Seq<EventView>
    decreases news.len(),
{
    if news.len() == 0 {
        Seq::empty()
    } else {
        let before = events_in(news.drop_last());
        match news.last() {
            NewsView::Event(event) => before.push(event),
            _ => before,
        }
    }
}

/// Where the news are nothing but events, the events among them are all of them.
pub proof fn lemma_events_in_events(events: Seq<EventView>)
    ensures
        events_in(events.map_values(|e: EventView| NewsView::Event(e))) == events,
    decreases events.len(),
{
    let news = events.map_values(|e: EventView| NewsView::Event(e));
    if events.len() > 0 {
        lemma_events_in_events(events.drop_last());
        assert(news.drop_last() =~= events.drop_last().map_values(
            |e: EventView| NewsView::Event(e),
        ));
        assert(events.drop_last().push(events.last()) =~= events);
    } else {
        assert(events_in(news) =~= events);
    }
}

/// While a build is going on, a request to start another one is refused with the id of the one
/// that is going on, and changes nothing.
pub proof fn law_one_build_at_a_time(manager: ManagerView, id: BuildId)
    requires
        manager.current is Some,
    ensures
        manager.current matches Some((current, _)) ==> manager.start_response(id) == Err::<
            BuildId,
            BuildId,
        >(current),
        manager.after_start(id) == manager,
{
}

/// Once a build was started, and until it ends, it is the one that is going on: one who asks
/// gets its id, and a log of just the events told since, in their order.
pub proof fn law_log_holds_what_was_told(
    manager: ManagerView,
    id: BuildId,
    news: Seq<NewsView>,
    now: LocalTime,
)
    requires
        manager.current is None,
        forall|i: int| 0 <= i < news.len() ==> !(#[trigger] news[i] is Closed),
    ensures
        manager.after_start(id).after_all_news(news, now) == (ManagerView {
            current: Some((id, events_in(news))),
            ..manager
        }),
    decreases news.len(),
{
    if news.len() > 0 {
        let before = news.drop_last();
        assert forall|i: int| 0 <= i < before.len() implies !(#[trigger] before[i] is Closed) by {
            assert(before[i] == news[i]);
        }
        law_log_holds_what_was_told(manager, id, before, now);
        assert(!(news[news.len() - 1] is Closed));
    }
}

/// When the build that was started ends, it is the last one that finished, no build is going on,
/// and what is kept below its directory is just what it told.
pub proof fn law_build_becomes_the_last_one(
    manager: ManagerView,
    config: ConfigView,
    id: BuildId,
    news: Seq<NewsView>,
    now: LocalTime,
)
    requires
        manager.current is None,
        forall|i: int| 0 <= i < news.len() ==> !(#[trigger] news[i] is Closed),
    ensures
        ({
            let building = manager.after_start(id).after_all_news(news, now);
            &&& building.after_news(NewsView::Closed, now) == (ManagerView {
                current: None,
                last: Some(LastBuild { id, timestamp: now }),
            })
            &&& building.reaction(config, NewsView::Closed) matches ReactionView::Finish(finish)
            &&& finish.writes == dump_writes(events_in(news), config.build_subdirectory(id))
            &&& finish.announcement is Some <==> manager.last is None
            &&& match finish.announcement {
                Some(text) => {
                    &&& manager.last is None
                    &&& "Server initialized: first build complete at "@.is_prefix_of(text)
                    &&& id.spec_text() == text.skip(
                        "Server initialized: first build complete at "@.len() as int,
                    )
                },
                None => manager.last is Some,
            }
        }),
{
    law_log_holds_what_was_told(manager, id, news, now);
    let start = "Server initialized: first build complete at "@;
    let text = start + id.spec_text();
    assert(text.subrange(0, start.len() as int) =~= start);
    assert(text.skip(start.len() as int) =~= id.spec_text());
}

/// Once a build has finished there is always a last one, and only the end of a build changes
/// which one it is.
pub proof fn law_last_build_is_remembered(
    manager: ManagerView,
    id: BuildId,
    news: NewsView,
    now: LocalTime,
)
    ensures
        manager.after_start(id).last == manager.last,
        !(news is Closed) ==> manager.after_news(news, now).last == manager.last,
        manager.last is Some ==> manager.after_news(news, now).last is Some,
{
}

/// The events that are handed on to those who follow the build while these news come in.
pub open spec fn handed_on(
    manager: ManagerView,
    config: ConfigView,
    news: Seq<NewsView>,
    now: LocalTime,
) -> Seq<EventView>
    decreases news.len(),
{
    if news.len() == 0 {
        Seq::empty()
    } else {
        let before = handed_on(manager, config, news.drop_last(), now);
        match manager.after_all_news(news.drop_last(), now).reaction(config, news.last()) {
            ReactionView::Broadcast(event) => before.push(event),
            _ => before,
        }
    }
}

/// While a build is going on, what is handed on to its followers is just what is added to its log:
/// the log so far and the events handed on make up the log at the end, and one who followed from
/// any moment on and missed nothing got that whole log.
pub proof fn law_followers_get_what_is_logged(
    manager: ManagerView,
    config: ConfigView,
    news: Seq<NewsView>,
    now: LocalTime,
)
    requires
        manager.current is Some,
        forall|i: int| 0 <= i < news.len() ==> !(#[trigger] news[i] is Closed),
    ensures
        ({
            let (id, snapshot) = manager.current->0;
            let handed = handed_on(manager, config, news, now);
            let later = manager.after_all_news(news, now);
            &&& later.current == Some((id, snapshot + handed))
            &&& later.last == manager.last
            &&& (StreamView { pending: snapshot, open: true }).output(
                handed.map_values(|e: EventView| LiveView::Event(e)),
            ) == snapshot + handed
            &&& handed == events_in(news)
        }),
{
    let (id, snapshot) = manager.current->0;
    lemma_handed_on(manager, config, news, now);
    law_follower_gets_the_whole_log(snapshot, handed_on(manager, config, news, now));
}

proof fn lemma_handed_on(
    manager: ManagerView,
    config: ConfigView,
    news: Seq<NewsView>,
    now: LocalTime,
)
    requires
        manager.current is Some,
        forall|i: int| 0 <= i < news.len() ==> !(#[trigger] news[i] is Closed),
    ensures
        ({
            let (id, snapshot) = manager.current->0;
            let handed = handed_on(manager, config, news, now);
            let later = manager.after_all_news(news, now);
            &&& later.current == Some((id, snapshot + handed))
            &&& later.last == manager.last
            &&& handed == events_in(news)
        }),
    decreases news.len(),
{
    let (id, snapshot) = manager.current->0;
    if news.len() == 0 {
        assert(snapshot + Seq::<EventView>::empty() =~= snapshot);
    } else {
        let before = news.drop_last();
        assert forall|i: int| 0 <= i < before.len() implies !(#[trigger] before[i] is Closed) by {
            assert(before[i] == news[i]);
        }
        lemma_handed_on(manager, config, before, now);
        let handed = handed_on(manager, config, before, now);
        assert(!(news[news.len() - 1] is Closed));
        match news.last() {
            NewsView::Event(event) => {
                assert((snapshot + handed).push(event) =~= snapshot + handed.push(event));
            },
            _ => {},
        }
    }
}

/// What a manager is asked or told.
pub enum StepView {
    /// To start a build, for which this id was drawn.
    Start(BuildId),
    /// Word from the build that is going on, at this moment.
    News(NewsView, LocalTime),
}

impl ManagerView {
    /// The manager after one step. Without a build that is going on there is no word from one.
    pub open spec fn after_step(self, step: StepView) -> ManagerView {
        match step {
            StepView::Start(id) => self.after_start(id),
            StepView::News(news, now) => if self.current is Some {
                self.after_news(news, now)
            } else {
                self
            },
        }
    }

    /// The manager after these steps, one after the other.
    pub open spec fn after_steps(self, steps: Seq<StepView>) -> ManagerView
        decreases steps.len(),
    {
        if steps.len() == 0 {
            self
        } else {
            self.after_steps(steps.drop_last()).after_step(steps.last())
        }
    }

    /// The ids of the builds that were started in these steps, as they were answered.
    pub open spec fn started_ids(self, steps: Seq<StepView>) -> Seq<BuildId>
        decreases steps.len(),
    {
        if steps.len() == 0 {
            Seq::empty()
        } else {
            let before = self.started_ids(steps.drop_last());
            match steps.last() {
                StepView::Start(id) => match self.after_steps(steps.drop_last()).start_response(
                    id,
                ) {
                    Ok(started) => before.push(started),
                    Err(_) => before,
                },
                _ => before,
            }
        }
    }
}

/// The ids that were drawn for the steps.
pub open spec fn drawn_ids(steps: Seq<StepView>) -> Seq<BuildId>
    decreases steps.len(),
{
    if steps.len() == 0 {
        Seq::empty()
    } else {
        match steps.last() {
            StepView::Start(id) => drawn_ids(steps.drop_last()).push(id),
            _ => drawn_ids(steps.drop_last()),
        }
    }
}

/// Where no id is drawn twice, no two builds that were ever started have the same id, and so each
/// has a directory of its own; the build that is going on and the last one that finished are
/// among them, and are different ones.
pub proof fn law_each_build_has_an_id_of_its_own(config: ConfigView, steps: Seq<StepView>)
    requires
        drawn_ids(steps).no_duplicates(),
    ensures
        ({
            let started = ManagerView::initial().started_ids(steps);
            let manager = ManagerView::initial().after_steps(steps);
            &&& forall|i: int, j: int|
                0 <= i < j < started.len() ==> {
                    &&& #[trigger] started[i] != #[trigger] started[j]
                    &&& config.build_subdirectory(started[i]) != config.build_subdirectory(
                        started[j],
                    )
                }
            &&& manager.current matches Some((id, _)) ==> {
                &&& started.contains(id)
                &&& manager.last matches Some(last) ==> last.id != id
            }
            &&& manager.last matches Some(last) ==> started.contains(last.id)
        }),
{
    let started = ManagerView::initial().started_ids(steps);
    lemma_started_ids(steps);
    assert forall|i: int, j: int| 0 <= i < j < started.len() implies {
        &&& #[trigger] started[i] != #[trigger] started[j]
        &&& config.build_subdirectory(started[i]) != config.build_subdirectory(started[j])
    } by {
        if config.build_subdirectory(started[i]) == config.build_subdirectory(started[j]) {
            crate::config::law_builds_run_apart(config, started[i], started[j]);
        }
    }
}

/// Where an id is drawn that was not drawn before, the build that is started with it has an id
/// that no build before it had, and the answer names that id.
pub proof fn law_started_build_is_a_new_one(steps: Seq<StepView>, id: BuildId)
    requires
        drawn_ids(steps.push(StepView::Start(id))).no_duplicates(),
    ensures
        ({
            let manager = ManagerView::initial().after_steps(steps);
            manager.start_response(id) matches Ok(answer) ==> {
                &&& answer == id
                &&& !ManagerView::initial().started_ids(steps).contains(answer)
                &&& manager.last matches Some(last) ==> last.id != answer
                &&& manager.after_start(id).current == Some((answer, Seq::<EventView>::empty()))
            }
        }),
{
    let all = steps.push(StepView::Start(id));
    assert(all.drop_last() =~= steps);
    let drawn = drawn_ids(steps);
    assert forall|i: int, j: int| 0 <= i < j < drawn.len() implies drawn[i] != drawn[j] by {
        assert(drawn_ids(all)[i] == drawn[i]);
        assert(drawn_ids(all)[j] == drawn[j]);
    }
    lemma_started_ids(steps);
    if drawn.contains(id) {
        let i = choose|i: int| 0 <= i < drawn.len() && drawn[i] == id;
        assert(drawn_ids(all)[i] == drawn_ids(all)[drawn.len() as int]);
    }
}

proof fn lemma_started_ids(steps: Seq<StepView>)
    requires
        drawn_ids(steps).no_duplicates(),
    ensures
        ({
            let started = ManagerView::initial().started_ids(steps);
            let manager = ManagerView::initial().after_steps(steps);
            &&& started.no_duplicates()
            &&& forall|i: int|
                0 <= i < started.len() ==> drawn_ids(steps).contains(#[trigger] started[i])
            &&& manager.current matches Some((id, _)) ==> {
                &&& started.len() > 0
                &&& started.last() == id
                &&& manager.last matches Some(last) ==> last.id != id
            }
            &&& manager.last matches Some(last) ==> started.contains(last.id)
        }),
    decreases steps.len(),
{
    if steps.len() > 0 {
        let before = steps.drop_last();
        let drawn = drawn_ids(steps);
        let drawn_before = drawn_ids(before);
        assert(drawn_before.no_duplicates()) by {
            assert forall|i: int, j: int|
                0 <= i < j < drawn_before.len() implies drawn_before[i] != drawn_before[j] by {
                assert(drawn[i] == drawn_before[i]);
                assert(drawn[j] == drawn_before[j]);
            }
        }
        lemma_started_ids(before);
        let started_before = ManagerView::initial().started_ids(before);
        let started = ManagerView::initial().started_ids(steps);
        let earlier = ManagerView::initial().after_steps(before);
        assert forall|i: int| 0 <= i < started_before.len() implies drawn.contains(
            #[trigger] started_before[i],
        ) by {
            let k = choose|k: int|
                0 <= k < drawn_before.len() && drawn_before[k] == started_before[i];
            assert(drawn[k] == started_before[i]);
        }
        match steps.last() {
            StepView::Start(id) => {
                assert(drawn[drawn_before.len() as int] == id);
                if drawn_before.contains(id) {
                    let k = choose|k: int| 0 <= k < drawn_before.len() && drawn_before[k] == id;
                    assert(drawn[k] == drawn[drawn_before.len() as int]);
                }
                if started_before.contains(id) {
                    let k = choose|k: int| 0 <= k < started_before.len() && started_before[k] == id;
                    assert(drawn_before.contains(started_before[k]));
                }
                if earlier.last is Some && earlier.current is None {
                    let k = choose|k: int|
                        0 <= k < started_before.len() && started_before[k] == earlier.last->0.id;
                    assert(started[k] == earlier.last->0.id);
                }
            },
            StepView::News(news, now) => {
                assert(started == started_before);
                if earlier.current is Some {
                    let (id, _) = earlier.current->0;
                    assert(started[started.len() - 1] == id);
                }
            },
        }
    }
}

} // verus!
