//! The state of the server, which is set up once.
use vstd::prelude::*;

use crate::build::{CurrentBuildInfo, LastBuild};
use crate::clock::{is_moment, LocalTime};
use crate::config::WatcherConfig;
use crate::utils::BuildId;

verus! {

/// The state of the server: the build that is going on, the last one that finished, and the
/// configuration.
pub struct ServeState {
    pub current_build: Option<CurrentBuildInfo>,
    pub last_build: LastBuild,
    pub config: WatcherConfig,
}

/// A place for the state of the server, which is filled once.
pub struct GlobalServeState(Option<ServeState>);

impl View for GlobalServeState {
    type V = Option<ServeState>;

    closed spec fn view(&self) -> Option<ServeState> {
        self.0
    }
}

/// The state of a server whose first build has the id `id` and finished at the moment `now`.
pub open spec fn initial_state(id: BuildId, config: WatcherConfig, now: LocalTime) -> ServeState {
    ServeState { current_build: None, last_build: LastBuild { id, timestamp: now }, config }
}

/// What the place holds once it was to be filled with `state`.
pub open spec fn filled(held: Option<ServeState>, state: ServeState) -> Option<ServeState> {
    match held {
        Some(first) => Some(first),
        None => Some(state),
    }
}

impl GlobalServeState {
    /// An empty place.
    pub fn new() -> (r: Self)
        ensures
            r@ is None,
    {
        GlobalServeState(None)
    }

    /// Sets up the state, with the first build `initial_build_id` finished at the moment `now`.
    /// A state that is there already stays.
    pub fn initialize_at(
        &mut self,
        initial_build_id: BuildId,
        config: WatcherConfig,
        now: LocalTime,
    )
        ensures
            final(self)@ == filled(old(self)@, initial_state(initial_build_id, config, now)),
            match old(self)@ {
                Some(first) => final(self)@ == Some(first),
                None => {
                    &&& final(self)@ matches Some(state)
                    &&& state.current_build is None
                    &&& state.last_build.id == initial_build_id
                    &&& state.last_build.timestamp == now
                    &&& state.config == config
                },
            },
    {
        if self.0.is_none() {
            self.0 = Some(
                ServeState {
                    current_build: None,
                    last_build: LastBuild { id: initial_build_id, timestamp: now },
                    config,
                },
            );
        }
    }

    /// Sets up the state, with the first build `initial_build_id` finished at the present moment.
    /// A state that is there already stays.
    pub fn initialize(&mut self, initial_build_id: BuildId, config: WatcherConfig)
        ensures
            exists|now: LocalTime|
                {
                    &&& is_moment(now@.secs, now@.nanos, now@.offset)
                    &&& call_ensures(LocalTime::now, (), now)
                    &&& final(self)@ == filled(
                        old(self)@,
                        #[trigger] initial_state(initial_build_id, config, now),
                    )
                },
    {
        let now = LocalTime::now();
        self.initialize_at(initial_build_id, config, now);
    }

    /// Whether the state has been set up.
    pub fn is_initialized(&self) -> (r: bool)
        ensures
            r == self@ is Some,
    {
        self.0.is_some()
    }

    /// The state.
    pub fn deref(&self) -> (r: &ServeState)
        requires
            self@ is Some,
        ensures
            self@ == Some(*r),
    {
        self.0.as_ref().unwrap()
    }
}

/// The state is set up once: what was set up first is what stays.
pub proof fn law_first_state_stays(held: Option<ServeState>, first: ServeState, second: ServeState)
    ensures
        filled(held, first) is Some,
        held is None ==> filled(held, first) == Some(first),
        held is Some ==> filled(held, first) == held,
        filled(filled(held, first), second) == filled(held, first),
{
}

} // verus!
