//! The events of a build.
use vstd::prelude::*;

verus! {

/// What an event of a build tells.
#[derive(Clone, Copy, Debug, PartialEq, Eq, Structural)]
pub enum BuildEventType {
    Message,
    Error,
}

/// One event of a build: a line of output, or how a step went.
#[derive(Debug)]
pub struct BuildEvent {
    pub ty: BuildEventType,
    pub payload: String,
    pub stage: usize,
}

/// What an event says.
pub struct EventView {
    pub ty: BuildEventType,
    pub payload: Seq<char>,
    pub stage: nat,
}

impl View for BuildEvent {
    type V = EventView;

    open spec fn view(&self) -> EventView {
        EventView { ty: self.ty, payload: self.payload@, stage: self.stage as nat }
    }
}

impl Clone for BuildEvent {
    fn clone(&self) -> (r: Self)
        ensures
            r@ == self@,
    {
        BuildEvent { ty: self.ty, payload: self.payload.clone(), stage: self.stage }
    }
}

/// What each of the events says.
pub open spec fn event_views(events: Seq<BuildEvent>) -> Seq<EventView> {
    events.map_values(|e: BuildEvent| e@)
}

} // verus!
