//! Builds: their events and logs, the stages they go through, and the manager that runs one of
//! them at a time.
pub mod events;
pub mod log;
pub mod manager;
pub mod run;

pub use events::{BuildEvent, BuildEventType};
pub use log::{BuildLog, EventStream, Live, LogWrite, StreamStep};
pub use manager::{
    BuildManager, CurrentBuildInfo, Finish, LastBuild, News, Reaction, BROADCAST_CHANNEL_SIZE,
};
pub use run::{BuildResult, BuildRun, Outcome, Phase, Task};
