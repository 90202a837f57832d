//! The configuration of the watcher.
use vstd::prelude::*;

use crate::paths;
use crate::paths::join_path;
use crate::text::texts;
use crate::utils::BuildId;

verus! {

/// The configuration: where to listen, how to build, and what a build leaves behind.
pub struct WatcherConfig {
    pub ip: String,
    pub port: String,
    pub build_dir: String,
    pub build_stages: Vec<BuildStage>,
    pub artifact_path: String,
}

/// One stage of a build: a program to run, and the name to show it under.
pub struct BuildStage {
    pub name: String,
    pub program: String,
    pub args: Vec<String>,
}

/// What a stage says.
pub struct StageView {
    pub name: Seq<char>,
    pub program: Seq<char>,
    pub args: Seq<Seq<char>>,
}

/// What a configuration says.
pub struct ConfigView {
    pub ip: Seq<char>,
    pub port: Seq<char>,
    pub build_dir: Seq<char>,
    pub build_stages: Seq<StageView>,
    pub artifact_path: Seq<char>,
}

impl View for BuildStage {
    type V = StageView;

    open spec fn view(&self) -> StageView {
        StageView { name: self.name@, program: self.program@, args: texts(self.args@) }
    }
}

impl View for WatcherConfig {
    type V = ConfigView;

    open spec fn view(&self) -> ConfigView {
        ConfigView {
            ip: self.ip@,
            port: self.port@,
            build_dir: self.build_dir@,
            build_stages: self.build_stages@.map_values(|s: BuildStage| s@),
            artifact_path: self.artifact_path@,
        }
    }
}

impl ConfigView {
    /// The directory in which the build `id` runs.
    pub open spec fn build_subdirectory(self, id: BuildId) -> Seq<char> {
        paths::path_join(self.build_dir, id.spec_text())
    }

    /// What the build `id` is expected to leave behind.
    pub open spec fn artifact(self, id: BuildId) -> Seq<char> {
        paths::path_join(self.build_subdirectory(id), self.artifact_path)
    }
}

/// The address to listen at where the configuration names none.
pub fn default_ip() -> (r: String)
    ensures
        r@ == "127.0.0.1"@,
{
    "127.0.0.1".to_owned()
}

/// The port to listen at where the configuration names none.
pub fn default_port() -> (r: String)
    ensures
        r@ == "9999"@,
{
    "9999".to_owned()
}

/// The directory of the builds where the configuration names none.
pub fn default_build_dir() -> (r: String)
    ensures
        r@ == "builds/"@,
{
    "builds/".to_owned()
}

impl WatcherConfig {
    /// The directory in which the build `id` runs.
    pub fn build_subdirectory_of(&self, id: BuildId) -> (r: String)
        ensures
            r@ == self@.build_subdirectory(id),
    {
        join_path(self.build_dir.as_str(), id.to_string().as_str())
    }

    /// The path at which the build `id` is expected to leave its output.
    pub fn artifact_path_of(&self, id: BuildId) -> (r: String)
        ensures
            r@ == self@.artifact(id),
    {
        join_path(self.build_subdirectory_of(id).as_str(), self.artifact_path.as_str())
    }
}

/// A build runs below the directory of the builds, in a directory named after its id.
pub proof fn law_build_runs_below_the_build_dir(config: ConfigView, id: BuildId)
    ensures
        ({
            let dir = config.build_subdirectory(id);
            let text = id.spec_text();
            &&& config.build_dir.is_prefix_of(dir)
            &&& text.is_suffix_of(dir)
            &&& dir.len() <= config.build_dir.len() + 1 + text.len()
            &&& dir.len() == config.build_dir.len() + text.len() || dir[config.build_dir.len() as int]
                == '/'
            &&& config.build_dir.len() > 0 ==> dir[dir.len() - text.len() - 1] == '/'
        }),
{
    crate::utils::law_id_text_is_a_file_name(id);
    let dir = config.build_subdirectory(id);
    let text = id.spec_text();
    assert(dir.subrange(0, config.build_dir.len() as int) =~= config.build_dir);
    assert(dir.subrange(dir.len() - text.len(), dir.len() as int) =~= text);
}

/// Different builds run in different directories.
pub proof fn law_builds_run_apart(config: ConfigView, id1: BuildId, id2: BuildId)
    requires
        config.build_subdirectory(id1) == config.build_subdirectory(id2),
    ensures
        id1 == id2,
{
    crate::utils::law_id_text_is_a_file_name(id1);
    crate::utils::law_id_text_is_a_file_name(id2);
    paths::law_names_below_a_directory_are_distinct(
        config.build_dir,
        id1.spec_text(),
        id2.spec_text(),
    );
    crate::utils::law_id_texts_are_distinct(id1, id2);
}

/// What a build leaves behind is looked for below the directory of that build, unless the
/// configuration gives a path that starts at the root.
pub proof fn law_artifact_stands_below_its_build(config: ConfigView, id: BuildId)
    ensures
        ({
            let dir = config.build_subdirectory(id);
            let path = config.artifact(id);
            if config.artifact_path.len() > 0 && config.artifact_path[0] == '/' {
                path == config.artifact_path
            } else {
                &&& dir.is_prefix_of(path)
                &&& path[dir.len() as int] == '/'
                &&& config.artifact_path.is_suffix_of(path)
                &&& path.len() == dir.len() + 1 + config.artifact_path.len()
            }
        }),
{
    crate::utils::law_id_text_is_a_file_name(id);
    let dir = config.build_subdirectory(id);
    let text = id.spec_text();
    assert(dir[dir.len() - 1] == text[text.len() - 1]);
    paths::law_join_puts_the_child_below(dir, config.artifact_path);
}

} // verus!
