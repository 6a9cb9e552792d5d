//! The life of the plugins: the stages that every plugin goes through, in
//! an order that is the same for all, and what becomes of a plugin that
//! fails on the way.

use vstd::prelude::*;
use vstd::string::*;
use crate::pipeline::control::MeasurementPipeline;
use crate::pipeline::elements::Source;
use crate::pipeline::registry::{selected_ids, surviving, ElementSelector, SelectorView};
use crate::text::{decimal, u64_to_string};

verus! {

/// A stage in the life of a plugin.
#[derive(Clone, Copy, Debug, PartialEq, Eq, Structural)]
pub enum Stage {
    Init,
    Start,
    PrePipelineStart,
    PostPipelineStart,
}

/// Where the start of the agent stands.
#[derive(Clone, Copy, Debug, PartialEq, Eq, Structural)]
pub enum Phase {
    /// The plugins go through the stage, one after the other.
    Plugins(Stage),
    /// Every plugin is through the stages before the pipeline; the
    /// pipeline is started next.
    Launch,
    /// Every plugin is through all its stages.
    Running,
}

/// What the agent does next.
#[derive(Clone, Copy, Debug, PartialEq, Eq, Structural)]
pub enum LifecycleAction {
    /// The plugin at `plugin` goes through `stage`.
    Run { plugin: usize, stage: Stage },
    /// The pipeline is started.
    LaunchPipeline,
    /// Nothing is left to do.
    Done,
}

/// The place of a phase in the order of the phases.
pub open spec fn phase_rank(phase: Phase) -> int {
    match phase {
        Phase::Plugins(Stage::Init) => 0,
        Phase::Plugins(Stage::Start) => 1,
        Phase::Plugins(Stage::PrePipelineStart) => 2,
        Phase::Launch => 3,
        Phase::Plugins(Stage::PostPipelineStart) => 4,
        Phase::Running => 5,
    }
}

/// The phase that follows `phase`.
pub open spec fn phase_after(phase: Phase) -> Phase {
    match phase {
        Phase::Plugins(Stage::Init) => Phase::Plugins(Stage::Start),
        Phase::Plugins(Stage::Start) => Phase::Plugins(Stage::PrePipelineStart),
        Phase::Plugins(Stage::PrePipelineStart) => Phase::Launch,
        Phase::Launch => Phase::Plugins(Stage::PostPipelineStart),
        Phase::Plugins(Stage::PostPipelineStart) => Phase::Running,
        Phase::Running => Phase::Running,
    }
}

/// The first position at or after `from` of a plugin that has not failed,
/// or the number of plugins if there is none.
pub open spec fn next_alive(failed: Seq<bool>, from: int) -> int
    decreases failed.len() - from,
{
    if from < 0 || from >= failed.len() {
        failed.len() as int
    } else if !failed[from] {
        from
    } else {
        next_alive(failed, from + 1)
    }
}

/// The next action of an agent that stands at `phase`, with the plugins
/// before `cursor` through the stage of the phase, and the phase and
/// cursor after the action. Plugins that have failed are passed over.
pub open spec fn next_step(failed: Seq<bool>, phase: Phase, cursor: int) -> (
    LifecycleAction,
    Phase,
    int,
)
    decreases 5 - phase_rank(phase),
{
    match phase {
        Phase::Running => (LifecycleAction::Done, Phase::Running, cursor),
        Phase::Launch => (LifecycleAction::LaunchPipeline, phase_after(phase), 0),
        Phase::Plugins(stage) => {
            let at = next_alive(failed, cursor);
            if at < failed.len() {
                (LifecycleAction::Run { plugin: at as usize, stage }, phase, at + 1)
            } else {
                next_step(failed, phase_after(phase), 0)
            }
        },
    }
}

/// The first plugin at or after `from` that has not failed is at or after
/// `from`, and no plugin between the two is alive.
pub proof fn lemma_next_alive(failed: Seq<bool>, from: int)
    requires
        0 <= from,
    ensures
        from <= next_alive(failed, from) || next_alive(failed, from) == failed.len(),
        next_alive(failed, from) <= failed.len(),
        next_alive(failed, from) < failed.len() ==> !failed[next_alive(failed, from)],
        forall|i: int| from <= i < next_alive(failed, from) ==> #[trigger] failed[i],
    decreases failed.len() - from,
{
    if from < failed.len() && failed[from] {
        lemma_next_alive(failed, from + 1);
    }
}

/// The stages come in one order for all the plugins. Each step of the
/// agent moves forward: to a later plugin in the same phase, or to a later
/// phase. A plugin that enters a stage has not failed, and the stage is
/// that of the phase that the agent is in after the step. So no plugin
/// enters a stage before every plugin is through the stage before it, and
/// the pipeline is started after the last stage before it and before the
/// first stage after it.
pub proof fn lemma_step_moves_forward(failed: Seq<bool>, phase: Phase, cursor: int)
    requires
        0 <= cursor,
        failed.len() <= usize::MAX,
    ensures
        ({
            let (action, phase2, cursor2) = next_step(failed, phase, cursor);
            &&& phase_rank(phase2) >= phase_rank(phase)
            &&& cursor2 >= 0
            &&& action matches LifecycleAction::Run { plugin, stage } ==> {
                &&& phase2 == Phase::Plugins(stage)
                &&& plugin < failed.len()
                &&& !failed[plugin as int]
                &&& cursor2 == plugin + 1
                &&& phase2 == phase ==> plugin >= cursor
                &&& forall|i: int|
                    (if phase2 == phase {
                        cursor
                    } else {
                        0
                    }) <= i < plugin ==> #[trigger] failed[i]
            }
            &&& action is LaunchPipeline ==> phase_rank(phase) <= 3 && phase2 == Phase::Plugins(
                Stage::PostPipelineStart,
            )
            &&& action is Done ==> phase2 == Phase::Running
            &&& !(action is Done) ==> phase_rank(phase2) > phase_rank(phase) || cursor2 > cursor
        }),
    decreases 5 - phase_rank(phase),
{
    match phase {
        Phase::Running => {},
        Phase::Launch => {},
        Phase::Plugins(stage) => {
            lemma_next_alive(failed, cursor);
            let at = next_alive(failed, cursor);
            if at >= failed.len() {
                lemma_step_moves_forward(failed, phase_after(phase), 0);
            }
        },
    }
}

/// A plugin of the agent.
#[derive(Debug)]
pub struct PluginRecord {
    pub name: String,
    pub version: String,
    /// The stage at which the plugin failed, if it has.
    pub failed_at: Option<Stage>,
}

/// Leads the plugins through their stages: all of them through one stage
/// before any of them enters the next, and the pipeline started between
/// the stage before it and the stage after it.
#[derive(Debug)]
pub struct PluginManager {
    pub plugins: Vec<PluginRecord>,
    pub phase: Phase,
    pub cursor: usize,
}

/// What the start of the agent came to.
#[derive(Clone, Copy, Debug, PartialEq, Eq, Structural)]
pub struct StartupReport {
    /// Plugins that have not failed.
    pub loaded: usize,
    /// Plugins that have failed.
    pub failed: usize,
    pub metrics: usize,
    pub sources: usize,
    pub transforms: usize,
    pub outputs: usize,
}

/// For each plugin in `plugins`, whether it has failed.
pub open spec fn failures(plugins: Seq<PluginRecord>) -> Seq<bool> {
    plugins.map_values(|p: PluginRecord| p.failed_at is Some)
}

/// The number of the first `upto` plugins that have failed.
pub open spec fn failed_count(failed: Seq<bool>, upto: int) -> int
    decreases upto,
{
    if upto <= 0 {
        0
    } else {
        failed_count(failed, upto - 1) + if upto <= failed.len() && failed[upto - 1] {
            1int
        } else {
            0int
        }
    }
}

impl PluginManager {
    /// A manager of the plugins `plugins`, none of which has entered a
    /// stage yet.
    pub fn new(plugins: Vec<PluginRecord>) -> (m: PluginManager)
        ensures
            m.plugins == plugins,
            m.phase == Phase::Plugins(Stage::Init),
            m.cursor == 0,
    {
        PluginManager { plugins, phase: Phase::Plugins(Stage::Init), cursor: 0 }
    }

    fn find_alive(&self, from: usize) -> (at: usize)
        ensures
            at == next_alive(failures(self.plugins@), from as int),
            at <= self.plugins@.len(),
    {
        let ghost failed = failures(self.plugins@);
        let mut i: usize = from;
        if i >= self.plugins.len() {
            return self.plugins.len();
        }
        while i < self.plugins.len()
            invariant
                from <= i <= self.plugins@.len(),
                failed == failures(self.plugins@),
                next_alive(failed, from as int) == next_alive(failed, i as int),
            decreases self.plugins@.len() - i,
        {
            if self.plugins[i].failed_at.is_none() {
                return i;
            }
            i += 1;
        }
        i
    }

    /// Says what the agent does next, and moves on. The plugins that have
    /// not failed go through the stage of the phase in their order; when
    /// none is left, the next phase begins.
    pub fn step(&mut self) -> (action: LifecycleAction)
        ensures
            final(self).plugins == old(self).plugins,
            (action, final(self).phase, final(self).cursor as int) == next_step(
                failures(old(self).plugins@),
                old(self).phase,
                old(self).cursor as int,
            ),
    {
        let ghost failed = failures(self.plugins@);
        let ghost target = next_step(failed, self.phase, self.cursor as int);
        loop
            invariant
                self.plugins == old(self).plugins,
                failed == failures(self.plugins@),
                target == next_step(failed, self.phase, self.cursor as int),
                target == next_step(
                    failures(old(self).plugins@),
                    old(self).phase,
                    old(self).cursor as int,
                ),
            decreases 5 - phase_rank(self.phase),
        {
            match self.phase {
                Phase::Running => {
                    return LifecycleAction::Done;
                },
                Phase::Launch => {
                    self.phase = Phase::Plugins(Stage::PostPipelineStart);
                    self.cursor = 0;
                    return LifecycleAction::LaunchPipeline;
                },
                Phase::Plugins(stage) => {
                    let at = self.find_alive(self.cursor);
                    if at < self.plugins.len() {
                        self.cursor = at + 1;
                        return LifecycleAction::Run { plugin: at, stage };
                    }
                    self.phase = match stage {
                        Stage::Init => Phase::Plugins(Stage::Start),
                        Stage::Start => Phase::Plugins(Stage::PrePipelineStart),
                        Stage::PrePipelineStart => Phase::Launch,
                        Stage::PostPipelineStart => Phase::Running,
                    };
                    self.cursor = 0;
                },
            }
        }
    }

    /// Records that the plugin at `plugin` failed at `stage`. The plugin
    /// does not enter any further stage. A failure that was recorded
    /// before stays as it is, and a position without a plugin is passed
    /// over.
    pub fn fail(&mut self, plugin: usize, stage: Stage)
        ensures
            final(self).phase == old(self).phase,
            final(self).cursor == old(self).cursor,
            final(self).plugins@.len() == old(self).plugins@.len(),
            forall|i: int|
                0 <= i < old(self).plugins@.len() && i != plugin ==> final(self).plugins@[i]
                    == old(self).plugins@[i],
            plugin < old(self).plugins@.len() ==> {
                &&& final(self).plugins@[plugin as int].name == old(self).plugins@[plugin as int].name
                &&& final(self).plugins@[plugin as int].version == old(self).plugins@[plugin as int].version
                &&& final(self).plugins@[plugin as int].failed_at == match old(self).plugins@[plugin as int].failed_at {
                    Some(earlier) => Some(earlier),
                    None => Some(stage),
                }
            },
    {
        if plugin < self.plugins.len() && self.plugins[plugin].failed_at.is_none() {
            self.plugins[plugin].failed_at = Some(stage);
        }
    }

    /// How many plugins have failed.
    pub fn count_failed(&self) -> (n: usize)
        ensures
            n == failed_count(failures(self.plugins@), self.plugins@.len() as int),
            n <= self.plugins@.len(),
    {
        let ghost failed = failures(self.plugins@);
        let mut n: usize = 0;
        let mut i: usize = 0;
        while i < self.plugins.len()
            invariant
                i <= self.plugins@.len(),
                failed == failures(self.plugins@),
                n == failed_count(failed, i as int),
                n <= i,
            decreases self.plugins@.len() - i,
        {
            if self.plugins[i].failed_at.is_some() {
                n += 1;
            }
            i += 1;
        }
        n
    }

    /// What the start of the agent came to: how many plugins are loaded and
    /// how many have failed, and how many metrics and elements the pipeline
    /// has.
    pub fn report<S: Source, T, O>(&self, pipeline: &MeasurementPipeline<S, T, O>) -> (r:
        StartupReport)
        ensures
            r.failed == failed_count(failures(self.plugins@), self.plugins@.len() as int),
            r.loaded == self.plugins@.len() - r.failed,
            r.metrics == pipeline.metrics@.len(),
            r.sources == pipeline.sources@.len(),
            r.transforms == pipeline.transforms@.len(),
            r.outputs == pipeline.outputs@.len(),
    {
        let failed = self.count_failed();
        StartupReport {
            loaded: self.plugins.len() - failed,
            failed,
            metrics: pipeline.metrics.len(),
            sources: pipeline.sources.len(),
            transforms: pipeline.transforms.len(),
            outputs: pipeline.outputs.len(),
        }
    }
}

/// Takes out of the pipeline what the plugin `plugin` registered: its
/// sources, its transforms and its outputs. What the other plugins
/// registered stays, in its order.
pub fn remove_registrations<S: Source, T, O>(
    pipeline: &mut MeasurementPipeline<S, T, O>,
    plugin: &str,
)
    ensures
        final(pipeline).sources@ == surviving(
            old(pipeline).sources@,
            selected_ids(old(pipeline).sources@, SelectorView::ByPluginName(plugin@)),
        ),
        final(pipeline).transforms@ == surviving(
            old(pipeline).transforms@,
            selected_ids(old(pipeline).transforms@, SelectorView::ByPluginName(plugin@)),
        ),
        final(pipeline).outputs@ == surviving(
            old(pipeline).outputs@,
            selected_ids(old(pipeline).outputs@, SelectorView::ByPluginName(plugin@)),
        ),
        final(pipeline).metrics == old(pipeline).metrics,
        final(pipeline).state == old(pipeline).state,
        final(pipeline).priority_degraded == old(pipeline).priority_degraded,
{
    let selector = ElementSelector::ByPluginName(String::from_str(plugin));
    let _sources = pipeline.sources.remove_selected(&selector);
    let _transforms = pipeline.transforms.remove_selected(&selector);
    let _outputs = pipeline.outputs.remove_selected(&selector);
}

/// The text that says what the start came to.
pub open spec fn summary_text(report: StartupReport) -> Seq<char> {
    decimal(report.loaded as nat) + " plugins loaded:\n\t- "@ + decimal(report.metrics as nat)
        + " metrics\n\t- "@ + decimal(report.sources as nat) + " sources\n\t- "@ + decimal(
        report.outputs as nat,
    ) + " outputs\n"@
}

impl StartupReport {
    /// The text that says what the start came to, for the log.
    pub fn summary(&self) -> (text: String)
        ensures
            text@ == summary_text(*self),
    {
        let mut text = u64_to_string(self.loaded as u64);
        text.append(" plugins loaded:\n\t- ");
        let metrics = u64_to_string(self.metrics as u64);
        text.append(metrics.as_str());
        text.append(" metrics\n\t- ");
        let sources = u64_to_string(self.sources as u64);
        text.append(sources.as_str());
        text.append(" sources\n\t- ");
        let outputs = u64_to_string(self.outputs as u64);
        text.append(outputs.as_str());
        text.append(" outputs\n");
        text
    }
}

/// What a shared library that holds a plugin offers.
#[derive(Debug)]
pub struct PluginSymbols {
    /// The text under `PLUGIN_NAME`, if the library has it.
    pub name: Option<String>,
    /// The text under `PLUGIN_VERSION`, if the library has it.
    pub version: Option<String>,
    /// Whether the library has the function `plugin_init`.
    pub has_init: bool,
}

/// Why a shared library cannot be used as a plugin.
#[derive(Clone, Copy, Debug, PartialEq, Eq, Structural)]
pub enum LoadError {
    MissingName,
    MissingVersion,
    MissingInit,
    /// The plugin was built for another version of the interface.
    IncompatibleVersion,
}

/// Checks a plugin that comes as a shared library, before its function
/// `plugin_init` is called: the library has to offer the name, the version
/// and the function, and the version has to be the one of the agent's
/// interface, `host_version`.
pub fn check_plugin(symbols: PluginSymbols, host_version: &str) -> (r: Result<
    PluginRecord,
    LoadError,
>)
    ensures
        r is Ok == (symbols.name is Some && symbols.version is Some && symbols.has_init
            && symbols.version->0@ == host_version@),
        r matches Ok(record) ==> record.name@ == symbols.name->0@ && record.version@
            == symbols.version->0@ && record.failed_at is None,
        r matches Err(e) ==> e == if symbols.name is None {
            LoadError::MissingName
        } else if symbols.version is None {
            LoadError::MissingVersion
        } else if !symbols.has_init {
            LoadError::MissingInit
        } else {
            LoadError::IncompatibleVersion
        },
{
    let name = match symbols.name {
        Some(n) => n,
        None => {
            return Err(LoadError::MissingName);
        },
    };
    let version = match symbols.version {
        Some(v) => v,
        None => {
            return Err(LoadError::MissingVersion);
        },
    };
    if !symbols.has_init {
        return Err(LoadError::MissingInit);
    }
    if !crate::text::str_eq(version.as_str(), host_version) {
        return Err(LoadError::IncompatibleVersion);
    }
    Ok(PluginRecord { name, version, failed_at: None })
}

} // verus!
