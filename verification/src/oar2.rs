//! Plugin that follows the jobs of a batch scheduler through the control
//! groups that the scheduler makes for them: one source per job, which
//! reports the processor time and the memory of the job.

use vstd::prelude::*;
use vstd::string::*;
use crate::measurement::{
    AttributeValue, AttributeValueView, AttributeView, MeasurementAccumulator, MeasurementPoint,
    MeasurementPointView, WrappedMeasurementType, WrappedMeasurementValue,
};
use crate::metrics::{
    has_metric, lemma_has_metric_after_push, valid_metric_name, MetricCreationError,
    MetricRegistry, MetricView, TypedMetricId,
};
use crate::paths::{file_name, join, path_file_name, path_join};
use crate::pipeline::control::SourceControl;
use crate::pipeline::elements::SourceClass;
use crate::pipeline::error::PollError;
use crate::pipeline::trigger::TriggerSpec;
use crate::resources::{Resource, ResourceConsumer, ResourceConsumerView, ResourceView};
use crate::text::{
    any_numeric, has_numeric, parse_u64, parsed_u64, split_at_first, split_once, trim, trimmed,
};
use crate::time::{Duration, Timestamp};
use crate::units::{PrefixedUnit, Unit, UnitPrefix};
use crate::watch::WatchEvent;

verus! {

/// Settings of the plugin.
#[derive(Debug)]
pub struct Config {
    /// Folder under which the hierarchies of control groups are mounted.
    pub path: String,
    /// Time between two measurements of a job.
    pub poll_interval: Duration,
}

impl Default for Config {
    fn default() -> (c: Config)
        ensures
            c.path@ == "/sys/fs/cgroup"@,
            c.poll_interval.nanos == 1_000_000_000,
    {
        Config { path: String::from_str("/sys/fs/cgroup"), poll_interval: Duration::from_secs(1) }
    }
}

/// The metrics that the sources of the plugin report.
#[derive(Clone, Copy, Debug)]
pub struct Metrics {
    pub cpu_metric: TypedMetricId<u64>,
    pub memory_metric: TypedMetricId<u64>,
}

/// The plugin.
#[derive(Debug)]
pub struct Oar2Plugin {
    pub config: Config,
    pub metrics: Option<Metrics>,
}

/// Source of the measurements of one job.
#[derive(Debug)]
pub struct OarJobSource {
    pub cpu_metric: TypedMetricId<u64>,
    pub memory_metric: TypedMetricId<u64>,
    /// Path of the file that holds the processor time of the job.
    pub cpu_file_path: String,
    /// Path of the file that holds the memory of the job.
    pub memory_file_path: String,
    pub job_id: u64,
}

/// Why the name of a control group is not that of a job.
#[derive(Clone, Copy, Debug, PartialEq, Eq, Structural)]
pub enum JobNameError {
    /// The name has no `_`.
    NoSeparator,
    /// What follows the first `_` is not a number.
    InvalidNumber,
}

/// The job that the control group `name` belongs to. A name without a
/// number in it is not that of a job. Any other name is a user, a `_` and
/// the number of the job.
pub open spec fn job_of(name: Seq<char>) -> Result<Option<u64>, JobNameError> {
    if !has_numeric(name) {
        Ok(None)
    } else {
        match split_at_first(name, '_') {
            None => Err(JobNameError::NoSeparator),
            Some((_, number)) => match parsed_u64(number) {
                None => Err(JobNameError::InvalidNumber),
                Some(id) => Ok(Some(id)),
            },
        }
    }
}

/// The job that the control group `name` belongs to, if the name is that
/// of a job.
pub fn job_id_of(name: &str) -> (r: Result<Option<u64>, JobNameError>)
    ensures
        r == job_of(name@),
{
    if !any_numeric(name) {
        return Ok(None);
    }
    match split_once(name, '_') {
        None => Err(JobNameError::NoSeparator),
        Some((_, number)) => match parse_u64(number.as_str()) {
            None => Err(JobNameError::InvalidNumber),
            Some(id) => Ok(Some(id)),
        },
    }
}

/// Where the files of a job are.
#[derive(Debug)]
pub struct JobPlan {
    /// Name of the control group of the job.
    pub job_name: String,
    pub job_id: u64,
    pub cpu_file_path: String,
    pub memory_file_path: String,
}

/// Mathematical value of a [`JobPlan`].
pub struct JobPlanView {
    pub job_name: Seq<char>,
    pub job_id: u64,
    pub cpu_file_path: Seq<char>,
    pub memory_file_path: Seq<char>,
}

impl View for JobPlan {
    type V = JobPlanView;

    open spec fn view(&self) -> JobPlanView {
        JobPlanView {
            job_name: self.job_name@,
            job_id: self.job_id,
            cpu_file_path: self.cpu_file_path@,
            memory_file_path: self.memory_file_path@,
        }
    }
}

/// The file with the processor time of the job `job_name`, under `root`.
pub open spec fn cpu_file_of(root: Seq<char>, job_name: Seq<char>) -> Seq<char> {
    path_join(path_join(path_join(root, "cpuacct/oar"@), job_name), "cpuacct.usage"@)
}

/// The file with the memory of the job `job_name`, under `root`.
pub open spec fn memory_file_of(root: Seq<char>, job_name: Seq<char>) -> Seq<char> {
    path_join(path_join(path_join(root, "memory/oar"@), job_name), "memory.usage_in_bytes"@)
}

/// The plan for the control group `name` under `root`, if the name is that
/// of a job.
pub open spec fn plan_of(root: Seq<char>, name: Seq<char>) -> Result<
    Option<JobPlanView>,
    JobNameError,
> {
    match job_of(name) {
        Err(e) => Err(e),
        Ok(None) => Ok(None),
        Ok(Some(job_id)) => Ok(
            Some(
                JobPlanView {
                    job_name: name,
                    job_id,
                    cpu_file_path: cpu_file_of(root, name),
                    memory_file_path: memory_file_of(root, name),
                },
            ),
        ),
    }
}

/// The plans for the control groups `names` under `root`, in their order;
/// the first name that has a number in it and is not that of a job is an
/// error.
pub open spec fn plans_of(root: Seq<char>, names: Seq<Seq<char>>) -> Result<
    Seq<JobPlanView>,
    JobNameError,
>
    decreases names.len(),
{
    if names.len() == 0 {
        Ok(Seq::empty())
    } else {
        match plans_of(root, names.drop_last()) {
            Err(e) => Err(e),
            Ok(plans) => match plan_of(root, names.last()) {
                Err(e) => Err(e),
                Ok(None) => Ok(plans),
                Ok(Some(plan)) => Ok(plans.push(plan)),
            },
        }
    }
}

/// The plans in `plans`, each as its mathematical value.
pub open spec fn plans_view(plans: Seq<JobPlan>) -> Seq<JobPlanView> {
    plans.map_values(|p: JobPlan| p@)
}

/// The plan for the control group `name` under `root`, if the name is that
/// of a job.
pub fn plan_job(root: &str, name: &str) -> (r: Result<Option<JobPlan>, JobNameError>)
    ensures
        r is Err ==> plan_of(root@, name@) == Err::<Option<JobPlanView>, JobNameError>(r->Err_0),
        r matches Ok(None) ==> plan_of(root@, name@) == Ok::<Option<JobPlanView>, JobNameError>(
            None,
        ),
        r matches Ok(Some(plan)) ==> plan_of(root@, name@) == Ok::<
            Option<JobPlanView>,
            JobNameError,
        >(Some(plan@)),
{
    match job_id_of(name) {
        Err(e) => Err(e),
        Ok(None) => Ok(None),
        Ok(Some(job_id)) => {
            let cpu_root = join(root, "cpuacct/oar");
            let cpu_path = join(cpu_root.as_str(), name);
            let cpu_file_path = join(cpu_path.as_str(), "cpuacct.usage");
            let memory_root = join(root, "memory/oar");
            let memory_path = join(memory_root.as_str(), name);
            let memory_file_path = join(memory_path.as_str(), "memory.usage_in_bytes");
            Ok(
                Some(
                    JobPlan {
                        job_name: String::from_str(name),
                        job_id,
                        cpu_file_path,
                        memory_file_path,
                    },
                ),
            )
        },
    }
}

/// The names in `names`, each as the sequence of its characters.
pub open spec fn names_view(names: Seq<String>) -> Seq<Seq<char>> {
    names.map_values(|n: String| n@)
}

/// The plans for the control groups `names` under `root`, in their order.
/// The first name that has a number in it and is not that of a job ends the
/// planning with an error.
pub fn plan_jobs(root: &str, names: &Vec<String>) -> (r: Result<Vec<JobPlan>, JobNameError>)
    ensures
        r is Err ==> plans_of(root@, names_view(names@)) == Err::<Seq<JobPlanView>, JobNameError>(
            r->Err_0,
        ),
        r matches Ok(plans) ==> plans_of(root@, names_view(names@)) == Ok::<
            Seq<JobPlanView>,
            JobNameError,
        >(plans_view(plans@)),
{
    let ghost all = names_view(names@);
    let mut plans: Vec<JobPlan> = Vec::new();
    let mut i: usize = 0;
    assert(all.take(0) =~= Seq::empty());
    assert(plans_view(plans@) =~= Seq::empty());
    while i < names.len()
        invariant
            i <= names@.len(),
            all == names_view(names@),
            plans_of(root@, all.take(i as int)) == Ok::<Seq<JobPlanView>, JobNameError>(
                plans_view(plans@),
            ),
        decreases names@.len() - i,
    {
        proof {
            assert(all.take(i + 1).drop_last() =~= all.take(i as int));
            assert(all.take(i + 1).last() == names@[i as int]@);
        }
        let ghost before = plans_view(plans@);
        match plan_job(root, names[i].as_str()) {
            Err(e) => {
                proof {
                    lemma_plans_error_stays(root@, all, i + 1);
                }
                return Err(e);
            },
            Ok(None) => {},
            Ok(Some(plan)) => {
                plans.push(plan);
                assert(plans_view(plans@) =~= before.push(plan@));
            },
        }
        i += 1;
    }
    assert(all.take(i as int) =~= all);
    Ok(plans)
}

/// An error among the first names is the error of all the names.
pub proof fn lemma_plans_error_stays(root: Seq<char>, names: Seq<Seq<char>>, upto: int)
    requires
        0 <= upto <= names.len(),
        plans_of(root, names.take(upto)) is Err,
    ensures
        plans_of(root, names) == plans_of(root, names.take(upto)),
    decreases names.len(),
{
    if upto == names.len() {
        assert(names.take(upto) =~= names);
    } else {
        assert(names.drop_last().take(upto) =~= names.take(upto));
        lemma_plans_error_stays(root, names.drop_last(), upto);
    }
}

/// The definitions of the two metrics of the plugin, in the order of their
/// creation.
pub open spec fn job_metrics() -> Seq<MetricView> {
    seq![
        MetricView {
            name: "cpu_time"@,
            description: "Total CPU time consumed by the cgroup (in nanoseconds)."@,
            value_type: WrappedMeasurementType::U64,
            unit: PrefixedUnit { base_unit: Unit::Second, prefix: UnitPrefix::Nano },
        },
        MetricView {
            name: "memory_usage"@,
            description: "Total memory usage by the cgroup (in bytes)."@,
            value_type: WrappedMeasurementType::U64,
            unit: PrefixedUnit { base_unit: Unit::Unity, prefix: UnitPrefix::Plain },
        },
    ]
}

/// The names of the two metrics are names that a metric can have, and
/// differ.
proof fn lemma_job_metric_names()
    ensures
        valid_metric_name("cpu_time"@),
        valid_metric_name("memory_usage"@),
        "cpu_time"@ != "memory_usage"@,
{
    reveal_strlit("cpu_time");
    reveal_strlit("memory_usage");
    assert("cpu_time"@.len() == 8);
    assert("memory_usage"@.len() == 12);
}

/// Whether `source` is the source of the job of `plan`, reporting under
/// `metrics`.
pub open spec fn is_source_of(source: OarJobSource, metrics: Metrics, plan: JobPlanView) -> bool {
    &&& source.cpu_metric == metrics.cpu_metric
    &&& source.memory_metric == metrics.memory_metric
    &&& source.cpu_file_path@ == plan.cpu_file_path
    &&& source.memory_file_path@ == plan.memory_file_path
    &&& source.job_id == plan.job_id
}

impl Oar2Plugin {
    /// Name of the plugin.
    pub fn name() -> (n: &'static str)
        ensures
            n@ == "oar2-plugin"@,
    {
        "oar2-plugin"
    }

    /// Version of the plugin.
    pub fn version() -> (v: &'static str)
        ensures
            v@ == "0.1.0"@,
    {
        "0.1.0"
    }

    /// The settings that the plugin has when none are given.
    pub fn default_config() -> (c: Config)
        ensures
            c.path@ == "/sys/fs/cgroup"@,
            c.poll_interval.nanos == 1_000_000_000,
    {
        Config::default()
    }

    /// The plugin with the settings `config`, not started yet.
    pub fn init(config: Config) -> (p: Oar2Plugin)
        ensures
            p.config == config,
            p.metrics is None,
    {
        Oar2Plugin { config, metrics: None }
    }

    /// Starts the plugin: creates its two metrics in `registry`, the
    /// processor time first. The start succeeds if neither name is taken.
    /// It ends at the first name that is: the error is that of a duplicate,
    /// and a metric created before it stays.
    pub fn start(&mut self, registry: &mut MetricRegistry) -> (r: Result<(), MetricCreationError>)
        ensures
            final(self).config == old(self).config,
            r is Ok == (!has_metric(old(registry)@, "cpu_time"@) && !has_metric(
                old(registry)@,
                "memory_usage"@,
            )),
            r is Ok ==> final(registry)@ == old(registry)@ + job_metrics() && final(self).metrics
                is Some && final(self).metrics->0.cpu_metric.raw.index == old(registry)@.len()
                && final(self).metrics->0.memory_metric.raw.index == old(registry)@.len() + 1,
            r is Err ==> r == Err::<(), MetricCreationError>(MetricCreationError::Duplicate)
                && final(self).metrics == old(self).metrics,
            has_metric(old(registry)@, "cpu_time"@) ==> final(registry)@ == old(registry)@,
            r is Err && !has_metric(old(registry)@, "cpu_time"@) ==> final(registry)@ == old(registry)@.push(job_metrics()[0]),
    {
        let ghost before = registry@;
        proof {
            lemma_job_metric_names();
        }
        let cpu_metric = registry.create_metric::<u64>(
            "cpu_time",
            PrefixedUnit::nano(Unit::Second),
            "Total CPU time consumed by the cgroup (in nanoseconds).",
        )?;
        proof {
            lemma_has_metric_after_push(before, job_metrics()[0], "memory_usage"@);
        }
        let memory_metric = registry.create_metric::<u64>(
            "memory_usage",
            PrefixedUnit::plain(Unit::Unity),
            "Total memory usage by the cgroup (in bytes).",
        )?;
        assert(registry@ =~= before + job_metrics());
        self.metrics = Some(Metrics { cpu_metric, memory_metric });
        Ok(())
    }

    /// Stops the plugin.
    pub fn stop(&mut self)
        ensures
            *final(self) == *old(self),
    {
    }

    /// The trigger of the sources of the plugin: one poll per interval of
    /// the settings.
    pub fn trigger(&self) -> (t: TriggerSpec)
        ensures
            t == (TriggerSpec::Interval { period: self.config.poll_interval }),
    {
        TriggerSpec::at_interval(self.config.poll_interval)
    }

    /// What follows the events of the watcher once the pipeline runs. There
    /// is none before the plugin has started.
    pub fn post_pipeline_start(&self) -> (d: Option<JobDetector>)
        ensures
            d is Some == self.metrics is Some,
            d matches Some(detector) ==> detector.plugin_name@ == "oar2-plugin"@
                && detector.config_path@ == self.config.path@ && detector.metrics
                == self.metrics->0 && detector.poll_interval == self.config.poll_interval,
    {
        match self.metrics {
            Some(metrics) => Some(
                JobDetector {
                    config_path: self.config.path.clone(),
                    metrics,
                    plugin_name: String::from_str(Oar2Plugin::name()),
                    poll_interval: self.config.poll_interval,
                },
            ),
            None => None,
        }
    }
}

/// Makes sources for the jobs whose control groups appear.
#[derive(Debug)]
pub struct JobDetector {
    pub config_path: String,
    pub metrics: Metrics,
    pub plugin_name: String,
    pub poll_interval: Duration,
}

/// The final components of the first `upto` of `paths`, for the paths that
/// have one, in their order.
pub open spec fn file_names(paths: Seq<Seq<char>>, upto: int) -> Seq<Seq<char>>
    decreases upto,
{
    if upto <= 0 {
        Seq::empty()
    } else {
        let before = file_names(paths, upto - 1);
        if upto <= paths.len() && path_file_name(paths[upto - 1]) is Some {
            before.push(path_file_name(paths[upto - 1])->0)
        } else {
            before
        }
    }
}

/// Whether `message` asks to add the source of the job of `plan` for the
/// detector `detector`.
pub open spec fn adds_job(
    message: SourceControl<OarJobSource>,
    detector: JobDetector,
    plan: JobPlanView,
) -> bool {
    &&& message matches SourceControl::Add { plugin, name, source, trigger, class }
    &&& plugin@ == detector.plugin_name@
    &&& name@ == plan.job_name
    &&& trigger == (TriggerSpec::Interval { period: detector.poll_interval })
    &&& class == SourceClass::Normal
    &&& is_source_of(source, detector.metrics, plan)
}

/// A plan together with whether both files of the job could be opened.
#[derive(Debug)]
pub struct ProbedJob {
    pub plan: JobPlan,
    pub opened: bool,
}

/// For each of `found`, whether its files could be opened.
pub open spec fn opened_of(found: Seq<ProbedJob>) -> Seq<bool> {
    found.map_values(|f: ProbedJob| f.opened)
}

/// The positions below `upto` at which `opened` is set, in rising order.
pub open spec fn set_positions(opened: Seq<bool>, upto: int) -> Seq<int>
    decreases upto,
{
    if upto <= 0 {
        Seq::empty()
    } else {
        let before = set_positions(opened, upto - 1);
        if upto <= opened.len() && opened[upto - 1] {
            before.push(upto - 1)
        } else {
            before
        }
    }
}

/// The positions that `set_positions` gives are below `upto`, and set.
pub proof fn lemma_set_positions(opened: Seq<bool>, upto: int)
    requires
        0 <= upto <= opened.len(),
    ensures
        set_positions(opened, upto).len() <= upto,
        forall|k: int|
            0 <= k < set_positions(opened, upto).len() ==> 0 <= #[trigger] set_positions(
                opened,
                upto,
            )[k] < upto && opened[set_positions(opened, upto)[k]],
    decreases upto,
{
    if upto > 0 {
        lemma_set_positions(opened, upto - 1);
    }
}

impl JobDetector {
    /// The names of the control groups that `event` speaks of: for an event
    /// that says that something was created, the final component of each
    /// path that has one; for any other event, none.
    pub fn created_names(&self, event: &WatchEvent) -> (r: Vec<String>)
        ensures
            !(event.kind is Create) ==> r@.len() == 0,
            event.kind is Create ==> names_view(r@) == file_names(
                event.spec_paths(),
                event.paths@.len() as int,
            ),
    {
        let mut out: Vec<String> = Vec::new();
        if !event.creates() {
            return out;
        }
        let ghost paths = event.spec_paths();
        let mut i: usize = 0;
        assert(names_view(out@) =~= file_names(paths, 0));
        while i < event.paths.len()
            invariant
                i <= event.paths@.len(),
                paths == event.spec_paths(),
                names_view(out@) == file_names(paths, i as int),
            decreases event.paths@.len() - i,
        {
            assert(paths[i as int] == event.paths@[i as int]@);
            let ghost before = names_view(out@);
            match file_name(event.paths[i].as_str()) {
                Some(name) => {
                    out.push(name);
                    assert(names_view(out@) =~= before.push(name@));
                },
                None => {},
            }
            i += 1;
        }
        out
    }

    /// The plans for the jobs whose control groups `event` says were
    /// created. A name with a number in it that is not that of a job is an
    /// error.
    pub fn plans(&self, event: &WatchEvent) -> (r: Result<Vec<JobPlan>, JobNameError>)
        ensures
            ({
                let names = if event.kind is Create {
                    file_names(event.spec_paths(), event.paths@.len() as int)
                } else {
                    Seq::empty()
                };
                &&& r is Err ==> plans_of(self.config_path@, names) == Err::<
                    Seq<JobPlanView>,
                    JobNameError,
                >(r->Err_0)
                &&& r matches Ok(plans) ==> plans_of(self.config_path@, names) == Ok::<
                    Seq<JobPlanView>,
                    JobNameError,
                >(plans_view(plans@))
            }),
    {
        let names = self.created_names(event);
        assert(!(event.kind is Create) ==> names_view(names@) =~= Seq::empty());
        plan_jobs(self.config_path.as_str(), &names)
    }

    /// The source of the job of `plan`.
    pub fn source_for(&self, plan: &JobPlan) -> (s: OarJobSource)
        ensures
            is_source_of(s, self.metrics, plan@),
    {
        OarJobSource {
            cpu_metric: self.metrics.cpu_metric,
            memory_metric: self.metrics.memory_metric,
            cpu_file_path: plan.cpu_file_path.clone(),
            memory_file_path: plan.memory_file_path.clone(),
            job_id: plan.job_id,
        }
    }

    /// The sources to add for the plans in `found`: one message for each
    /// plan whose two files could both be opened, in the order of the plans.
    /// A job with a file that could not be opened gets no source.
    pub fn handle_event(&self, found: &Vec<ProbedJob>) -> (r: Vec<SourceControl<OarJobSource>>)
        ensures
            r@.len() == set_positions(opened_of(found@), found@.len() as int).len(),
            forall|k: int|
                0 <= k < r@.len() ==> 0 <= set_positions(opened_of(found@), found@.len() as int)[k]
                    < found@.len() && adds_job(
                    #[trigger] r@[k],
                    *self,
                    found@[set_positions(opened_of(found@), found@.len() as int)[k]].plan@,
                ),
    {
        let mut out: Vec<SourceControl<OarJobSource>> = Vec::new();
        let ghost opened = opened_of(found@);
        let mut i: usize = 0;
        while i < found.len()
            invariant
                i <= found@.len(),
                opened == opened_of(found@),
                out@.len() == set_positions(opened, i as int).len(),
                forall|k: int|
                    0 <= k < out@.len() ==> adds_job(
                        #[trigger] out@[k],
                        *self,
                        found@[set_positions(opened, i as int)[k]].plan@,
                    ),
            decreases found@.len() - i,
        {
            let ghost chosen = set_positions(opened, i as int);
            let ghost before = out@;
            assert(opened[i as int] == found@[i as int].opened);
            if found[i].opened {
                let plan = &found[i].plan;
                let message = SourceControl::Add {
                    plugin: self.plugin_name.clone(),
                    name: plan.job_name.clone(),
                    source: self.source_for(plan),
                    trigger: TriggerSpec::at_interval(self.poll_interval),
                    class: SourceClass::Normal,
                };
                out.push(message);
                assert(set_positions(opened, i + 1) == chosen.push(i as int));
                assert forall|k: int| 0 <= k < out@.len() implies adds_job(
                    #[trigger] out@[k],
                    *self,
                    found@[set_positions(opened, i + 1)[k]].plan@,
                ) by {
                    if k < before.len() {
                        assert(out@[k] == before[k]);
                        assert(set_positions(opened, i + 1)[k] == chosen[k]);
                    }
                }
            } else {
                assert(set_positions(opened, i + 1) == chosen);
            }
            i += 1;
        }
        proof {
            lemma_set_positions(opened, opened.len() as int);
        }
        out
    }
}

/// The point that the source of a job reports for one of its two metrics.
pub open spec fn job_point(
    timestamp: Timestamp,
    metric: TypedMetricId<u64>,
    path: Seq<char>,
    value: u64,
    job_id: u64,
) -> MeasurementPointView {
    MeasurementPointView {
        metric: metric.raw,
        timestamp,
        value: WrappedMeasurementValue::U64(value),
        resource: ResourceView::LocalMachine,
        consumer: ResourceConsumerView::ControlGroup { path },
        attributes: seq![
            AttributeView { key: "oar_job_id"@, value: AttributeValueView::U64(job_id) },
        ],
    }
}

impl OarJobSource {
    /// Reports the processor time and the memory of the job at `timestamp`.
    /// `cpu_usage` and `memory_usage` are the contents of the two files of
    /// the job: each holds one number, with white space around it. If both
    /// can be read, the source reports two points, the processor time first.
    /// If one cannot, the error is fatal and no point is reported.
    pub fn poll(
        &self,
        measurements: &mut MeasurementAccumulator,
        timestamp: Timestamp,
        cpu_usage: &str,
        memory_usage: &str,
    ) -> (r: Result<(), PollError>)
        ensures
            r is Ok == (parsed_u64(trimmed(cpu_usage@)) is Some && parsed_u64(
                trimmed(memory_usage@),
            ) is Some),
            r is Err ==> (r matches Err(PollError::Fatal(_))) && final(measurements)@ == old(measurements)@,
            r is Ok ==> final(measurements)@ == old(measurements)@.push(
                job_point(
                    timestamp,
                    self.cpu_metric,
                    self.cpu_file_path@,
                    parsed_u64(trimmed(cpu_usage@))->0,
                    self.job_id,
                ),
            ).push(
                job_point(
                    timestamp,
                    self.memory_metric,
                    self.memory_file_path@,
                    parsed_u64(trimmed(memory_usage@))->0,
                    self.job_id,
                ),
            ),
    {
        let cpu_text = trim(cpu_usage);
        let memory_text = trim(memory_usage);
        let cpu_usage_u64 = match parse_u64(cpu_text.as_str()) {
            Some(v) => v,
            None => {
                return Err(PollError::Fatal(String::from_str("invalid digit found in string")));
            },
        };
        let memory_usage_u64 = match parse_u64(memory_text.as_str()) {
            Some(v) => v,
            None => {
                return Err(PollError::Fatal(String::from_str("invalid digit found in string")));
            },
        };
        let cpu_point = MeasurementPoint::new(
            timestamp,
            self.cpu_metric,
            Resource::LocalMachine,
            ResourceConsumer::ControlGroup { path: self.cpu_file_path.clone() },
            cpu_usage_u64,
        ).with_attr("oar_job_id", AttributeValue::U64(self.job_id));
        assert(cpu_point@.attributes =~= seq![
            AttributeView { key: "oar_job_id"@, value: AttributeValueView::U64(self.job_id) },
        ]);
        measurements.push(cpu_point);
        let memory_point = MeasurementPoint::new(
            timestamp,
            self.memory_metric,
            Resource::LocalMachine,
            ResourceConsumer::ControlGroup { path: self.memory_file_path.clone() },
            memory_usage_u64,
        ).with_attr("oar_job_id", AttributeValue::U64(self.job_id));
        assert(memory_point@.attributes =~= seq![
            AttributeView { key: "oar_job_id"@, value: AttributeValueView::U64(self.job_id) },
        ]);
        measurements.push(memory_point);
        Ok(())
    }
}

} // verus!
