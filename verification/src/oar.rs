//! Plugin that follows the control groups of the pods of a cluster: one
//! source for each pod that exists at the start, and one for each pod whose
//! folder appears later.

use vstd::prelude::*;
use vstd::string::*;
use crate::cgroupv2::{cgroup_metrics, CgroupV2MetricFile, CgroupV2prob, Metrics};
use crate::counter::CounterDiff;
use crate::metrics::{created_before_refusal, MetricCreationError, MetricRegistry};
use crate::paths::{file_name, join, path_file_name, path_join};
use crate::pipeline::control::SourceControl;
use crate::pipeline::elements::SourceClass;
use crate::pipeline::trigger::TriggerSpec;
use crate::time::Duration;
use crate::watch::{CreateKind, RemoveKind, WatchEvent, WatchEventKind};

verus! {

/// The largest value that a time counter of a control group can take.
pub const CGROUP_MAX_TIME_COUNTER: u64 = u64::MAX;

/// Settings of the plugin.
#[derive(Debug)]
pub struct Config {
    /// Folder under which the control groups of the pods are.
    pub path: String,
    /// Time between two measurements of a control group.
    pub poll_interval: Duration,
}

impl Default for Config {
    fn default() -> (c: Config)
        ensures
            c.path@ == "/sys/fs/cgroup/kubepods.slice/"@,
            c.poll_interval.nanos == 1_000_000_000,
    {
        Config {
            path: String::from_str("/sys/fs/cgroup/kubepods.slice/"),
            poll_interval: Duration::from_secs(1),
        }
    }
}

/// Why the plugin could not start.
#[derive(Clone, Copy, Debug, PartialEq, Eq, Structural)]
pub enum StartError {
    /// The machine does not use control groups of the second version.
    CgroupsV2NotUsed,
    /// A metric could not be created.
    Metric(MetricCreationError),
}

/// The plugin.
#[derive(Debug)]
pub struct OARPlugin {
    pub config: Config,
    pub metrics: Option<Metrics>,
}

/// A folder that may be the control group of a pod.
#[derive(Debug)]
pub struct PodCandidate {
    /// Name of the pod: the final component of the folder's path.
    pub name: String,
    /// Path of the folder.
    pub path: String,
    /// Path of the file with the processor statistics of the pod.
    pub cpu_path: String,
    /// Path of the file with the memory statistics of the pod.
    pub memory_path: String,
}

/// What was found on disk for a candidate.
#[derive(Clone, Copy, Debug, PartialEq, Eq, Structural)]
pub enum PodProbe {
    /// The path is not a folder.
    NotADirectory,
    /// The file with the processor statistics could not be opened.
    OpenFailed,
    /// The file with the processor statistics is open.
    Opened,
}

/// A candidate together with what was found on disk for it.
#[derive(Debug)]
pub struct ProbedPod {
    pub candidate: PodCandidate,
    pub probe: PodProbe,
}

/// What was found on disk for each of `found`, in their order.
pub open spec fn probes_of(found: Seq<ProbedPod>) -> Seq<PodProbe> {
    found.map_values(|f: ProbedPod| f.probe)
}

/// Whether `candidate` is the candidate for the folder `path`.
pub open spec fn is_candidate_for(candidate: PodCandidate, path: Seq<char>) -> bool {
    &&& path_file_name(path) == Some(candidate.name@)
    &&& candidate.path@ == path
    &&& candidate.cpu_path@ == path_join(path, "cpu.stat"@)
    &&& candidate.memory_path@ == path_join(path, "memory.stat"@)
}

/// The paths among the first `upto` of `paths` that have a final component,
/// in their order.
pub open spec fn named_paths(paths: Seq<Seq<char>>, upto: int) -> Seq<Seq<char>>
    decreases upto,
{
    if upto <= 0 {
        Seq::empty()
    } else {
        let before = named_paths(paths, upto - 1);
        if upto <= paths.len() && path_file_name(paths[upto - 1]) is Some {
            before.push(paths[upto - 1])
        } else {
            before
        }
    }
}

/// The number of probes before the first that says that a file could not
/// be opened; all of them if none says so.
pub open spec fn probes_before_failure(probes: Seq<PodProbe>) -> int
    decreases probes.len(),
{
    if probes.len() == 0 {
        0
    } else if probes[0] == PodProbe::OpenFailed {
        0
    } else {
        1 + probes_before_failure(probes.skip(1))
    }
}

/// The positions below `upto` at which `probes` says that the file is open,
/// in rising order.
pub open spec fn opened_positions(probes: Seq<PodProbe>, upto: int) -> Seq<int>
    decreases upto,
{
    if upto <= 0 {
        Seq::empty()
    } else {
        let before = opened_positions(probes, upto - 1);
        if upto <= probes.len() && probes[upto - 1] == PodProbe::Opened {
            before.push(upto - 1)
        } else {
            before
        }
    }
}

/// The positions of the candidates that become sources: those whose file is
/// open, up to the first whose file could not be opened.
pub open spec fn accepted_positions(probes: Seq<PodProbe>) -> Seq<int> {
    opened_positions(probes, probes_before_failure(probes))
}

/// The positions that `opened_positions` gives are below `upto`.
pub proof fn lemma_opened_positions(probes: Seq<PodProbe>, upto: int)
    requires
        0 <= upto <= probes.len(),
    ensures
        opened_positions(probes, upto).len() <= upto,
        forall|k: int|
            0 <= k < opened_positions(probes, upto).len() ==> 0 <= #[trigger] opened_positions(
                probes,
                upto,
            )[k] < upto && probes[opened_positions(probes, upto)[k]] == PodProbe::Opened,
    decreases upto,
{
    if upto > 0 {
        lemma_opened_positions(probes, upto - 1);
    }
}

proof fn lemma_probes_before_failure(probes: Seq<PodProbe>, n: int)
    requires
        0 <= n <= probes.len(),
        forall|i: int| 0 <= i < n ==> #[trigger] probes[i] != PodProbe::OpenFailed,
        n < probes.len() ==> probes[n] == PodProbe::OpenFailed,
    ensures
        probes_before_failure(probes) == n,
    decreases n,
{
    if n > 0 {
        let rest = probes.skip(1);
        assert forall|i: int| 0 <= i < n - 1 implies #[trigger] rest[i] != PodProbe::OpenFailed by {
            assert(rest[i] == probes[i + 1]);
        }
        lemma_probes_before_failure(rest, n - 1);
    }
}

/// Makes sources for the pods whose folders appear.
#[derive(Debug)]
pub struct PodDetector {
    pub plugin_name: String,
    pub metrics: Metrics,
    pub poll_interval: Duration,
}

impl PodCandidate {
    /// The candidate for the folder `path`, if the path has a final
    /// component `name`; `cpu_path` and `memory_path` are the paths of the
    /// two files of the folder.
    pub fn from_parts(path: &str, name: Option<String>, cpu_path: String, memory_path: String) -> (r:
        Option<PodCandidate>)
        ensures
            r is Some == name is Some,
            r matches Some(c) ==> c.name@ == name->0@ && c.path@ == path@ && c.cpu_path@
                == cpu_path@ && c.memory_path@ == memory_path@,
    {
        match name {
            Some(name) => Some(
                PodCandidate { name, path: String::from_str(path), cpu_path, memory_path },
            ),
            None => None,
        }
    }

    /// The candidate for the folder `path`: its name is the final component
    /// of the path, and its two files are `cpu.stat` and `memory.stat` in
    /// the folder. A path without a final component gives no candidate.
    pub fn for_path(path: &str) -> (r: Option<PodCandidate>)
        ensures
            r is Some == path_file_name(path@) is Some,
            r matches Some(c) ==> is_candidate_for(c, path@),
    {
        let name = file_name(path);
        let cpu_path = join(path, "cpu.stat");
        let memory_path = join(path, "memory.stat");
        PodCandidate::from_parts(path, name, cpu_path, memory_path)
    }
}

impl OARPlugin {
    /// Name of the plugin.
    pub fn name() -> (n: &'static str)
        ensures
            n@ == "OAR3"@,
    {
        "OAR3"
    }

    /// Version of the plugin.
    pub fn version() -> (v: &'static str)
        ensures
            v@ == "0.1.0"@,
    {
        "0.1.0"
    }

    /// The settings that the plugin has when none are given.
    pub fn default_config() -> (c: Config)
        ensures
            c.path@ == "/sys/fs/cgroup/kubepods.slice/"@,
            c.poll_interval.nanos == 1_000_000_000,
    {
        Config::default()
    }

    /// The plugin with the settings `config`, not started yet.
    pub fn init(config: Config) -> (p: OARPlugin)
        ensures
            p.config == config,
            p.metrics is None,
    {
        OARPlugin { config, metrics: None }
    }

    /// Starts the plugin: creates its metrics in `registry`. It cannot
    /// start on a machine without control groups of the second version; the
    /// registry is then left alone. Otherwise it starts if none of the names
    /// of its metrics is taken; the first that is ends the start, and the
    /// metrics created before it stay.
    pub fn start(&mut self, registry: &mut MetricRegistry, cgroups_v2_accessible: bool) -> (r:
        Result<(), StartError>)
        ensures
            final(self).config == old(self).config,
            !cgroups_v2_accessible ==> r == Err::<(), StartError>(StartError::CgroupsV2NotUsed)
                && final(registry)@ == old(registry)@,
            cgroups_v2_accessible ==> {
                let created = created_before_refusal(old(registry)@, cgroup_metrics());
                &&& 0 <= created <= 8
                &&& final(registry)@ == old(registry)@ + cgroup_metrics().take(created)
                &&& r is Ok == (created == 8)
                &&& r is Err ==> r == Err::<(), StartError>(
                    StartError::Metric(MetricCreationError::Duplicate),
                )
            },
            r is Ok ==> final(self).metrics is Some && final(registry)@ == old(registry)@
                + cgroup_metrics() && final(self).metrics->0.cpu_time_total.raw.index == old(registry)@.len() && final(self).metrics->0.memory_total.raw.index == old(registry)@.len() + 7,
            r is Err ==> final(self).metrics == old(self).metrics,
    {
        if !cgroups_v2_accessible {
            return Err(StartError::CgroupsV2NotUsed);
        }
        match Metrics::new(registry) {
            Ok(metrics) => {
                self.metrics = Some(metrics);
                Ok(())
            },
            Err(e) => Err(StartError::Metric(e)),
        }
    }

    /// Stops the plugin.
    pub fn stop(&mut self)
        ensures
            *final(self) == *old(self),
    {
    }

    /// The source for the control group whose files are `metric_file`, with
    /// three time counters that have not been read yet.
    pub fn make_source(metrics: Metrics, metric_file: CgroupV2MetricFile) -> (p: CgroupV2prob)
        ensures
            p.cgroup_v2_metric_file == metric_file,
            p.time_tot.spec_previous() is None && p.time_tot.spec_max_value()
                == CGROUP_MAX_TIME_COUNTER,
            p.time_usr.spec_previous() is None && p.time_usr.spec_max_value()
                == CGROUP_MAX_TIME_COUNTER,
            p.time_sys.spec_previous() is None && p.time_sys.spec_max_value()
                == CGROUP_MAX_TIME_COUNTER,
            p.time_used_tot == metrics.cpu_time_total,
            p.time_used_system_mode == metrics.cpu_time_user_mode,
            p.time_used_user_mode == metrics.cpu_time_system_mode,
            p.anon_used_mem == metrics.memory_anonymous,
            p.file_mem == metrics.memory_file,
            p.kernel_mem == metrics.memory_kernel,
            p.pagetables_mem == metrics.memory_pagetables,
            p.total_mem == metrics.memory_total,
    {
        let counter_tmp_tot = CounterDiff::with_max_value(CGROUP_MAX_TIME_COUNTER);
        let counter_tmp_usr = CounterDiff::with_max_value(CGROUP_MAX_TIME_COUNTER);
        let counter_tmp_sys = CounterDiff::with_max_value(CGROUP_MAX_TIME_COUNTER);
        CgroupV2prob::new(metrics, metric_file, counter_tmp_tot, counter_tmp_sys, counter_tmp_usr)
    }

    /// The trigger of the sources of the plugin: one poll per interval of
    /// the settings.
    pub fn trigger(&self) -> (t: TriggerSpec)
        ensures
            t == (TriggerSpec::Interval { period: self.config.poll_interval }),
    {
        TriggerSpec::at_interval(self.config.poll_interval)
    }

    /// What follows the events of the watcher once the pipeline runs. There
    /// is none before the plugin has started.
    pub fn post_pipeline_start(&self) -> (d: Option<PodDetector>)
        ensures
            d is Some == self.metrics is Some,
            d matches Some(detector) ==> detector.plugin_name@ == "OAR3"@ && detector.metrics
                == self.metrics->0 && detector.poll_interval == self.config.poll_interval,
    {
        match self.metrics {
            Some(metrics) => Some(
                PodDetector {
                    plugin_name: String::from_str(OARPlugin::name()),
                    metrics,
                    poll_interval: self.config.poll_interval,
                },
            ),
            None => None,
        }
    }
}

/// Whether `message` asks to add the source of the pod `candidate` for the
/// detector `detector`.
pub open spec fn adds_pod(
    message: SourceControl<CgroupV2prob>,
    detector: PodDetector,
    candidate: PodCandidate,
) -> bool {
    &&& message matches SourceControl::Add { plugin, name, source, trigger, class }
    &&& plugin@ == detector.plugin_name@
    &&& name@ == candidate.name@
    &&& trigger == (TriggerSpec::Interval { period: detector.poll_interval })
    &&& class == SourceClass::Normal
    &&& source.cgroup_v2_metric_file.name@ == candidate.name@
    &&& source.cgroup_v2_metric_file.path_cpu@ == candidate.cpu_path@
    &&& source.cgroup_v2_metric_file.path_memory@ == candidate.memory_path@
    &&& source.time_tot.spec_previous() is None
    &&& source.time_usr.spec_previous() is None
    &&& source.time_sys.spec_previous() is None
    &&& source.time_tot.spec_max_value() == CGROUP_MAX_TIME_COUNTER
    &&& source.time_usr.spec_max_value() == CGROUP_MAX_TIME_COUNTER
    &&& source.time_sys.spec_max_value() == CGROUP_MAX_TIME_COUNTER
    &&& source.time_used_tot == detector.metrics.cpu_time_total
    &&& source.time_used_system_mode == detector.metrics.cpu_time_user_mode
    &&& source.time_used_user_mode == detector.metrics.cpu_time_system_mode
    &&& source.anon_used_mem == detector.metrics.memory_anonymous
    &&& source.file_mem == detector.metrics.memory_file
    &&& source.kernel_mem == detector.metrics.memory_kernel
    &&& source.pagetables_mem == detector.metrics.memory_pagetables
    &&& source.total_mem == detector.metrics.memory_total
}

impl PodDetector {
    /// The folders of `event` that may be pods: for an event that says that
    /// a folder was created, one candidate for each path that has a final
    /// component, in the order of the paths; for any other event, none.
    pub fn candidates(&self, event: &WatchEvent) -> (r: Vec<PodCandidate>)
        ensures
            event.kind != WatchEventKind::Create(CreateKind::Folder) ==> r@.len() == 0,
            event.kind == WatchEventKind::Create(CreateKind::Folder) ==> {
                let named = named_paths(event.spec_paths(), event.paths@.len() as int);
                &&& r@.len() == named.len()
                &&& forall|k: int| 0 <= k < r@.len() ==> is_candidate_for(#[trigger] r@[k], named[k])
            },
    {
        let mut out: Vec<PodCandidate> = Vec::new();
        if !event.creates_folder() {
            return out;
        }
        let ghost paths = event.spec_paths();
        let mut i: usize = 0;
        while i < event.paths.len()
            invariant
                i <= event.paths@.len(),
                paths == event.spec_paths(),
                out@.len() == named_paths(paths, i as int).len(),
                forall|k: int|
                    0 <= k < out@.len() ==> is_candidate_for(
                        #[trigger] out@[k],
                        named_paths(paths, i as int)[k],
                    ),
            decreases event.paths@.len() - i,
        {
            assert(paths[i as int] == event.paths@[i as int]@);
            match PodCandidate::for_path(event.paths[i].as_str()) {
                Some(candidate) => {
                    out.push(candidate);
                },
                None => {},
            }
            i += 1;
        }
        out
    }

    /// The message that adds the source of the pod `candidate`.
    pub fn add_message(&self, candidate: &PodCandidate) -> (m: SourceControl<CgroupV2prob>)
        ensures
            adds_pod(m, *self, *candidate),
    {
        let metric_file = CgroupV2MetricFile {
            name: candidate.name.clone(),
            path_cpu: candidate.cpu_path.clone(),
            path_memory: candidate.memory_path.clone(),
        };
        let source = OARPlugin::make_source(self.metrics, metric_file);
        SourceControl::Add {
            plugin: self.plugin_name.clone(),
            name: candidate.name.clone(),
            source,
            trigger: TriggerSpec::at_interval(self.poll_interval),
            class: SourceClass::Normal,
        }
    }

    /// The sources to add for the candidates in `found`, each with what was
    /// found on disk for it. The candidates are taken in their order. One
    /// that is not a folder is passed over. One whose file is open gives a
    /// message that adds its source. The first whose file could not be
    /// opened ends the handling: neither it nor any candidate after it gives
    /// a source.
    pub fn handle_event(&self, found: &Vec<ProbedPod>) -> (r: Vec<SourceControl<CgroupV2prob>>)
        ensures
            r@.len() == accepted_positions(probes_of(found@)).len(),
            forall|k: int|
                0 <= k < r@.len() ==> 0 <= accepted_positions(probes_of(found@))[k] < found@.len()
                    && adds_pod(
                    #[trigger] r@[k],
                    *self,
                    found@[accepted_positions(probes_of(found@))[k]].candidate,
                ),
    {
        let mut out: Vec<SourceControl<CgroupV2prob>> = Vec::new();
        let ghost probes = probes_of(found@);
        let ghost mut stop: int = 0;
        let mut at: usize = 0;
        let mut failed = false;
        let limit = found.len();
        while at < limit
            invariant
                probes == probes_of(found@),
                limit == found@.len(),
                at <= limit,
                0 <= stop <= at,
                !failed ==> stop == at,
                failed ==> stop < at && probes[stop] == PodProbe::OpenFailed,
                forall|i: int| 0 <= i < stop ==> #[trigger] probes[i] != PodProbe::OpenFailed,
                out@.len() == opened_positions(probes, stop).len(),
                forall|k: int|
                    0 <= k < out@.len() ==> adds_pod(
                        #[trigger] out@[k],
                        *self,
                        found@[opened_positions(probes, stop)[k]].candidate,
                    ),
            decreases limit - at,
        {
            let ghost chosen = opened_positions(probes, stop);
            assert(probes[at as int] == found@[at as int].probe);
            if !failed {
                match found[at].probe {
                    PodProbe::NotADirectory => {
                        proof {
                            stop = stop + 1;
                            assert(opened_positions(probes, stop) == chosen);
                        }
                    },
                    PodProbe::OpenFailed => {
                        failed = true;
                    },
                    PodProbe::Opened => {
                        let ghost before = out@;
                        let message = self.add_message(&found[at].candidate);
                        out.push(message);
                        proof {
                            stop = stop + 1;
                            assert(opened_positions(probes, stop) == chosen.push(stop - 1));
                        }
                        assert forall|k: int| 0 <= k < out@.len() implies adds_pod(
                            #[trigger] out@[k],
                            *self,
                            found@[opened_positions(probes, stop)[k]].candidate,
                        ) by {
                            if k < before.len() {
                                assert(out@[k] == before[k]);
                                assert(opened_positions(probes, stop)[k] == chosen[k]);
                            } else {
                                assert(opened_positions(probes, stop)[k] == at);
                            }
                        }
                    },
                }
            }
            at += 1;
        }
        proof {
            lemma_probes_before_failure(probes, stop);
            lemma_opened_positions(probes, stop);
            assert(accepted_positions(probes) == opened_positions(probes, stop));
        }
        out
    }

    /// The names of the sources to remove for `event`: for an event that
    /// says that a folder was removed, the final component of each path that
    /// has one; for any other event, none.
    pub fn removals(&self, event: &WatchEvent) -> (r: Vec<String>)
        ensures
            event.kind != WatchEventKind::Remove(RemoveKind::Folder) ==> r@.len() == 0,
            event.kind == WatchEventKind::Remove(RemoveKind::Folder) ==> {
                let named = named_paths(event.spec_paths(), event.paths@.len() as int);
                &&& r@.len() == named.len()
                &&& forall|k: int|
                    0 <= k < r@.len() ==> path_file_name(named[k]) == Some((#[trigger] r@[k])@)
            },
    {
        let mut out: Vec<String> = Vec::new();
        if !event.removes_folder() {
            return out;
        }
        let ghost paths = event.spec_paths();
        let mut i: usize = 0;
        while i < event.paths.len()
            invariant
                i <= event.paths@.len(),
                paths == event.spec_paths(),
                out@.len() == named_paths(paths, i as int).len(),
                forall|k: int|
                    0 <= k < out@.len() ==> path_file_name(named_paths(paths, i as int)[k])
                        == Some((#[trigger] out@[k])@),
            decreases event.paths@.len() - i,
        {
            assert(paths[i as int] == event.paths@[i as int]@);
            match file_name(event.paths[i].as_str()) {
                Some(name) => {
                    out.push(name);
                },
                None => {},
            }
            i += 1;
        }
        out
    }
}

} // verus!
