use alumet::measurement::{MeasurementAccumulator, MeasurementBuffer};
use alumet::pipeline::control::MeasurementPipeline;
use alumet::pipeline::elements::{
    Output, OutputContext, OutputSettings, Source, SourceClass, SourceSettings, Transform,
    TransformContext, TransformSettings,
};
use alumet::pipeline::error::{PollError, TransformError, WriteError};
use alumet::pipeline::trigger::TriggerSpec;
use alumet::plugin::{
    check_plugin, remove_registrations, LifecycleAction, LoadError, Phase, PluginManager,
    PluginRecord, PluginSymbols, Stage, StartupReport,
};
use alumet::time::Timestamp;
use alumet::units::{PrefixedUnit, Unit};

struct Nothing;

impl Source for Nothing {
    fn poll(&mut self, _m: &mut MeasurementAccumulator, _t: Timestamp) -> Result<(), PollError> {
        Ok(())
    }
}

impl Transform for Nothing {
    fn apply(&mut self, _m: &mut MeasurementBuffer, _c: &TransformContext) -> Result<(), TransformError> {
        Ok(())
    }
}

impl Output for Nothing {
    fn write(&mut self, _m: &MeasurementBuffer, _c: &OutputContext) -> Result<(), WriteError> {
        Ok(())
    }
}

fn records(names: &[&str]) -> Vec<PluginRecord> {
    names
        .iter()
        .map(|n| PluginRecord { name: n.to_string(), version: "1".to_string(), failed_at: None })
        .collect()
}

fn run(manager: &mut PluginManager, fail: &[(usize, Stage)]) -> Vec<LifecycleAction> {
    let mut actions = Vec::new();
    loop {
        let action = manager.step();
        actions.push(action);
        match action {
            LifecycleAction::Done => return actions,
            LifecycleAction::Run { plugin, stage } => {
                if fail.contains(&(plugin, stage)) {
                    manager.fail(plugin, stage);
                }
            }
            LifecycleAction::LaunchPipeline => {}
        }
    }
}

fn stage(plugin: usize, stage: Stage) -> LifecycleAction {
    LifecycleAction::Run { plugin, stage }
}

#[test]
fn all_plugins_go_through_a_stage_before_any_enters_the_next() {
    let mut manager = PluginManager::new(records(&["a", "b"]));
    assert_eq!(manager.phase, Phase::Plugins(Stage::Init));
    let actions = run(&mut manager, &[]);
    assert_eq!(
        actions,
        vec![
            stage(0, Stage::Init),
            stage(1, Stage::Init),
            stage(0, Stage::Start),
            stage(1, Stage::Start),
            stage(0, Stage::PrePipelineStart),
            stage(1, Stage::PrePipelineStart),
            LifecycleAction::LaunchPipeline,
            stage(0, Stage::PostPipelineStart),
            stage(1, Stage::PostPipelineStart),
            LifecycleAction::Done,
        ]
    );
    assert_eq!(manager.phase, Phase::Running);
    assert_eq!(manager.step(), LifecycleAction::Done);
}

#[test]
fn a_plugin_that_failed_enters_no_further_stage() {
    let mut manager = PluginManager::new(records(&["a", "b", "c"]));
    let actions = run(&mut manager, &[(1, Stage::Start), (0, Stage::PostPipelineStart)]);
    assert_eq!(
        actions,
        vec![
            stage(0, Stage::Init),
            stage(1, Stage::Init),
            stage(2, Stage::Init),
            stage(0, Stage::Start),
            stage(1, Stage::Start),
            stage(2, Stage::Start),
            stage(0, Stage::PrePipelineStart),
            stage(2, Stage::PrePipelineStart),
            LifecycleAction::LaunchPipeline,
            stage(0, Stage::PostPipelineStart),
            stage(2, Stage::PostPipelineStart),
            LifecycleAction::Done,
        ]
    );
    assert_eq!(manager.plugins[1].failed_at, Some(Stage::Start));
    assert_eq!(manager.plugins[0].failed_at, Some(Stage::PostPipelineStart));
    assert_eq!(manager.count_failed(), 2);
    manager.fail(1, Stage::Init);
    assert_eq!(manager.plugins[1].failed_at, Some(Stage::Start));
    manager.fail(9, Stage::Init);
    assert_eq!(manager.count_failed(), 2);
}

#[test]
fn without_plugins_the_pipeline_is_launched_at_once() {
    let mut manager = PluginManager::new(Vec::new());
    assert_eq!(run(&mut manager, &[]), vec![LifecycleAction::LaunchPipeline, LifecycleAction::Done]);
}

#[test]
fn what_a_failed_plugin_registered_is_removed() {
    let mut pipeline: MeasurementPipeline<Nothing, Nothing, Nothing> = MeasurementPipeline::new();
    let settings = SourceSettings { trigger: TriggerSpec::Manual, class: SourceClass::Normal };
    pipeline.sources.add("good".to_string(), "s".to_string(), settings, Nothing).unwrap();
    pipeline.sources.add("bad".to_string(), "s".to_string(), settings, Nothing).unwrap();
    pipeline.sources.add("bad".to_string(), "t".to_string(), settings, Nothing).unwrap();
    pipeline.transforms.add("bad".to_string(), "x".to_string(), TransformSettings { enabled: true }, Nothing).unwrap();
    pipeline.outputs.add("good".to_string(), "o".to_string(), OutputSettings {}, Nothing).unwrap();
    pipeline.outputs.add("bad".to_string(), "o".to_string(), OutputSettings {}, Nothing).unwrap();
    pipeline.metrics.create_metric::<u64>("m", PrefixedUnit::plain(Unit::Unity), "").unwrap();
    remove_registrations(&mut pipeline, "bad");
    assert_eq!(pipeline.sources.len(), 1);
    assert_eq!(pipeline.sources.get(0).plugin, "good");
    assert_eq!(pipeline.transforms.len(), 0);
    assert_eq!(pipeline.outputs.len(), 1);
    assert_eq!(pipeline.outputs.get(0).plugin, "good");
    assert_eq!(pipeline.metrics.len(), 1);

    let mut manager = PluginManager::new(records(&["good", "bad"]));
    manager.fail(1, Stage::Start);
    let report = manager.report(&pipeline);
    assert_eq!(report, StartupReport { loaded: 1, failed: 1, metrics: 1, sources: 1, transforms: 0, outputs: 1 });
    assert_eq!(report.summary(), "1 plugins loaded:\n\t- 1 metrics\n\t- 1 sources\n\t- 1 outputs\n");
}

#[test]
fn the_summary_counts() {
    let report = StartupReport { loaded: 12, failed: 0, metrics: 340, sources: 7, transforms: 2, outputs: 10 };
    assert_eq!(report.summary(), "12 plugins loaded:\n\t- 340 metrics\n\t- 7 sources\n\t- 10 outputs\n");
}

#[test]
fn a_plugin_from_a_library_is_checked_before_it_is_initialised() {
    let full = |version: &str| PluginSymbols { name: Some("rapl".to_string()), version: Some(version.to_string()), has_init: true };
    let record = check_plugin(full("3"), "3").unwrap();
    assert_eq!(record.name, "rapl");
    assert_eq!(record.version, "3");
    assert_eq!(record.failed_at, None);
    assert_eq!(check_plugin(full("2"), "3").err(), Some(LoadError::IncompatibleVersion));
    assert_eq!(
        check_plugin(PluginSymbols { name: None, version: None, has_init: false }, "3").err(),
        Some(LoadError::MissingName)
    );
    assert_eq!(
        check_plugin(PluginSymbols { name: Some("x".to_string()), version: None, has_init: false }, "3").err(),
        Some(LoadError::MissingVersion)
    );
    assert_eq!(
        check_plugin(PluginSymbols { name: Some("x".to_string()), version: Some("2".to_string()), has_init: false }, "3").err(),
        Some(LoadError::MissingInit)
    );
}
