use alumet::pipeline::control::{add_source, remove_source, set_enabled, set_period, AddSourceError};
use alumet::pipeline::elements::{
    SourceClass, SourceRegistry, SourceSettings, TransformRegistry, TransformSettings,
};
use alumet::pipeline::groups::{grouped, members_of};
use alumet::pipeline::registry::{ElementRegistry, ElementSelector, RegistryError};
use alumet::pipeline::trigger::TriggerSpec;
use alumet::time::Duration;

fn every(secs: u64) -> TriggerSpec {
    TriggerSpec::at_interval(Duration::from_secs(secs))
}

fn snapshot(sources: &SourceRegistry<u32>) -> Vec<(u64, String, String, SourceSettings, u32)> {
    (0..sources.len())
        .map(|i| {
            let e = sources.get(i);
            (e.id, e.plugin.clone(), e.name.clone(), e.settings, e.element)
        })
        .collect()
}

fn add(sources: &mut SourceRegistry<u32>, plugin: &str, name: &str, payload: u32) -> Result<u64, AddSourceError> {
    add_source(sources, plugin.to_string(), name.to_string(), payload, every(1), SourceClass::Normal)
}

#[test]
fn add_then_remove_gives_back_the_registry() {
    let mut sources: SourceRegistry<u32> = ElementRegistry::new();
    add(&mut sources, "oar", "job_1", 1).unwrap();
    add(&mut sources, "oar", "job_2", 2).unwrap();
    let before = snapshot(&sources);
    assert_eq!(add(&mut sources, "oar", "job_42", 42), Ok(2));
    assert_eq!(sources.len(), 3);
    assert!(sources.contains("oar", "job_42"));
    assert!(remove_source(&mut sources, "oar", "job_42"));
    assert_eq!(snapshot(&sources), before);
    assert!(!sources.contains("oar", "job_42"));
}

#[test]
fn a_duplicate_is_refused_without_effect() {
    let mut sources: SourceRegistry<u32> = ElementRegistry::new();
    assert_eq!(add(&mut sources, "oar", "job_42", 1), Ok(0));
    let before = snapshot(&sources);
    assert_eq!(add(&mut sources, "oar", "job_42", 2), Err(AddSourceError::Duplicate));
    assert_eq!(snapshot(&sources), before);
    // The same name under another plugin is another element.
    assert_eq!(add(&mut sources, "k8s", "job_42", 3), Ok(1));
}

#[test]
fn removing_what_is_not_there_changes_nothing() {
    let mut sources: SourceRegistry<u32> = ElementRegistry::new();
    add(&mut sources, "oar", "job_1", 1).unwrap();
    let before = snapshot(&sources);
    assert!(!remove_source(&mut sources, "oar", "job_2"));
    assert!(!remove_source(&mut sources, "oar", "job_2"));
    assert!(!remove_source(&mut sources, "rapl", "job_1"));
    assert_eq!(snapshot(&sources), before);
}

#[test]
fn create_remove_create_gives_a_new_number() {
    let mut sources: SourceRegistry<u32> = ElementRegistry::new();
    assert_eq!(add(&mut sources, "oar", "job_1", 1), Ok(0));
    assert!(remove_source(&mut sources, "oar", "job_1"));
    assert_eq!(add(&mut sources, "oar", "job_1", 2), Ok(1));
    assert_eq!(sources.len(), 1);
    assert_eq!(sources.get(0).element, 2);
}

#[test]
fn a_trigger_without_a_period_is_refused() {
    let mut sources: SourceRegistry<u32> = ElementRegistry::new();
    let r = add_source(
        &mut sources,
        "p".to_string(),
        "s".to_string(),
        1,
        TriggerSpec::at_interval(Duration::zero()),
        SourceClass::Normal,
    );
    assert_eq!(r, Err(AddSourceError::InvalidTrigger));
    assert!(sources.is_empty());
    let manual = add_source(&mut sources, "p".to_string(), "s".to_string(), 1, TriggerSpec::Manual, SourceClass::Blocking);
    assert_eq!(manual, Ok(0));
}

#[test]
fn registry_add_reports_duplicates() {
    let mut registry: ElementRegistry<u8, char> = ElementRegistry::new();
    assert_eq!(registry.add("p".to_string(), "a".to_string(), 1, 'x'), Ok(0));
    assert_eq!(registry.add("p".to_string(), "a".to_string(), 2, 'y'), Err(RegistryError::Duplicate));
    assert_eq!(registry.position("p", "a"), Some(0));
    assert_eq!(registry.position("p", "b"), None);
    let removed = registry.remove("p", "a").unwrap();
    assert_eq!((removed.id, removed.settings, removed.element), (0, 1, 'x'));
    assert!(registry.remove("p", "a").is_none());
}

#[test]
fn selectors_choose_by_plugin_name_and_number() {
    let mut sources: SourceRegistry<u32> = ElementRegistry::new();
    add(&mut sources, "oar", "A", 1).unwrap();
    add(&mut sources, "rapl", "B", 2).unwrap();
    add(&mut sources, "oar", "B", 3).unwrap();
    add(&mut sources, "rapl", "C", 4).unwrap();
    assert_eq!(sources.select(&ElementSelector::all()), vec![0, 1, 2, 3]);
    assert_eq!(sources.select(&ElementSelector::ByPluginName("oar".to_string())), vec![0, 2]);
    assert_eq!(sources.select(&ElementSelector::ByElementName("B".to_string())), vec![1, 2]);
    assert_eq!(sources.select(&ElementSelector::ByTypedId(3)), vec![3]);
    assert_eq!(sources.select(&ElementSelector::ByTypedId(9)), Vec::<usize>::new());
    assert_eq!(sources.ids_of(&vec![1, 3]), vec![1, 3]);
    let removed = sources.remove_selected(&ElementSelector::ByPluginName("oar".to_string()));
    assert_eq!(removed, vec![0, 2]);
    let left: Vec<u32> = snapshot(&sources).iter().map(|e| e.4).collect();
    assert_eq!(left, vec![2, 4]);
}

#[test]
fn a_new_period_goes_to_the_chosen_sources_only() {
    let mut sources: SourceRegistry<u32> = ElementRegistry::new();
    add(&mut sources, "oar", "A", 1).unwrap();
    add_source(&mut sources, "oar".to_string(), "B".to_string(), 2, TriggerSpec::Manual, SourceClass::Priority).unwrap();
    add(&mut sources, "rapl", "C", 3).unwrap();
    let changed = set_period(&mut sources, &ElementSelector::ByPluginName("oar".to_string()), Duration::from_secs(5));
    assert_eq!(changed, vec![0, 1]);
    assert_eq!(sources.get(0).settings, SourceSettings { trigger: every(5), class: SourceClass::Normal });
    assert_eq!(sources.get(1).settings, SourceSettings { trigger: every(5), class: SourceClass::Priority });
    assert_eq!(sources.get(2).settings, SourceSettings { trigger: every(1), class: SourceClass::Normal });
    let none = set_period(&mut sources, &ElementSelector::all(), Duration::zero());
    assert!(none.is_empty());
    assert_eq!(sources.get(2).settings.trigger, every(1));
}

#[test]
fn transforms_are_enabled_and_disabled() {
    let mut transforms: TransformRegistry<u32> = ElementRegistry::new();
    transforms.add("a".to_string(), "t1".to_string(), TransformSettings { enabled: true }, 1).unwrap();
    transforms.add("b".to_string(), "t2".to_string(), TransformSettings { enabled: true }, 2).unwrap();
    let changed = set_enabled(&mut transforms, &ElementSelector::ByElementName("t2".to_string()), false);
    assert_eq!(changed, vec![1]);
    assert!(transforms.get(0).settings.enabled);
    assert!(!transforms.get(1).settings.enabled);
    set_enabled(&mut transforms, &ElementSelector::all(), true);
    assert!(transforms.get(1).settings.enabled);
}

#[test]
fn sources_are_grouped_by_trigger_and_class() {
    let mut sources: SourceRegistry<u32> = ElementRegistry::new();
    let settings = [
        (every(1), SourceClass::Normal),
        (every(2), SourceClass::Normal),
        (every(1), SourceClass::Blocking),
        (every(1), SourceClass::Normal),
        (TriggerSpec::Manual, SourceClass::Normal),
        (every(2), SourceClass::Normal),
    ];
    for (i, (trigger, class)) in settings.iter().enumerate() {
        add_source(&mut sources, "p".to_string(), format!("s{}", i), i as u32, *trigger, *class).unwrap();
    }
    let groups = grouped(&sources);
    let seen: Vec<(SourceSettings, Vec<usize>)> = groups.iter().map(|g| (g.key, g.members.clone())).collect();
    assert_eq!(
        seen,
        vec![
            (SourceSettings { trigger: every(1), class: SourceClass::Normal }, vec![0, 3]),
            (SourceSettings { trigger: every(2), class: SourceClass::Normal }, vec![1, 5]),
            (SourceSettings { trigger: every(1), class: SourceClass::Blocking }, vec![2]),
            (SourceSettings { trigger: TriggerSpec::Manual, class: SourceClass::Normal }, vec![4]),
        ]
    );
    assert_eq!(members_of(&sources, SourceSettings { trigger: every(2), class: SourceClass::Normal }), vec![1, 5]);
    assert!(members_of(&sources, SourceSettings { trigger: every(3), class: SourceClass::Normal }).is_empty());
    let empty: SourceRegistry<u32> = ElementRegistry::new();
    assert!(grouped(&empty).is_empty());
}
