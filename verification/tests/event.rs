use alumet::cli::{Cli, Command};
use alumet::config::{thread_count, AgentConfig, AgentKey, ConfigInvalid};
use alumet::event::ConsumerEventBus;
use alumet::exec_process::{child_started, StartConsumerMeasurement};
use alumet::resources::ResourceConsumer;

fn pids(events: &[StartConsumerMeasurement]) -> Vec<Vec<u32>> {
    events
        .iter()
        .map(|e| {
            e.consumers
                .iter()
                .map(|c| match c {
                    ResourceConsumer::Process { pid } => *pid,
                    _ => 0,
                })
                .collect()
        })
        .collect()
}

#[test]
fn an_announcement_goes_to_all_who_have_subscribed() {
    let mut bus = ConsumerEventBus::new();
    let first = bus.subscribe();
    let second = bus.subscribe();
    assert_eq!((first, second), (0, 1));
    bus.publish(&child_started("a", 10).1);
    bus.publish(&StartConsumerMeasurement {
        consumers: vec![ResourceConsumer::Process { pid: 20 }, ResourceConsumer::Process { pid: 21 }],
    });
    assert_eq!(pids(&bus.drain(first)), vec![vec![10], vec![20, 21]]);
    assert!(bus.drain(first).is_empty());
    assert_eq!(pids(&bus.drain(second)), vec![vec![10], vec![20, 21]]);
}

#[test]
fn what_was_announced_before_is_not_told_again() {
    let mut bus = ConsumerEventBus::new();
    bus.publish(&child_started("a", 1).1);
    let early = bus.subscribe();
    bus.publish(&child_started("b", 2).1);
    let late = bus.subscribe();
    bus.publish(&child_started("c", 3).1);
    assert_eq!(pids(&bus.drain(early)), vec![vec![2], vec![3]]);
    assert_eq!(pids(&bus.drain(late)), vec![vec![3]]);
    assert!(bus.drain(7).is_empty());
}

#[test]
fn the_numbers_of_threads_are_optional_and_above_zero() {
    assert_eq!(
        AgentConfig::from_values(None, None),
        Ok(AgentConfig { worker_threads: None, priority_worker_threads: None })
    );
    assert_eq!(
        AgentConfig::from_values(Some(4), Some(1)),
        Ok(AgentConfig { worker_threads: Some(4), priority_worker_threads: Some(1) })
    );
    assert_eq!(AgentConfig::from_values(Some(0), Some(1)), Err(ConfigInvalid { key: AgentKey::WorkerThreads }));
    assert_eq!(AgentConfig::from_values(Some(-2), Some(-1)), Err(ConfigInvalid { key: AgentKey::WorkerThreads }));
    assert_eq!(
        AgentConfig::from_values(Some(2), Some(0)),
        Err(ConfigInvalid { key: AgentKey::PriorityWorkerThreads })
    );
    assert_eq!(thread_count(Some(i64::MAX), AgentKey::WorkerThreads), Ok(Some(i64::MAX as usize)));
    assert_eq!(thread_count(None, AgentKey::WorkerThreads), Ok(None));
}

#[test]
fn the_settings_are_read_from_the_given_file_or_the_usual_one() {
    let given = Cli { config: Some("/etc/agent.toml".to_string()), command: Command::Run };
    assert_eq!(given.config_path(), "/etc/agent.toml");
    let usual = Cli {
        config: None,
        command: Command::Exec { program: "sleep".to_string(), args: vec!["1".to_string()] },
    };
    assert_eq!(usual.config_path(), "alumet-config.toml");
}
