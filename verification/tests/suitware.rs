use suitware::hal::temperature::TemperatureSensor as FixedSensor;
use suitware::suitware::launch::{Launch, LaunchAction, LaunchEvent};
use suitware::suitware::mqtt::MqttClient;
use suitware::suitware::protocol::{TargetTemperatureRequest, Temperature, TemperatureRequest};
use suitware::suitware::{NextState, Suitware};

fn run_launch(plugins: usize, runs: &[Vec<NextState>]) -> Vec<LaunchAction> {
    let (mut launch, mut action) = Launch::new(plugins, runs.len());
    let mut trace = vec![action];
    let mut next_run = vec![0usize; runs.len()];
    while action != LaunchAction::Finish {
        let event = match action {
            LaunchAction::RunSystem(i) => {
                let state = runs[i][next_run[i]];
                next_run[i] += 1;
                LaunchEvent::Ran(state)
            }
            _ => LaunchEvent::Completed,
        };
        action = launch.step(event);
        trace.push(action);
    }
    trace
}

#[test]
fn create_basic_application() {
    let app: Suitware<(), (), ()> = Suitware::new();
    let (systems, tasks, plugins) = app.into_parts();
    let (_, first) = Launch::new(plugins.len(), systems.len());
    assert!(tasks.is_empty());
    assert_eq!(first, LaunchAction::Finish);
}

#[test]
fn builder_keeps_order_and_periods() {
    let app: Suitware<&str, &str, &str> = Suitware::new()
        .add_system("first")
        .add_plugin("plugin")
        .add_task("five", 5_000_000_000)
        .add_system("second")
        .add_task("again", 5_000_000_000)
        .add_task("one", 1_000_000_000);
    let (systems, tasks, plugins) = app.into_parts();
    assert_eq!(systems, vec!["first", "second"]);
    assert_eq!(plugins, vec!["plugin"]);
    assert_eq!(tasks.len(), 2);
    assert_eq!(tasks[&5_000_000_000], "again");
    assert_eq!(tasks[&1_000_000_000], "one");
}

#[test]
fn launch_runs_plugins_then_systems_until_stop() {
    let trace = run_launch(2, &[vec![NextState::Continue, NextState::Continue, NextState::Stop], vec![NextState::Stop]]);
    assert_eq!(
        trace,
        vec![
            LaunchAction::InitPlugin(0),
            LaunchAction::InitPlugin(1),
            LaunchAction::InitSystem(0),
            LaunchAction::RunSystem(0),
            LaunchAction::RunSystem(0),
            LaunchAction::RunSystem(0),
            LaunchAction::EndSystem(0),
            LaunchAction::InitSystem(1),
            LaunchAction::RunSystem(1),
            LaunchAction::EndSystem(1),
            LaunchAction::Finish
        ]
    );
}

#[test]
fn launch_without_plugins_starts_with_systems() {
    let trace = run_launch(0, &[vec![NextState::Stop]]);
    assert_eq!(trace, vec![LaunchAction::InitSystem(0), LaunchAction::RunSystem(0), LaunchAction::EndSystem(0), LaunchAction::Finish]);
    let trace = run_launch(1, &[]);
    assert_eq!(trace, vec![LaunchAction::InitPlugin(0), LaunchAction::Finish]);
}

#[test]
fn fixed_sensor_reads_constants() {
    let sensor = FixedSensor::default();
    assert_eq!(sensor.get_temperature(), 20);
    assert_eq!(sensor.get_target_temperature(), 22);
    sensor.set_target_temperature(1);
    assert_eq!(sensor.get_temperature(), 20);
}

#[test]
fn services_answer_with_their_reports() {
    let report = Temperature { temperature: 20, target_temperature: 22 };
    assert_eq!(
        suitware::server::temperature_report(-3, 18),
        Temperature { temperature: -3, target_temperature: 18 }
    );

    let sim = suitware::sim::TemperatureSensor::default();
    assert_eq!(sim.get_temperature(TemperatureRequest {}), report);
    assert_eq!(sim.set_temperature(TargetTemperatureRequest { target_temperature: 40 }), report);

    let fixed = Temperature { temperature: 1, target_temperature: 5 };
    let systems = suitware::suitware::systems::temperature::TemperatureSensor::default();
    assert_eq!(systems.get_temperature(TemperatureRequest {}), fixed);
    let standalone = suitware::suitware::server::TemperatureSensor::default();
    assert_eq!(standalone.set_temperature(TargetTemperatureRequest { target_temperature: 3 }), fixed);
}

#[test]
fn mqtt_client_keeps_its_options() {
    let client = MqttClient::new("some-id", "localhost", 5001, 100);
    assert_eq!(client.eventloop.mqtt_options.client_id(), "some-id");
    assert_eq!(client.eventloop.mqtt_options.broker_address(), ("localhost".to_string(), 5001));
    let options = rumqttc::MqttOptions::new("other-id", "broker", 1883);
    let client = MqttClient::new_from_options(options, 10);
    assert_eq!(client.eventloop.mqtt_options.client_id(), "other-id");
}
