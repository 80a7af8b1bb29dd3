use suitware::raa::{decimal_text, TemperatureState};
use suitware::synthesis::{inspector_params, vehicle_sound_samples, EngineState, Params, Vehicle, VEHICLE_SAMPLE_RATE};

#[test]
fn label_shows_the_temperature() {
    assert_eq!(TemperatureState { temperature: 21 }.label(), "Temperature: 21");
    assert_eq!(TemperatureState { temperature: 0 }.label(), "Temperature: 0");
    assert_eq!(TemperatureState { temperature: -7 }.label(), "Temperature: -7");
}

#[test]
fn decimal_text_matches_display() {
    for n in [0, 5, 9, 10, 99, 100, 12345, -1, -10, -987, i32::MAX, i32::MIN] {
        assert_eq!(decimal_text(n), n.to_string());
    }
}

#[test]
fn update_then_repaint_only_on_change() {
    let before = TemperatureState { temperature: 20 };
    let mut after = before;
    after.apply_update(20);
    assert!(!TemperatureState::needs_repaint(&before, &after));
    after.apply_update(25);
    assert_eq!(after.temperature, 25);
    assert!(TemperatureState::needs_repaint(&before, &after));
}

#[test]
fn inspector_params_for_distance() {
    assert_eq!(
        inspector_params(12),
        Params { distance: 12, velocity: 5, state: EngineState::Off, rate_of_change: 5 }
    );
    let _vehicle = Vehicle {};
}

#[test]
fn vehicle_sound_is_five_seconds() {
    assert_eq!(VEHICLE_SAMPLE_RATE, 48_000);
    assert_eq!(vehicle_sound_samples(), 240_000);
}

#[test]
fn labels_tell_temperatures_apart() {
    let values = [-100, -21, -12, -1, 0, 1, 12, 21, 100];
    for a in values {
        for b in values {
            let same = TemperatureState { temperature: a }.label() == TemperatureState { temperature: b }.label();
            assert_eq!(same, a == b);
        }
    }
}
