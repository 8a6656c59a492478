use backsnap::fastparse::try_fast_parse;
use backsnap::intent::{extract_percent_value, normalize_input, ActionParams};

#[test]
fn lights_off_is_understood() {
    let (reply, actions) = try_fast_parse("Licht aus!").expect("a light command");
    assert_eq!(reply, "Certainly, Sir. Turning the lights off.");
    assert_eq!(actions.len(), 1);
    assert_eq!(actions[0].action, "light_power");
    assert_eq!(actions[0].params, ActionParams::Power(false));
}

#[test]
fn fans_back_to_auto() {
    let (reply, actions) = try_fast_parse("Lüfter auf auto").expect("a fan command");
    assert_eq!(reply, "Returning fans to automatic curve, Sir.");
    assert_eq!(actions[0].action, "fan_speed");
    assert_eq!(actions[0].params, ActionParams::PercentAuto);
}

#[test]
fn free_speech_is_left_to_the_model() {
    assert!(try_fast_parse("erzähl mir einen witz").is_none());
    assert!(try_fast_parse("").is_none());
}

#[test]
fn normalisation_and_percentages() {
    assert_eq!(normalize_input("  Lüfter,  AUF 80%! "), "luefter auf 80");
    assert_eq!(extract_percent_value("govee auf 50 prozent"), Some(50));
    assert_eq!(extract_percent_value("keine zahl"), None);
}
