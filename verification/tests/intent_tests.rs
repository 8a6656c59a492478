use backsnap::intent::{approx_token_score, collapse_spaces_str, has_standalone_percent, levenshtein, tokenize};
use backsnap::intent::{canonicalize_voice_command, closed_set_command_actions, ActionParams};
use backsnap::intent::{
    hard_reject, resolve_closed_set_command, resolve_voice_command, CanonicalColor,
    CanonicalCommand,
};

#[test]
fn resolves_rgb_power_off() {
    assert_eq!(
        resolve_closed_set_command("rgb aus"),
        Some(CanonicalCommand::RgbPower { on: false })
    );
}

#[test]
fn resolves_all_lights_color() {
    assert_eq!(
        resolve_closed_set_command("alle lichter lila"),
        Some(CanonicalCommand::AllLightsColor(CanonicalColor::Lila))
    );
}

#[test]
fn resolves_govee_brightness() {
    assert_eq!(
        resolve_closed_set_command("govee auf 50 prozent"),
        Some(CanonicalCommand::GoveeBrightness { percent: 50 })
    );
}

#[test]
fn resolves_fan_speed() {
    assert_eq!(
        resolve_closed_set_command("luefter auf 80 prozent"),
        Some(CanonicalCommand::FanSpeed { percent: 80 })
    );
}

#[test]
fn rejects_bare_percentage() {
    assert!(hard_reject("80 prozent"));
    assert_eq!(resolve_closed_set_command("80 prozent"), None);
}

#[test]
fn rejects_broken_short_fragments() {
    assert!(hard_reject("wolfs"));
    assert!(hard_reject("laeu"));
    assert_eq!(resolve_closed_set_command("wolfs"), None);
    assert_eq!(resolve_closed_set_command("laeu"), None);
}

#[test]
fn no_open_fallback_for_short_garbage() {
    let resolution = resolve_voice_command("wolfs");
    assert!(!resolution.accepted);
    assert!(!resolution.allow_open_fallback);
    assert!(resolution.reject_reason.is_some());
}

#[test]
fn allows_open_fallback_for_longer_free_speech() {
    let resolution = resolve_voice_command("kannst du mir bitte erklaeren was heute anliegt");
    assert!(!resolution.accepted);
    assert!(resolution.allow_open_fallback);
}

#[test]
fn token_helpers() {
    assert_eq!(collapse_spaces_str("  alle \t lichter   an "), "alle lichter an");
    assert_eq!(tokenize("  hallo   welt "), vec!["hallo".to_string(), "welt".to_string()]);
    assert_eq!(levenshtein("kitten", "sitting"), 3);
    assert_eq!(levenshtein("", "abc"), 3);
    assert_eq!(levenshtein("licht", "licht"), 0);
    assert_eq!(approx_token_score("licht", "licht"), 100);
    assert_eq!(approx_token_score("lichter", "licht"), 93);
    assert_eq!(approx_token_score("haus", "maus"), 90);
    assert_eq!(approx_token_score("luefter", "lueftar"), 90);
    assert_eq!(approx_token_score("lampen", "lumpan"), 78);
    assert_eq!(approx_token_score("ab", "xy"), 0);
    assert_eq!(approx_token_score("a", "b"), 0);
    assert!(has_standalone_percent("80 prozent"));
    assert!(!has_standalone_percent("auf 80 prozent"));
    assert!(!has_standalone_percent("hallo"));
}

#[test]
fn closed_set_commands_canonicalise() {
    assert_eq!(canonicalize_voice_command("rgb aus"), "rgb aus");
    assert_eq!(canonicalize_voice_command("luefter auf 80 prozent"), "luefter auf 80 prozent");
    let (reply, acts) = closed_set_command_actions(CanonicalCommand::RgbPower { on: false });
    assert_eq!(reply, "PC lighting shutting down.");
    assert_eq!(acts.len(), 1);
    assert_eq!(acts[0].action, "rgb_power");
    assert_eq!(acts[0].params, ActionParams::Power(false));
}

#[test]
fn every_canonical_phrase_resolves_to_its_command() {
    let mut all = vec![
        CanonicalCommand::RgbPower { on: true },
        CanonicalCommand::RgbPower { on: false },
        CanonicalCommand::AllLightsPower { on: true },
        CanonicalCommand::AllLightsPower { on: false },
        CanonicalCommand::AllLightsColor(CanonicalColor::Blau),
        CanonicalCommand::AllLightsColor(CanonicalColor::Lila),
        CanonicalCommand::AllLightsColor(CanonicalColor::Orange),
        CanonicalCommand::TankLevel,
        CanonicalCommand::GpuTemperature,
    ];
    for percent in 1..=100u8 {
        all.push(CanonicalCommand::GoveeBrightness { percent });
        all.push(CanonicalCommand::FanSpeed { percent });
    }
    for c in all {
        assert_eq!(resolve_closed_set_command(&c.canonical_phrase()), Some(c), "{:?}", c);
    }
}
