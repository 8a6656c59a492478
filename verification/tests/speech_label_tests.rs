use backsnap::boot_guard::backup_label;
use backsnap::desktop_launcher::{candidate_icon_names, name_extension_exec, name_stem_exec};
use backsnap::nexus::days_to_ymd;
use backsnap::voice_state::{listen_line, speech_text_check};

fn chars(s: &str) -> Vec<char> {
    s.chars().collect()
}

fn text(v: Option<Vec<char>>) -> Option<String> {
    v.map(|c| c.into_iter().collect())
}

#[test]
fn listen_lines_give_transcripts_errors_or_nothing() {
    assert_eq!(listen_line("  TEXT:  alle lichter an \n"), Some(Ok("alle lichter an".to_string())));
    assert_eq!(listen_line("ERROR: no microphone"), Some(Err("no microphone".to_string())));
    assert_eq!(listen_line("TEXT:   "), None);
    assert_eq!(listen_line("LISTENING"), None);
    assert_eq!(listen_line("TRANSCRIBING\n"), None);
}

#[test]
fn blank_text_is_not_spoken() {
    assert_eq!(speech_text_check("  \n\t"), Err("No text to speak".to_string()));
    assert_eq!(speech_text_check(""), Err("No text to speak".to_string()));
    assert_eq!(speech_text_check(" Sir. "), Ok(()));
}

#[test]
fn backup_labels() {
    assert_eq!(backup_label(Some("  Vor dem Update\n"), 0), "Vor dem Update");
    assert_eq!(backup_label(None, 1431648000), "Backup 15.05.2015 00:00");
    assert_eq!(backup_label(None, 1700000000), "Backup 14.11.2023 22:13");
    assert_eq!(backup_label(None, u64::MAX / 2), format!("Backup {}", u64::MAX / 2));
}

#[test]
fn file_name_stems_and_extensions() {
    assert_eq!(text(name_extension_exec(&chars("arch.conf"))), Some("conf".to_string()));
    assert_eq!(text(name_extension_exec(&chars("a.b.CONF"))), Some("CONF".to_string()));
    assert_eq!(text(name_extension_exec(&chars(".bashrc"))), None);
    assert_eq!(text(name_extension_exec(&chars("foo."))), Some(String::new()));
    assert_eq!(text(name_extension_exec(&chars("README"))), None);
    assert_eq!(name_stem_exec(&chars("icon.svg")).into_iter().collect::<String>(), "icon");
    assert_eq!(name_stem_exec(&chars(".hidden")).into_iter().collect::<String>(), ".hidden");
    assert_eq!(name_stem_exec(&chars("a.tar.gz")).into_iter().collect::<String>(), "a.tar");
    assert_eq!(
        candidate_icon_names("/usr/share/icons/app.png"),
        vec!["/usr/share/icons/app.png".to_string(), "app.png".to_string(), "app".to_string()]
    );
}

#[test]
fn calendar_dates() {
    assert_eq!(days_to_ymd(719_468), (1970, 1, 1));
    assert_eq!(days_to_ymd(719_468 + 19_782), (2024, 2, 29));
    assert_eq!(days_to_ymd(719_468 + 19_783), (2024, 3, 1));
    assert_eq!(days_to_ymd(0), (0, 3, 1));
}
