use backsnap::nexus::{
    base64_encode, clock_strings, days_to_ymd, default_buttons, downsample_frame, lcd_packets,
    nexus_status, page_name, pct_of, pixel_buf_size, NexusPages, WidgetColor,
};
use backsnap::voice_state::{TransitionEffects, VoicePhase, VoiceState, VOICE_COMMAND_TIMEOUT_MS};

#[test]
fn clap_then_command_window() {
    let mut s = VoiceState::idle();
    assert!(s.begin_clap_session(1_000));
    assert_eq!(s.phase, VoicePhase::Entrance);
    assert!(!s.begin_clap_session(1_100));
    s.arm_command_window_after_clap(2_000);
    assert_eq!(s, VoiceState { phase: VoicePhase::AwaitingCommand, deadline: Some(2_000 + VOICE_COMMAND_TIMEOUT_MS) });
    assert_eq!(s.snapshot(2_000 + VOICE_COMMAND_TIMEOUT_MS - 1).phase, VoicePhase::AwaitingCommand);
    assert_eq!(s.snapshot(2_000 + VOICE_COMMAND_TIMEOUT_MS), VoiceState::idle());
}

#[test]
fn wake_word_and_command() {
    let mut s = VoiceState::idle();
    assert!(s.begin_clap_session(0));
    assert_eq!(s.begin_wake_acknowledgement(10), Some(TransitionEffects { stop_entrance: true, stop_tts: false }));
    assert_eq!(s.phase, VoicePhase::Acknowledging);
    assert_eq!(s.begin_wake_acknowledgement(20), None);
    s.finish_wake_acknowledgement(30);
    assert_eq!(s.phase, VoicePhase::AwaitingCommand);
    assert_eq!(s.begin_voice_command(40), Some(TransitionEffects { stop_entrance: false, stop_tts: false }));
    assert_eq!(s.phase, VoicePhase::Executing);
    assert_eq!(s.begin_voice_command(50), None);
    s.finish_voice_command();
    assert_eq!(s, VoiceState::idle());
}

#[test]
fn command_interrupts_acknowledgement() {
    let mut s = VoiceState::idle();
    assert_eq!(s.begin_wake_acknowledgement(5), Some(TransitionEffects { stop_entrance: false, stop_tts: false }));
    assert_eq!(s.begin_voice_command(6), Some(TransitionEffects { stop_entrance: false, stop_tts: true }));
    let mut t = VoiceState::idle();
    assert!(!t.try_set_phase(&[VoicePhase::Executing], VoicePhase::Idle, None, 0));
    assert!(t.try_set_phase(&[VoicePhase::Idle], VoicePhase::AwaitingCommand, Some(100), 7));
    assert_eq!(t.deadline, Some(107));
    t.reset();
    assert_eq!(t, VoiceState::idle());
}

#[test]
fn pages_cycle() {
    let mut p = NexusPages::new();
    assert_eq!(page_name(p.current_page), "FANS");
    p.prev_page();
    assert_eq!(p.current_page, 3);
    assert_eq!(page_name(3), "UHR");
    p.next_page();
    assert_eq!(p.current_page, 0);
    p.set_page(9);
    assert_eq!(p.current_page, 0);
    p.set_page(2);
    assert_eq!(page_name(p.current_page), "SYSTEM");
    p.set_auto_cycle(true);
    let mut last = (0, 0);
    for _ in 0..13 {
        last = p.tick();
    }
    assert_eq!(last, (3, 104));
    p.set_auto_cycle(false);
    for _ in 0..40 {
        last = p.tick();
    }
    assert_eq!(last.0, 3);
    assert_eq!(last.1, (104 + 40 * 8) % 360);
}

#[test]
fn status_and_buttons() {
    let mut p = NexusPages::new();
    p.set_page(1);
    let s = nexus_status("1.2.3", "SER", u8::MAX, &p);
    assert_eq!(s.product, "iCUE NEXUS");
    assert_eq!(s.last_button, None);
    assert_eq!(s.current_page, 1);
    assert_eq!(s.buttons.len(), 5);
    assert_eq!(nexus_status("f", "s", 2, &p).last_button, Some(2));
    assert_eq!(default_buttons().len(), 5);
    assert_eq!(WidgetColor::White.to_rgba().0, [255, 255, 255, 255]);
}

#[test]
fn numbers_and_text() {
    assert_eq!(base64_encode(b"Man"), "TWFu");
    assert_eq!(base64_encode(b"Ma"), "TWE=");
    assert_eq!(base64_encode(b"M"), "TQ==");
    assert_eq!(base64_encode(b""), "");
    // days counted from 0000-03-01
    assert_eq!(days_to_ymd(0), (0, 3, 1));
    assert_eq!(days_to_ymd(719_468), (1970, 1, 1));
    assert_eq!(days_to_ymd(719_468 + 19_723), (2024, 1, 1));
    assert_eq!(days_to_ymd(719_468 + 11_016), (2000, 2, 29));
    assert_eq!(days_to_ymd(719_467), (1969, 12, 31));
    assert_eq!(clock_strings(0), ("01:00".to_string(), "01.01.1970".to_string()));
    assert_eq!(clock_strings(86_400 * 180), ("02:00".to_string(), "30.06.1970".to_string()));
    assert_eq!(pct_of(100, 50, 100), 50);
    assert_eq!(pct_of(100, 150, 100), 100);
    assert_eq!(pct_of(100, 5, 0), 0);
    assert_eq!(pixel_buf_size(), 640 * 48 * 4);
}

#[test]
fn lcd_frames() {
    let preview = vec![200u8; 640 * 4 * 48 * 4 * 4];
    let lcd = downsample_frame(&preview);
    assert_eq!(lcd.len(), 640 * 48 * 4);
    assert!(lcd.iter().all(|b| *b == 200));
    let rgba: Vec<u8> = (0..640 * 48).flat_map(|_| [1u8, 2, 3, 4]).collect();
    let ps = lcd_packets(&rgba).expect("right size");
    assert_eq!(ps.len(), 121);
    assert!(ps.iter().all(|p| p.len() == 1024));
    assert_eq!(&ps[0][..12], &[2, 5, 64, 0, 0, 0, 248, 3, 3, 2, 1, 4]);
    assert_eq!(&ps[120][..8], &[2, 5, 64, 1, 120, 0, 192, 3]);
    match lcd_packets(&[0u8; 10]) {
        Err(e) => assert_eq!(e.message(), "HID API: Image must be 122880 bytes, got 10"),
        Ok(_) => panic!("a short frame must be refused"),
    }
}
