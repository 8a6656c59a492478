use backsnap::protocol::SpeedPct;

#[test]
fn speed_pct_clamps_to_100() {
    assert_eq!(SpeedPct::new(200).get(), 100);
    assert_eq!(SpeedPct::new(0).get(), 0);
    assert_eq!(SpeedPct::new(50).get(), 50);
}
