use backsnap::helpers::FileOp;
use backsnap::install::{install_ops, install_outcome, integration_status, uninstall_ops, DESKTOP, INSTALLED};
use backsnap::privileged::first_blocked_op;

#[test]
fn installation_batch() {
    let ops = install_ops("/home/max/arclight/target/release/arclight");
    assert_eq!(ops.len(), 9);
    assert!(matches!(&ops[0], FileOp::Copy { src, dst }
        if src == "/home/max/arclight/target/release/arclight" && dst == "/usr/local/bin/arclight"));
    assert!(matches!(&ops[1], FileOp::Chmod { path, mode } if path == "/usr/local/bin/arclight" && *mode == 0o755));
    assert!(matches!(&ops[3], FileOp::Copy { src, .. } if src == "/tmp/arclight-install.png"));
    assert!(matches!(&ops[4], FileOp::Write { path, content }
        if path == "/usr/share/applications/arclight.desktop" && content == DESKTOP));
    assert!(DESKTOP.contains("Exec=/usr/local/bin/arclight\n"));
    assert!(matches!(&ops[8], FileOp::Write { path, content }
        if path == "/etc/pacman.d/hooks/00-arclight-pre.hook" && content.contains("When = PreTransaction")));
    // the root helper accepts it, wherever the binary lives
    assert_eq!(first_blocked_op(&ops), None);
    assert_eq!(first_blocked_op(&install_ops("/somewhere/else")), None);
}

#[test]
fn removal_batch_and_status() {
    let ops = uninstall_ops(&[true, false, true, false, true]);
    let paths: Vec<&str> = ops
        .iter()
        .map(|op| match op {
            FileOp::Delete { path } => path.as_str(),
            _ => "",
        })
        .collect();
    assert_eq!(
        paths,
        vec![
            "/usr/local/bin/arclight",
            "/usr/share/icons/hicolor/128x128/apps/arclight.png",
            "/etc/pacman.d/hooks/00-arclight-pre.hook"
        ]
    );
    assert_eq!(first_blocked_op(&ops), None);
    assert!(uninstall_ops(&[false; 5]).is_empty());
    let s = integration_status(true, false, true, false);
    assert!(s.binary && !s.desktop && s.polkit && !s.pacman_hook);
    assert_eq!(s.binary_path, "/usr/local/bin/arclight");
    assert_eq!(install_outcome(Ok(())), Ok(INSTALLED.to_string()));
    assert!(INSTALLED.starts_with("✓ Binary → /usr/local/bin/arclight\n"));
    assert_eq!(install_outcome(Err("abgebrochen".into())), Err("Installation fehlgeschlagen: abgebrochen".to_string()));
}
