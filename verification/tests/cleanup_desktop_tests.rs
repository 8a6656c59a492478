use backsnap::cleanup::{
    category_name, child_rel_path, delete_guard, delete_summary, has_hidden_segment,
    is_runtime_extension_path, is_safe_to_delete, json_candidates, largest_first,
    llm_endpoint_base, normalize_llm_text, repair_prompt, review_cache_key, review_prompt,
    should_ai_review_item, DeleteResult, ExcludeCategory, ReviewSignals,
};
use backsnap::desktop_launcher::{
    candidate_icon_names, find_desktop_app, parse_bool, parse_desktop_entry, sanitize_exec, DesktopApp,
};

#[test]
fn safe_deletions() {
    assert!(!is_safe_to_delete(ExcludeCategory::Cache, ".cache", false));
    assert!(is_safe_to_delete(ExcludeCategory::Cache, ".cache/thumbnails", false));
    assert!(is_safe_to_delete(ExcludeCategory::BuildArtifact, "dev/app/node_modules", false));
    assert!(!is_safe_to_delete(ExcludeCategory::BuildArtifact, ".vscode/extensions/x/node_modules", false));
    assert!(is_safe_to_delete(ExcludeCategory::BuildArtifact, "dev/rust/target", true));
    assert!(!is_safe_to_delete(ExcludeCategory::BuildArtifact, "dev/rust/target", false));
    assert!(is_safe_to_delete(ExcludeCategory::BuildArtifact, "dev/web/.NEXT", false));
    assert!(!is_safe_to_delete(ExcludeCategory::BuildArtifact, "dev/web/dist", false));
    assert!(!is_safe_to_delete(ExcludeCategory::Media, "Videos", false));
}

#[test]
fn runtime_extensions() {
    assert!(is_runtime_extension_path(".vscode-server/extensions/ms-python/node_modules"));
    assert!(!is_runtime_extension_path("code/extensions/x/node_modules"));
    assert!(!is_runtime_extension_path(".vscode/node_modules/extensions"));
    assert!(should_ai_review_item(".vscode/extensions/x/node_modules", ExcludeCategory::BuildArtifact, 0));
    assert!(!should_ai_review_item("dev/app/node_modules", ExcludeCategory::BuildArtifact, 0));
    assert!(should_ai_review_item("dev/app/build", ExcludeCategory::BuildArtifact, u64::MAX));
    assert!(!should_ai_review_item(".vscode/extensions/x/node_modules", ExcludeCategory::Cache, u64::MAX));
}

#[test]
fn deletion_guards() {
    assert_eq!(delete_guard("../etc", false).as_deref(), Some("Pfad liegt außerhalb des Home-Verzeichnisses"));
    assert_eq!(delete_guard(".ssh/id_rsa", false).as_deref(), Some("Geschützter Pfad — darf nicht gelöscht werden"));
    assert_eq!(delete_guard(".config", false).as_deref(), Some("Geschützter Pfad — darf nicht gelöscht werden"));
    assert_eq!(delete_guard("anything", true).as_deref(), Some("Geschützter Pfad — darf nicht gelöscht werden"));
    assert_eq!(delete_guard(".config/app/cache", false), None);
    assert_eq!(delete_guard(".sshfoo", false), None);
    let results = vec![
        DeleteResult { path: "a".into(), success: true, error: None },
        DeleteResult { path: "b".into(), success: false, error: Some("x".into()) },
        DeleteResult { path: "c".into(), success: true, error: None },
    ];
    assert_eq!(delete_summary(&results), "Löschvorgang abgeschlossen — 2 gelöscht, 1 fehlgeschlagen");
    assert_eq!(child_rel_path(".", "x"), "x");
    assert_eq!(child_rel_path("", "x"), "x");
    assert_eq!(child_rel_path("a/b", "c"), "a/b/c");
}

#[test]
fn llm_text_helpers() {
    assert_eq!(llm_endpoint_base("http://host:8080/v1/chat/completions/"), "http://host:8080");
    assert_eq!(llm_endpoint_base("http://host:8080/completion"), "http://host:8080");
    assert_eq!(llm_endpoint_base("http://host:8080"), "http://host:8080");
    assert_eq!(normalize_llm_text("```json\n{\"a\":1}\n```"), "{\"a\":1}");
    assert_eq!(normalize_llm_text("  plain  "), "plain");
    let (text, slice) = json_candidates("Answer: {\"safe\": true} ok");
    assert_eq!(text, "Answer: {\"safe\": true} ok");
    assert_eq!(slice.as_deref(), Some("{\"safe\": true}"));
    assert_eq!(json_candidates("no braces").1, None);
    assert!(!category_name(ExcludeCategory::Cache).is_empty());
}

#[test]
fn desktop_entries() {
    let content = "[Desktop Entry]\nType=Application\nName=Firefox\nName=Ignored\nExec=firefox %u\nIcon=firefox\nTerminal=false\n[Desktop Action new]\nName=New Window\n";
    let app = parse_desktop_entry(content, "firefox.desktop").expect("an application");
    assert_eq!(app.id, "firefox.desktop");
    assert_eq!(app.name, "Firefox");
    assert_eq!(app.exec_cmd, "firefox %u");
    assert_eq!(app.icon.as_deref(), Some("firefox"));
    assert_eq!(app.icon_path, None);
    assert!(!app.terminal);
    assert!(parse_desktop_entry("[Desktop Entry]\nType=Application\nName=X\nExec=x\nNoDisplay=true\n", "x.desktop").is_none());
    assert!(parse_desktop_entry("[Desktop Entry]\nType=Link\nName=X\nExec=x\n", "x.desktop").is_none());
    assert!(parse_desktop_entry("[Desktop Entry]\nType=Application\nExec=x\n", "x.desktop").is_none());
    assert!(parse_bool(" YES "));
    assert!(parse_bool("1"));
    assert!(!parse_bool("no"));
}

#[test]
fn exec_lines_and_icons() {
    assert_eq!(sanitize_exec("firefox %u"), "firefox");
    assert_eq!(sanitize_exec("app --rate=100%% %F  --x"), "app --rate=100% --x");
    assert_eq!(sanitize_exec("trailing %"), "trailing");
    assert_eq!(candidate_icon_names(" firefox "), vec!["firefox".to_string()]);
    assert_eq!(
        candidate_icon_names("/usr/share/icons/app.png"),
        vec!["/usr/share/icons/app.png".to_string(), "app.png".to_string(), "app".to_string()]
    );
    let apps = vec![
        DesktopApp { id: "a.desktop".into(), name: "A".into(), exec_cmd: "a".into(), icon: None, icon_path: None, terminal: false },
        DesktopApp { id: "b.desktop".into(), name: "B".into(), exec_cmd: "b".into(), icon: None, icon_path: None, terminal: true },
    ];
    assert_eq!(find_desktop_app(&apps, "b.desktop"), Ok(1));
    assert_eq!(find_desktop_app(&apps, "c.desktop"), Err("Desktop app not found: c.desktop".to_string()));
}

#[test]
fn results_are_listed_largest_first() {
    assert_eq!(largest_first(&[5, 100, 5, 7, 100]), vec![1, 4, 3, 0, 2]);
    assert_eq!(largest_first(&[]), Vec::<usize>::new());
    assert_eq!(largest_first(&[1, 1, 1]), vec![0, 1, 2]);
}

#[test]
fn review_requests() {
    let signals = ReviewSignals {
        has_git: true,
        has_package_json: true,
        has_cargo_toml: false,
        has_python_marker: false,
        has_hidden_segment: has_hidden_segment("dev/.hidden/node_modules"),
    };
    assert_eq!(
        review_cache_key("dev/.hidden/node_modules", ExcludeCategory::BuildArtifact, "npm", signals),
        "dev/.hidden/node_modules|BuildArtifact|npm|true|true|false|false|true"
    );
    assert!(!has_hidden_segment("dev/app/node_modules"));
    let preamble = "Return ONLY one JSON object with EXACT keys: downgrade (boolean), confidence (number 0..1 = how sure path is SAFE to delete), note (string). No markdown, no code fences, no explanations.";
    assert_eq!(review_prompt("{}"), format!("{preamble}\n{{}}"));
    assert_eq!(
        repair_prompt("oops"),
        format!("{preamble}\nTransform this into valid JSON with exactly the required keys and valid types.\nINPUT:\noops")
    );
}

#[test]
fn delete_guard_refuses_escapes_and_resolved_protected_paths() {
    let outside = Some("Pfad liegt außerhalb des Home-Verzeichnisses");
    let protected = Some("Geschützter Pfad — darf nicht gelöscht werden");
    assert_eq!(delete_guard("/etc/x", false).as_deref(), outside);
    assert_eq!(delete_guard("a/../../etc", false).as_deref(), outside);
    assert_eq!(delete_guard("./.ssh", false).as_deref(), protected);
    assert_eq!(delete_guard(".//.gnupg/private-keys-v1.d", false).as_deref(), protected);
    assert_eq!(delete_guard("./.config/", false).as_deref(), protected);
    assert_eq!(delete_guard(".", false).as_deref(), protected);
    assert_eq!(delete_guard("./", false).as_deref(), protected);
    assert_eq!(delete_guard("", false).as_deref(), protected);
    assert_eq!(delete_guard("./projects/target", false), None);
    assert_eq!(delete_guard(".config/./app", false), None);
}
