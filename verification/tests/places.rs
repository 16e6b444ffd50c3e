use atlas::numbers::{parse_i32, parse_unsigned};
use atlas::paths::{
    appdata_config, bundled_python, config_path, has_content, kit_script, packs_root, progress_path,
    python_exe, repo_root, shared_dir, venv_python, Location, Python, Root,
};
use atlas::progress::PlayerProgress;

fn is(l: &Location, root: Root, parts: &[&str]) -> bool {
    l.root == root && l.parts.iter().map(|s| s.as_str()).eq(parts.iter().copied())
}

#[test]
fn content_wins_over_an_empty_directory() {
    assert!(is(&packs_root(true, true, true, true), Root::Exe, &["packs"]));
    assert!(is(&packs_root(false, true, true, true), Root::Relative, &["packs"]));
    assert!(is(&packs_root(false, false, true, true), Root::Exe, &["packs"]));
    assert!(is(&packs_root(false, false, false, true), Root::Relative, &["packs"]));
    assert!(is(&packs_root(false, false, false, false), Root::Exe, &["packs"]));
}

#[test]
fn a_texture_cache_is_no_content() {
    let names = vec!["shared".to_string(), ".eftpack".to_string()];
    assert!(!has_content(false, false, &names));
    assert!(has_content(true, false, &names));
    assert!(has_content(false, true, &names));
    assert!(has_content(false, false, &vec!["bigmap.eftpack".to_string()]));
}

#[test]
fn an_existing_configuration_is_found() {
    let beside = ["atlas.config.json"];
    let user = ["atlas", "atlas.config.json"];
    assert!(is(&config_path(true, true, true, true), Root::AppData, &user));
    assert!(is(&config_path(true, false, true, true), Root::Exe, &beside));
    assert!(is(&config_path(true, false, false, true), Root::Relative, &beside));
    assert!(is(&config_path(true, false, false, false), Root::AppData, &user));
    assert!(is(&config_path(false, false, false, false), Root::Exe, &beside));
    assert!(appdata_config(false).is_none());
    assert!(is(&appdata_config(true).unwrap(), Root::AppData, &user));
}

#[test]
fn fixed_places() {
    assert!(is(&shared_dir(), Root::Packs, &["shared"]));
    assert!(is(&progress_path(true), Root::AppData, &["atlas", "progress.json"]));
    assert!(is(&progress_path(false), Root::Exe, &["atlas", "progress.json"]));
    assert!(is(&kit_script(Root::WorkingDir), Root::WorkingDir, &["tools", "build_map.py"]));
    assert!(is(&bundled_python(), Root::Kit, &["python", "python.exe"]));
    assert!(is(&venv_python(), Root::Kit, &["venv", "Scripts", "python.exe"]));
}

#[test]
fn the_kit_is_looked_for_in_turn() {
    assert_eq!(repo_root(Some(true), true), Some(Root::WorkingDir));
    assert_eq!(repo_root(Some(false), true), Some(Root::Exe));
    assert_eq!(repo_root(None, true), Some(Root::Exe));
    assert_eq!(repo_root(None, false), None);
}

#[test]
fn python_is_looked_for_in_turn() {
    assert!(matches!(python_exe(Some("py"), true, true), Python::Given(p) if p == "py"));
    assert!(matches!(python_exe(Some(""), true, true), Python::At(l) if is(&l, Root::Kit, &["python", "python.exe"])));
    assert!(matches!(python_exe(None, false, true), Python::At(l) if l.parts.len() == 3));
    assert!(matches!(python_exe(None, false, false), Python::OnPath));
}

#[test]
fn keys_are_owned_in_any_case() {
    let mut p = PlayerProgress::new();
    assert!(!p.owns_key("Dorm room 314"));
    p.owned_keys.push(" DORM Room 314 ".to_string());
    p.owned_keys.push("ÜBERKEY".to_string());
    assert!(p.owns_key("dorm room 314"));
    assert!(p.owns_key("  überkey"));
    assert!(!p.owns_key("dorm room 315"));
}

#[test]
fn progress_is_not_saved_before_it_was_read() {
    let mut p = PlayerProgress::new();
    assert!(!p.save_progress(true));
    assert!(p.load_progress(None).is_none());
    assert!(p.save_progress(true));
    assert!(!p.save_progress(false));
    let saved = PlayerProgress {
        tracked_tasks: vec!["a".to_string()],
        done: vec!["b".to_string()],
        owned_keys: vec![],
        loaded: false,
    };
    let active = p.load_progress(Some(saved)).unwrap();
    assert_eq!(active, vec!["a".to_string()]);
    assert_eq!(p.tracked_tasks, active);
    assert_eq!(p.done, vec!["b".to_string()]);
    assert!(p.loaded);
}

#[test]
fn numbers_are_read_as_written() {
    assert_eq!(parse_unsigned("0042"), Some(42));
    assert_eq!(parse_unsigned("+7"), Some(7));
    assert_eq!(parse_unsigned(""), None);
    assert_eq!(parse_unsigned("-1"), None);
    assert_eq!(parse_unsigned("4x"), None);
    assert_eq!(parse_unsigned("18446744073709551615"), Some(u64::MAX));
    assert_eq!(parse_unsigned("18446744073709551616"), None);
    assert_eq!(parse_i32("-2147483648"), Some(i32::MIN));
    assert_eq!(parse_i32("2147483648"), None);
    assert_eq!(parse_i32("-"), None);
}
