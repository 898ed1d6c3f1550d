use coolcooler::names::{
    folder_name_candidate, is_safe_path_segment, is_valid_preset_folder, sanitize_folder_name,
    validate_name,
    PresetAsset, PresetFolder,
};
use coolcooler::presets::{
    background_file_name, background_for_load, background_to_save, failure_message,
    folder_for_save, forget_last_used_if, last_used_folder, loaded_message, preset_listing, presets_dir,
    preset_load_step, saved_message, PresetCandidate, PresetEntry, PresetLoadStep, PresetOp,
    PresetState,
};
use coolcooler::save::{
    after_backing_up, after_moving_into_place, after_writing, FolderNameSearch, SaveStep,
};
use coolcooler::recovery::{
    backup_dir_name, internal_folder_parts, plan_recovery, staging_dir_name, InternalPresetKind,
    PresetDirEntry,
};

#[test]
fn preset_listing_hides_hidden_and_internal_folders() {
    assert!(!is_valid_preset_folder(".demo.staging.123"));
    assert!(!is_valid_preset_folder(".demo.backup.123"));
    assert!(!is_valid_preset_folder(".hidden"));
    assert!(is_valid_preset_folder("demo"));
}

#[test]
fn internal_folder_names_map_back_to_live_folder() {
    assert_eq!(
        internal_folder_parts(".demo.staging.123").map(|(folder, _)| folder),
        Some("demo".to_string())
    );
    assert_eq!(
        internal_folder_parts(".demo.backup.123").map(|(folder, _)| folder),
        Some("demo".to_string())
    );
    assert_eq!(internal_folder_parts("demo"), None);
}

#[test]
fn preset_folder_rejects_path_like_names() {
    assert!(PresetFolder::parse("demo").is_some());
    assert!(PresetFolder::parse("nested/demo").is_none());
    assert!(PresetFolder::parse("../demo").is_none());
    assert!(PresetFolder::parse("demo\\backup").is_none());
    assert!(PresetFolder::parse(".hidden").is_none());
    assert!(PresetFolder::parse(".demo.staging.1").is_none());
}

#[test]
fn preset_asset_rejects_path_like_names() {
    assert!(PresetAsset::parse("background.png").is_some());
    assert!(PresetAsset::parse("../background.png").is_none());
    assert!(PresetAsset::parse("nested/background.png").is_none());
    assert!(PresetAsset::parse(".secret").is_none());
}

fn dir(name: &str, has_config: bool) -> PresetDirEntry {
    PresetDirEntry { name: name.to_string(), is_dir: true, has_config }
}

#[test]
fn recovery_plan_prefers_staging_over_backup_when_live_folder_is_missing() {
    let entries = vec![dir(".demo.backup.1", true), dir(".demo.staging.2", true)];
    let plan = plan_recovery(&entries);
    assert_eq!(plan.len(), 1);
    assert_eq!(plan[0].live, "demo");
    assert_eq!(plan[0].members, vec![0, 1]);
    assert_eq!(plan[0].restore, Some(1));
}

#[test]
fn recovery_plan_removes_leftovers_of_a_valid_live_folder() {
    let entries = vec![
        dir("demo", true),
        dir(".demo.staging.9", true),
        dir(".other.backup.3", false),
        PresetDirEntry { name: ".file.backup.1".to_string(), is_dir: false, has_config: false },
    ];
    let plan = plan_recovery(&entries);
    assert_eq!(plan.len(), 2);
    let demo = plan.iter().find(|g| g.live == "demo").unwrap();
    assert_eq!(demo.members, vec![1]);
    assert_eq!(demo.restore, None);
    let other = plan.iter().find(|g| g.live == "other").unwrap();
    assert_eq!(other.members, vec![2]);
    assert_eq!(other.restore, None);
}

#[test]
fn internal_names_round_trip() {
    let staging = staging_dir_name("demo", "12.34");
    let backup = backup_dir_name("demo", "12.34");
    assert_eq!(staging, ".demo.staging.12.34");
    assert_eq!(backup, ".demo.backup.12.34");
    assert_eq!(
        internal_folder_parts(&staging),
        Some(("demo".to_string(), InternalPresetKind::Staging))
    );
    assert_eq!(
        internal_folder_parts(&backup),
        Some(("demo".to_string(), InternalPresetKind::Backup))
    );
    assert!(InternalPresetKind::Staging.recovery_priority() > InternalPresetKind::Backup.recovery_priority());
}

fn candidate(name: &str, config_name: Option<&str>) -> PresetCandidate<String> {
    PresetCandidate {
        file_name: Some(name.to_string()),
        is_dir: true,
        has_config: true,
        config_name: config_name.map(|s| s.to_string()),
        preview_path: Some(format!("{name}/preview.png")),
    }
}

#[test]
fn listing_keeps_valid_presets_sorted_by_name() {
    let mut not_dir = candidate("file", None);
    not_dir.is_dir = false;
    let mut no_config = candidate("empty", None);
    no_config.has_config = false;
    let candidates = vec![
        candidate("zeta", Some("zeta")),
        candidate(".demo.staging.1", Some("Hidden")),
        candidate("b", Some("Beta")),
        not_dir,
        no_config,
        candidate("alpha", None),
        candidate("c", Some("gamma")),
    ];
    let entries: Vec<PresetEntry<String>> = preset_listing(candidates);
    let names: Vec<&str> = entries.iter().map(|e| e.name.as_str()).collect();
    assert_eq!(names, vec!["alpha", "Beta", "gamma", "zeta"]);
    let folders: Vec<&str> = entries.iter().map(|e| e.folder.as_str()).collect();
    assert_eq!(folders, vec!["alpha", "b", "c", "zeta"]);
    assert_eq!(entries[1].preview_path.as_deref(), Some("b/preview.png"));
}

#[test]
fn double_click_needs_same_folder_within_400_ms() {
    let mut state: PresetState<String> = PresetState::new();
    let demo = PresetFolder::parse("demo").unwrap();
    let other = PresetFolder::parse("other").unwrap();
    assert!(!state.register_click(demo.clone(), 1000));
    assert!(!state.register_click(other.clone(), 1100));
    assert!(!state.register_click(demo.clone(), 1200));
    assert!(state.register_click(demo.clone(), 1599));
    assert!(!state.register_click(demo.clone(), 1700));
    assert!(!state.register_click(demo.clone(), 2100));
    state.show_load_dialog = true;
    assert!(state.preset_clicked(demo.clone(), 2200).is_some());
    assert!(!state.show_load_dialog);
}

#[test]
fn save_request_reuses_the_current_preset() {
    let mut state: PresetState<String> = PresetState::new();
    state.save_name_input = "typed".to_string();
    assert!(state.save_requested().is_none());
    assert!(state.show_save_dialog);
    assert_eq!(state.save_name_input, "");
    state.save_name_input = "  My Preset ".to_string();
    assert_eq!(state.name_to_save(), Ok("My Preset".to_string()));
    state.saved(PresetFolder::parse("my-preset").unwrap(), "My Preset".to_string());
    assert!(state.has_current());
    assert!(!state.show_save_dialog);
    let (folder, name) = state.save_requested().unwrap();
    assert_eq!(folder.as_str(), "my-preset");
    assert_eq!(name, "My Preset");
    state.save_name_input = "   ".to_string();
    assert_eq!(state.name_to_save(), Err("Name cannot be empty"));
}

#[test]
fn deleting_the_current_preset_forgets_it() {
    let mut state: PresetState<String> = PresetState::new();
    let demo = PresetFolder::parse("demo").unwrap();
    state.saved(demo.clone(), "Demo".to_string());
    assert!(!state.deleted(&PresetFolder::parse("other").unwrap(), Vec::new()));
    assert!(state.has_current());
    assert!(state.deleted(&demo, Vec::new()));
    assert!(!state.has_current());
    assert!(forget_last_used_if(Some(&demo), &demo));
    assert!(!forget_last_used_if(None, &demo));
}

#[test]
fn name_validation_errors() {
    assert_eq!(validate_name("My Preset"), Ok(()));
    assert_eq!(validate_name("   "), Err("Name cannot be empty"));
    assert_eq!(validate_name(&"x".repeat(65)), Err("Name too long (max 64 characters)"));
    assert_eq!(validate_name("!!!"), Err("Name must contain at least one letter or number"));
    assert_eq!(validate_name(&"é".repeat(33)), Err("Name too long (max 64 characters)"));
}

#[test]
fn folder_names_are_sanitized() {
    assert_eq!(sanitize_folder_name("My Cool Preset!"), "my-cool-preset");
    assert_eq!(sanitize_folder_name("__Hello World__"), "hello-world");
    assert_eq!(sanitize_folder_name("Ünïcode"), "n_code");
    assert_eq!(folder_name_candidate("demo", 1), "demo");
    assert_eq!(folder_name_candidate("demo", 3), "demo-3");
}

#[test]
fn background_checks_before_saving_and_loading() {
    assert!(matches!(background_to_save(None, false, false), Ok(None)));
    assert_eq!(
        background_to_save(Some("background.png"), false, true).err(),
        Some("Preset has a background but no source image path")
    );
    assert_eq!(
        background_to_save(Some("background.png"), true, false).err(),
        Some("Background source file no longer exists")
    );
    assert_eq!(
        background_to_save(Some("../x.png"), true, true).err(),
        Some("Background file name is not safe")
    );
    let asset = background_to_save(Some("background.gif"), true, true).unwrap().unwrap();
    assert_eq!(asset.as_str(), "background.gif");
    assert_eq!(
        background_for_load("/etc/passwd").err(),
        Some("Preset background file name is not safe")
    );
    assert_eq!(background_for_load("background.png").unwrap().as_str(), "background.png");
    assert_eq!(background_file_name(Some("gif")), "background.gif");
    assert_eq!(background_file_name(None), "background.png");
}

#[test]
fn save_folder_is_the_override_or_a_valid_new_name() {
    let demo = PresetFolder::parse("demo").unwrap();
    assert_eq!(folder_for_save(Some(&demo), "ignored/").unwrap().as_str(), "demo");
    assert_eq!(folder_for_save(None, "new-one").unwrap().as_str(), "new-one");
    assert_eq!(folder_for_save(None, "").err(), Some("Preset folder name is not safe"));
}

#[test]
fn preset_messages() {
    assert_eq!(loaded_message("Demo", 0), "Loaded preset 'Demo'");
    assert_eq!(
        loaded_message("Demo", 12),
        "Loaded preset 'Demo' (12 incompatible widget(s) skipped)"
    );
    assert_eq!(saved_message("Demo"), "Preset 'Demo' saved");
    assert_eq!(failure_message(PresetOp::Load, "gone"), "Load failed: gone");
    assert_eq!(failure_message(PresetOp::Save, "full"), "Save failed: full");
    assert_eq!(failure_message(PresetOp::Delete, "busy"), "Delete failed: busy");
}

#[test]
fn presets_dir_follows_the_environment() {
    assert_eq!(
        presets_dir(Some("/data"), Some("/home/u"), Some("/cwd")),
        vec!["/data", "coolcooler", "presets"]
    );
    assert_eq!(
        presets_dir(Some(""), Some("/home/u"), Some("/cwd")),
        vec!["/home/u", ".local", "share", "coolcooler", "presets"]
    );
    assert_eq!(presets_dir(None, Some(""), Some("/cwd")), vec!["/cwd", "coolcooler", "presets"]);
    assert_eq!(presets_dir(None, None, None), vec![".", "coolcooler", "presets"]);
}

#[test]
fn load_dialog_shows_the_listed_presets() {
    let mut state: PresetState<String> = PresetState::new();
    let listed = preset_listing(vec![PresetCandidate {
        file_name: Some("demo".to_string()),
        is_dir: true,
        has_config: true,
        config_name: Some("Demo".to_string()),
        preview_path: None,
    }]);
    state.open_load_dialog(listed);
    assert!(state.show_load_dialog);
    assert!(!state.show_save_dialog);
    assert_eq!(state.list.len(), 1);
    assert_eq!(state.list[0].name, "Demo");
}

#[test]
fn safe_path_segments() {
    assert!(is_safe_path_segment("demo"));
    assert!(is_safe_path_segment(".staging-demo"));
    assert!(!is_safe_path_segment(""));
    assert!(!is_safe_path_segment("."));
    assert!(!is_safe_path_segment(".."));
    assert!(!is_safe_path_segment("a/b"));
    assert!(!is_safe_path_segment("a\\b"));
    assert!(!is_safe_path_segment("a\0b"));
}

#[test]
fn preset_load_steps() {
    let step = preset_load_step::<String>(Err("bad json".to_string()), false);
    assert!(matches!(step, PresetLoadStep::Failed { message: Some(m) } if m == "Load failed: bad json"));
    let step = preset_load_step::<String>(Err("bad json".to_string()), true);
    assert!(matches!(step, PresetLoadStep::Failed { message: None }));
    let step = preset_load_step(Ok(Some(("bg.png".to_string(), false))), false);
    assert!(
        matches!(step, PresetLoadStep::Failed { message: Some(m) } if m == "Load failed: background file missing")
    );
    let step = preset_load_step(Ok(Some(("bg.png".to_string(), true))), false);
    assert!(
        matches!(step, PresetLoadStep::LoadBackground { path, status: Some(s) } if path == "bg.png" && s == "Loading preset...")
    );
    let step = preset_load_step(Ok(Some(("bg.png".to_string(), true))), true);
    assert!(matches!(step, PresetLoadStep::LoadBackground { status: None, .. }));
    let step = preset_load_step::<String>(Ok(None), false);
    assert!(matches!(step, PresetLoadStep::ApplyWithoutBackground));
}

#[test]
fn loaded_preset_becomes_current_with_its_status() {
    let mut state: PresetState<String> = PresetState::new();
    let demo = PresetFolder::parse("demo").unwrap();
    let status = state.loaded(demo.clone(), "Demo".to_string(), 2, false, false);
    assert_eq!(status.as_deref(), Some("Loaded preset 'Demo' (2 incompatible widget(s) skipped)"));
    assert!(state.has_current());
    assert_eq!(state.loaded(demo.clone(), "Demo".to_string(), 0, true, false), None);
    assert_eq!(
        state.loaded(demo, "Demo".to_string(), 0, true, true).as_deref(),
        Some("Loaded preset 'Demo'")
    );
}

#[test]
fn presets_with_the_same_name_keep_the_order_found() {
    let candidates = vec![
        candidate("second", Some("Demo")),
        candidate("first", Some("demo")),
        candidate("a", Some("Alpha")),
        candidate("third", Some("DEMO")),
    ];
    let entries: Vec<PresetEntry<String>> = preset_listing(candidates);
    let folders: Vec<&str> = entries.iter().map(|e| e.folder.as_str()).collect();
    assert_eq!(folders, vec!["a", "second", "first", "third"]);
}

#[test]
fn folder_name_search_tries_numbered_names() {
    let mut search = FolderNameSearch::new("My Preset");
    assert_eq!(search.candidate(), "my-preset");
    search.taken();
    assert_eq!(search.candidate(), "my-preset-2");
    search.taken();
    assert_eq!(search.candidate(), "my-preset-3");
}

#[test]
fn save_steps_back_up_install_and_roll_back() {
    assert_eq!(after_writing(Ok(()), true), SaveStep::BackUpLive);
    assert_eq!(after_writing(Ok(()), false), SaveStep::MoveStagedIntoPlace);
    assert_eq!(
        after_writing(Err("Failed to write preview: disk full".to_string()), true),
        SaveStep::Abandon("Failed to write preview: disk full".to_string())
    );
    assert_eq!(after_backing_up(Ok(())), SaveStep::MoveStagedIntoPlace);
    assert_eq!(
        after_backing_up(Err("busy".to_string())),
        SaveStep::Abandon("Failed to stage existing preset for replacement: busy".to_string())
    );
    assert_eq!(after_moving_into_place(Ok(()), true), SaveStep::RemoveBackupThenFinish);
    assert_eq!(after_moving_into_place(Ok(()), false), SaveStep::Finish);
    assert_eq!(
        after_moving_into_place(Err("denied".to_string()), true),
        SaveStep::RestoreBackupThenAbandon("Failed to install preset: denied".to_string())
    );
    assert_eq!(
        after_moving_into_place(Err("denied".to_string()), false),
        SaveStep::Abandon("Failed to install preset: denied".to_string())
    );
}

#[test]
fn last_used_folder_is_reopened_until_it_is_deleted() {
    let demo = PresetFolder::parse("demo").unwrap();
    let other = PresetFolder::parse("other").unwrap();
    assert_eq!(last_used_folder(Some(demo.clone()), true).map(|f| f.as_str().to_string()), Some("demo".to_string()));
    assert!(last_used_folder(Some(demo.clone()), false).is_none());
    assert!(last_used_folder(None, true).is_none());
    assert!(!forget_last_used_if(Some(&demo), &other));
    assert!(forget_last_used_if(Some(&demo), &demo));
}

#[test]
fn lowercase_text_lowercases_ascii_and_unicode() {
    assert_eq!(coolcooler::names::lowercase_text("My Preset-2"), "my preset-2");
    assert_eq!(coolcooler::names::lowercase_text("ÜNÏ"), "ünï");
}
