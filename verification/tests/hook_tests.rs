use rgbpc::hook::{
    get_restore_autostart_path, hook_dir_from_home, hook_path_from_home, install_hook,
    install_restore_autostart, legacy_hook_update, migrate_hook_if_needed, remove_hook,
    legacy_hook_path_from_home, remove_legacy_hook, remove_managed_block, remove_restore_autostart,
    FileOp, LegacyHookUpdate, HOOK_CONTENT, HOOK_MODE, RESTORE_AUTOSTART_CONTENT,
};

#[test]
fn uses_quattro_hook_directory() {
    assert!(hook_path_from_home("/home/test").ends_with(".config/omarchy/hooks/theme-set.d/rgbpc"));
}

#[test]
fn removes_only_rgbpc_managed_block() {
    let content = "#!/bin/bash\necho pre\n# >>> rgbpc sync hook >>>\nrgbpc --sync-theme &\n# <<< rgbpc sync hook <<<\necho post\n";
    let updated = remove_managed_block(content).unwrap();
    assert_eq!(updated, "#!/bin/bash\necho pre\necho post\n");
}

#[test]
fn returns_none_when_legacy_hook_is_not_owned_by_rgbpc() {
    assert_eq!(remove_managed_block("#!/bin/bash\necho custom\n"), None);
}

#[test]
fn restore_autostart_path_uses_xdg_autostart_dir() {
    let path = get_restore_autostart_path().unwrap();
    assert!(path.ends_with(".config/autostart/rgbpc-restore.desktop"));
}

#[test]
fn legacy_hook_with_only_the_block_is_removed_and_crlf_goes_with_it() {
    let only = "#!/bin/bash\n# >>> rgbpc sync hook >>>\r\nrgbpc --sync-theme &\n# <<< rgbpc sync hook <<<\r\n";
    assert_eq!(legacy_hook_update(only), LegacyHookUpdate::Remove);
    let shared = "#!/bin/bash\n# >>> rgbpc sync hook >>>\n# <<< rgbpc sync hook <<<\r\necho post";
    assert_eq!(legacy_hook_update(shared), LegacyHookUpdate::Rewrite("#!/bin/bash\necho post".to_string()));
    assert_eq!(legacy_hook_update("#!/bin/bash\necho custom\n"), LegacyHookUpdate::Keep);
    assert_eq!(hook_path_from_home("/home/test/"), "/home/test/.config/omarchy/hooks/theme-set.d/rgbpc");
}

#[test]
fn installs_an_executable_modular_hook() {
    let hook_path = hook_path_from_home("/home/test");
    assert_eq!(hook_dir_from_home("/home/test"), "/home/test/.config/omarchy/hooks/theme-set.d");
    assert_eq!(
        install_hook("/home/test", None),
        vec![
            FileOp::Write { path: hook_path.clone(), content: HOOK_CONTENT.to_string() },
            FileOp::MakeExecutable(hook_path.clone()),
        ]
    );
    assert_eq!(HOOK_MODE & 0o777, 0o755);
    assert_eq!(install_hook("/home/test", Some(HOOK_CONTENT)), vec![FileOp::MakeExecutable(hook_path)]);
}

#[test]
fn migration_preserves_unrelated_legacy_commands() {
    let legacy_path = legacy_hook_path_from_home("/home/test");
    let legacy = "#!/bin/bash\necho pre\n# >>> rgbpc sync hook >>>\nrgbpc --sync-theme &\n# <<< rgbpc sync hook <<<\necho post\n";
    assert!(migrate_hook_if_needed(None, 0, Some(legacy)));
    assert_eq!(
        remove_legacy_hook("/home/test", Some(legacy)),
        vec![FileOp::Write {
            path: legacy_path,
            content: "#!/bin/bash\necho pre\necho post\n".to_string()
        }]
    );
    let hook_path = hook_path_from_home("/home/test");
    assert!(install_hook("/home/test", None)
        .contains(&FileOp::Write { path: hook_path, content: HOOK_CONTENT.to_string() }));
}

#[test]
fn installation_does_not_rewrite_an_unowned_legacy_hook() {
    let original = "#!/bin/bash\n\n  echo custom  \n\n";
    assert!(remove_legacy_hook("/home/test", Some(original)).is_empty());
    assert!(remove_legacy_hook("/home/test", None).is_empty());
    let only = "#!/bin/bash\n# >>> rgbpc sync hook >>>\nrgbpc --sync-theme &\n# <<< rgbpc sync hook <<<\n";
    assert_eq!(
        remove_legacy_hook("/home/test", Some(only)),
        vec![FileOp::RemoveIfExists(legacy_hook_path_from_home("/home/test"))]
    );
}

#[test]
fn uninstall_removes_only_rgbpc_owned_hooks() {
    assert_eq!(
        remove_hook("/home/test"),
        vec![FileOp::RemoveIfExists("/home/test/.config/omarchy/hooks/theme-set.d/rgbpc".to_string())]
    );
    assert!(remove_legacy_hook("/home/test", Some("#!/bin/bash\necho custom\n")).is_empty());
}

#[test]
fn migration_is_needed_until_the_hook_is_current_and_the_legacy_block_is_gone() {
    let managed = "#!/bin/bash\n# >>> rgbpc sync hook >>>\n# <<< rgbpc sync hook <<<\n";
    assert!(migrate_hook_if_needed(None, 0, None));
    assert!(migrate_hook_if_needed(Some(HOOK_CONTENT), 0o644, None));
    assert!(migrate_hook_if_needed(Some("#!/bin/bash\n"), 0o755, None));
    assert!(migrate_hook_if_needed(Some(HOOK_CONTENT), 0o100755, Some(managed)));
    assert!(!migrate_hook_if_needed(Some(HOOK_CONTENT), 0o100755, Some("#!/bin/bash\necho custom\n")));
}

#[test]
fn autostart_plans_name_the_entry() {
    assert_eq!(
        install_restore_autostart("/home/test"),
        vec![
            FileOp::CreateDirAll("/home/test/.config/autostart".to_string()),
            FileOp::Write {
                path: "/home/test/.config/autostart/rgbpc-restore.desktop".to_string(),
                content: RESTORE_AUTOSTART_CONTENT.to_string(),
            },
        ]
    );
    assert_eq!(
        remove_restore_autostart("/home/test"),
        vec![FileOp::RemoveIfExists("/home/test/.config/autostart/rgbpc-restore.desktop".to_string())]
    );
}

#[test]
fn home_is_passed_on_or_its_absence_explained() {
    assert_eq!(rgbpc::hook::home_or_error(Some("/home/x".to_string())), Ok("/home/x".to_string()));
    assert_eq!(
        rgbpc::hook::home_or_error(None),
        Err("Could not determine the user home directory".to_string())
    );
}
