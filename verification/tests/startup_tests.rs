use doyo_core::attachment::{attachment_location, new_attachment};
use doyo_core::db::{pending_migrations, LATEST_SCHEMA_VERSION};
use doyo_core::error::Error;
use doyo_core::plugin::{
    lists_permission, nodes_api_functions, ui_api_functions, ListenerIds, PluginManager,
    PluginManifest, PluginRegistry, PluginStore,
};
use doyo_core::startup::{
    all_recovery_candidates, check_migrated_version, is_database_file, judge_open,
    legacy_data_sources, migration_backup_name, needs_upgrade_backup, order_candidates,
    pick_legacy_source, quarantine_name, recovery_candidate, skip_when_copying, startup_report,
    upgrade_backup_label, validate_sqlite_database, OpenProbe, RecoveryCandidate, SqliteProbe,
    StartupReport, StartupStatus, startup_step, StartupAction, StartupEvent, StartupStage,
};
use doyo_core::startup::{
    check_recovery_name, check_recovery_within, checkpoint_verdict, recovery_source, restore_outcome,
    with_legacy_error, RecoverySource,
};

fn candidate(name: &str, source: &str) -> RecoveryCandidate {
    RecoveryCandidate {
        name: name.into(),
        source: source.into(),
        schema_version: 6,
        size_bytes: 10,
        modified_at: None,
    }
}

#[test]
fn startup_reports_say_how_the_database_came_up() {
    let healthy = StartupReport::healthy();
    assert_eq!(healthy.status, StartupStatus::Healthy);
    assert!(healthy.summary.is_none() && healthy.recovery_candidates.is_empty());
    let ok = startup_report(Ok(()), Some("q".into()), Err("x".into()), vec![candidate("a.db", "backup")]);
    assert_eq!(ok.status, StartupStatus::Healthy);
    let recovered = startup_report(
        Err("corrupt".into()),
        Some("/q/doyo-unopenable.db".into()),
        Ok(()),
        vec![candidate("a.db", "backup")],
    );
    assert_eq!(recovered.status, StartupStatus::Recovered);
    assert_eq!(
        recovered.summary.as_deref(),
        Some("Doyo could not open your database, so it started with an empty one.")
    );
    assert_eq!(recovered.detail.as_deref(), Some("corrupt"));
    assert_eq!(recovered.recovery_candidates.len(), 1);
    let ephemeral = startup_report(Err("corrupt".into()), None, Err("read-only".into()), vec![]);
    assert_eq!(ephemeral.status, StartupStatus::Ephemeral);
    assert_eq!(ephemeral.detail.as_deref(), Some("corrupt; read-only"));
    assert_eq!(
        ephemeral.summary.as_deref(),
        Some("Doyo cannot write to its data folder. Changes will not be saved.")
    );
}

#[test]
fn databases_are_judged_before_use() {
    let probe = SqliteProbe { open_error: None, integrity: Ok("ok".into()), version: Ok(5) };
    assert_eq!(validate_sqlite_database("/d/doyo.db", &probe), Ok(5));
    let broken = SqliteProbe { open_error: None, integrity: Ok("bad page".into()), version: Ok(5) };
    assert_eq!(
        validate_sqlite_database("/d/doyo.db", &broken),
        Err("database integrity check failed for /d/doyo.db: bad page".to_string())
    );
    let closed = SqliteProbe { open_error: Some("denied".into()), integrity: Ok("ok".into()), version: Ok(1) };
    assert_eq!(
        validate_sqlite_database("/d/doyo.db", &closed),
        Err("failed to open database /d/doyo.db: denied".to_string())
    );
    let no_version = SqliteProbe { open_error: None, integrity: Err("io".into()), version: Ok(1) };
    assert_eq!(
        validate_sqlite_database("/d/doyo.db", &no_version),
        Err("failed integrity check for /d/doyo.db: io".to_string())
    );
    let open = OpenProbe { open_error: None, integrity: Ok("ok".into()), migrate_error: Some("locked".into()) };
    assert_eq!(judge_open("/d/doyo.db", &open), Err("could not migrate schema: locked".to_string()));
    let fine = OpenProbe { open_error: None, integrity: Ok("ok".into()), migrate_error: None };
    assert_eq!(judge_open("/d/doyo.db", &fine), Ok(()));
}

#[test]
fn upgrades_and_legacy_data_are_planned() {
    assert!(needs_upgrade_backup(true, 3));
    assert!(!needs_upgrade_backup(true, 0));
    assert!(!needs_upgrade_backup(true, LATEST_SCHEMA_VERSION));
    assert!(!needs_upgrade_backup(false, 3));
    assert_eq!(upgrade_backup_label(3), "schema-v3");
    assert_eq!(
        migration_backup_name("legacy-doyo", "2026-07-29-080000", "u"),
        "pre-doyo-migration-legacy-doyo-2026-07-29-080000-u.db"
    );
    assert_eq!(quarantine_name("2026-07-29-080000"), "doyo-unopenable-2026-07-29-080000.db");
    let sources = legacy_data_sources();
    assert_eq!(sources[0].app_dir_name, "io.github.sembee.doyo");
    assert_eq!(sources[1].db_name, "todoapp.db");
    assert_eq!(pick_legacy_source(&vec![false, true]), Some(1));
    assert_eq!(pick_legacy_source(&vec![true, true]), Some(0));
    assert_eq!(pick_legacy_source(&vec![false, false]), None);
    assert_eq!(check_migrated_version(4, 4), Ok(()));
    assert_eq!(
        check_migrated_version(4, 5),
        Err("legacy data migration schema mismatch: old version 4, new version 5".to_string())
    );
    assert!(skip_when_copying("doyo.db-wal", "doyo.db"));
    assert!(!skip_when_copying("notes.txt", "doyo.db"));
    let steps = pending_migrations(3);
    assert_eq!(steps.iter().map(|s| s.version).collect::<Vec<_>>(), vec![4, 5, 6]);
    assert_eq!(steps[0].description, "Add saved filters, habits, habit logs, and countdowns");
    assert_eq!(pending_migrations(0).len(), 6);
    assert!(pending_migrations(6).is_empty());
}

#[test]
fn recovery_candidates_are_newest_first() {
    assert!(is_database_file("/b/x.db"));
    assert!(!is_database_file("/b/x.txt"));
    assert!(recovery_candidate("x.db".into(), "backup", Err(Error::NothingToUndo), 1, None).is_none());
    let c = recovery_candidate("x.db".into(), "backup", Ok(6), 1, None).unwrap();
    assert_eq!(c.schema_version, 6);
    let ordered = order_candidates(vec![
        (10, candidate("old.db", "backup")),
        (30, candidate("new.db", "backup")),
        (10, candidate("old2.db", "backup")),
        (20, candidate("mid.db", "backup")),
    ]);
    let names: Vec<&str> = ordered.iter().map(|c| c.name.as_str()).collect();
    assert_eq!(names, vec!["new.db", "mid.db", "old.db", "old2.db"]);
    let all = all_recovery_candidates(vec![candidate("a.db", "backup")], vec![candidate("m.db", "migrationBackup")]);
    assert_eq!(all[1].source, "migrationBackup");
}

#[test]
fn attachments_stay_inside_their_node_directory() {
    assert!(attachment_location("/att", "../node", "safe.txt").is_err());
    assert!(attachment_location("/att", "node", "../escape.txt").is_err());
    assert!(attachment_location("/att", "node", "/etc/passwd").is_err());
    let (dir, path) = attachment_location("/att", "node", "safe.txt").unwrap();
    assert_eq!(dir, "/att/node");
    assert_eq!(path, "/att/node/safe.txt");
    let a = new_attachment("id".into(), "node", "safe.txt", "text/plain", 2, path, "now".into());
    assert_eq!(a.size_bytes, 2);
}

#[test]
fn plugins_without_runtime_are_refused() {
    let manager = PluginManager::new();
    let manifest = PluginManifest {
        id: "p".into(),
        name: "P".into(),
        version: "1".into(),
        min_api_version: 1,
        author: "a".into(),
        description: "d".into(),
        permissions: vec!["nodes.read".into()],
        main: "main.js".into(),
    };
    match manager.load_plugin(&manifest, "") {
        Err(Error::InvalidOperation(m)) => {
            assert_eq!(m, "Plugin runtime not available. Rebuild with 'plugin-runtime' feature.")
        },
        other => panic!("unexpected {:?}", other),
    }
    assert!(manager.unload_plugin("p").is_ok());
    assert!(!manager.has_permission("p", "nodes.read"));
    assert_eq!(manager.plugin_count(), 0);
    let mut registry = PluginRegistry::new();
    registry.grant("p".into(), vec!["nodes.read".into()]);
    registry.grant("p".into(), vec!["ui.toast".into()]);
    assert_eq!(registry.plugin_count(), 1);
    assert!(registry.has_permission("p", "ui.toast"));
    assert!(!registry.has_permission("p", "nodes.read"));
    registry.revoke("p");
    assert!(!registry.has_permission("p", "ui.toast"));
    assert_eq!(registry.plugin_count(), 0);
}

#[test]
fn restores_report_their_snapshot_and_activation() {
    let ok = restore_outcome(Some("/data/backups/doyo-pre-restore-1.db".to_string()), Ok(()));
    assert_eq!(ok.snapshot_name.as_deref(), Some("doyo-pre-restore-1.db"));
    assert!(ok.activated);
    assert!(ok.activation_error.is_none());

    let failed = restore_outcome(None, Err("restored database could not be opened".to_string()));
    assert!(failed.snapshot_name.is_none());
    assert!(!failed.activated);
    assert_eq!(failed.activation_error.as_deref(), Some("restored database could not be opened"));
}

#[test]
fn busy_checkpoints_block_copies() {
    assert!(checkpoint_verdict(0).is_ok());
    assert_eq!(
        checkpoint_verdict(1).unwrap_err(),
        "Database is busy and could not be fully checkpointed. Close other Doyo activity and try again."
    );
}

#[test]
fn recovery_reads_only_its_two_directories() {
    assert_eq!(recovery_source("backup"), Ok(RecoverySource::Backup));
    assert_eq!(recovery_source("migrationBackup"), Ok(RecoverySource::MigrationBackup));
    assert_eq!(recovery_source("elsewhere"), Err("Unknown recovery source: elsewhere".to_string()));

    assert!(check_recovery_name("doyo-backup-1.db").is_ok());
    assert_eq!(
        check_recovery_name("../doyo.db").unwrap_err(),
        "Recovery filename must not contain path separators"
    );
    assert!(check_recovery_within("/data/backups/a.db", "/data/backups").is_ok());
    assert_eq!(
        check_recovery_within("/data/doyo.db", "/data/backups").unwrap_err(),
        "Recovery path escapes its directory"
    );
}

#[test]
fn plugins_get_the_functions_their_permissions_allow() {
    let perms = vec!["node:read".to_string(), "ui:register-view".to_string()];
    assert!(lists_permission(&perms, "node:read"));
    assert!(!lists_permission(&perms, "node:write"));
    assert_eq!(nodes_api_functions(&perms), vec!["get", "getChildren"]);
    assert_eq!(ui_api_functions(&perms), vec!["registerView", "navigateToNode", "showNotification"]);

    let writer = vec!["node:write".to_string(), "ui:register-command".to_string()];
    assert_eq!(nodes_api_functions(&writer), vec!["create", "update"]);
    assert_eq!(ui_api_functions(&writer), vec!["registerCommand", "navigateToNode", "showNotification"]);
    assert!(nodes_api_functions(&Vec::new()).is_empty());
}

#[test]
fn listeners_are_numbered_in_turn() {
    let mut ids = ListenerIds::new();
    assert_eq!(ids.register(), "listener-0");
    assert_eq!(ids.register(), "listener-1");
    ids.next = 41;
    assert_eq!(ids.register(), "listener-41");
    assert_eq!(ids.next, 42);
}

#[test]
fn plugin_storage_reads_back_what_was_written() {
    let mut store = PluginStore::new();
    assert_eq!(store.get("theme"), None);
    store.set("theme".to_string(), "dark".to_string());
    store.set("count".to_string(), "1".to_string());
    assert_eq!(store.get("theme").as_deref(), Some("dark"));
    store.set("theme".to_string(), "light".to_string());
    assert_eq!(store.get("theme").as_deref(), Some("light"));
    assert_eq!(store.get("count").as_deref(), Some("1"));
    assert_eq!(store.entries.len(), 2);
}

#[test]
fn legacy_import_failures_join_the_startup_detail() {
    let healthy = with_legacy_error(StartupReport::healthy(), Some("no space".to_string()));
    assert_eq!(healthy.status, StartupStatus::Healthy);
    assert_eq!(healthy.detail.as_deref(), Some("legacy import failed: no space"));

    let recovered = startup_report(Err("corrupt".to_string()), None, Ok(()), Vec::new());
    let both = with_legacy_error(recovered, Some("locked".to_string()));
    assert_eq!(both.status, StartupStatus::Recovered);
    assert_eq!(both.detail.as_deref(), Some("corrupt; legacy import failed: locked"));

    let untouched = with_legacy_error(StartupReport::healthy(), None);
    assert!(untouched.detail.is_none());
}

#[test]
fn startup_steps_recover_or_fall_back_to_memory() {
    let (stage, action) = startup_step(StartupStage::Start, StartupEvent::Opened(Ok(())));
    assert!(matches!(stage, StartupStage::Done));
    assert_eq!(action, StartupAction::Finish { first: Ok(()), quarantined: None, second: Ok(()), in_memory: false });

    let (stage, action) = startup_step(StartupStage::Start, StartupEvent::Opened(Err("bad".into())));
    assert_eq!(action, StartupAction::CheckFile);
    let (stage, action) = startup_step(stage, StartupEvent::FileThere(true));
    assert_eq!(action, StartupAction::SetAside);
    let (stage, action) = startup_step(stage, StartupEvent::SetAside(Ok("q/doyo.db".into())));
    assert_eq!(action, StartupAction::Open);
    let (stage, action) = startup_step(stage, StartupEvent::Opened(Err("again".into())));
    assert!(matches!(stage, StartupStage::Done));
    assert_eq!(
        action,
        StartupAction::Finish {
            first: Err("bad".into()),
            quarantined: Some("q/doyo.db".into()),
            second: Err("again".into()),
            in_memory: true,
        }
    );
}

#[test]
fn startup_without_a_file_opens_a_fresh_one() {
    let (stage, _) = startup_step(StartupStage::Start, StartupEvent::Opened(Err("bad".into())));
    let (stage, action) = startup_step(stage, StartupEvent::FileThere(false));
    assert_eq!(action, StartupAction::Open);
    let (_, action) = startup_step(stage, StartupEvent::Opened(Ok(())));
    assert_eq!(
        action,
        StartupAction::Finish { first: Err("bad".into()), quarantined: None, second: Ok(()), in_memory: false }
    );
    let (_, action) = startup_step(StartupStage::Done, StartupEvent::FileThere(true));
    assert_eq!(action, StartupAction::Ignore);
}
