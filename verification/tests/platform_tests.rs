use chrono::Datelike;
use doyo_core::backup::{
    backup_file_name, backup_listing, backup_not_found, display_name, fresh_backup_name,
    sidecar_names, snapshot_file_name, staging_path, validate_backup_name,
    validate_restorable_database, BackupService, RestoreProbe, MAX_PRE_RESTORE_SNAPSHOTS,
    PRE_RESTORE_PREFIX,
};
use doyo_core::error::Error;
use doyo_core::habit::LAST_CHRONO_DAY;
use doyo_core::ids::new_id;
use doyo_core::paths::{components, plain_name, shape, ComponentKind, PathShape};
use doyo_core::time::{
    elapsed_since, format_stamp, now, parse_rfc3339, parse_utc, parse_utc_or_epoch, Timestamp,
    CHRONO_MAX_SECS, CHRONO_MIN_SECS,
};

fn message_of(e: Error) -> String {
    match e {
        Error::Validation(m) | Error::NotFound(m) => m,
        other => panic!("unexpected error {:?}", other),
    }
}

#[test]
fn chrono_limits_match_the_constants() {
    assert_eq!(chrono::DateTime::<chrono::Utc>::MIN_UTC.timestamp(), CHRONO_MIN_SECS);
    assert_eq!(chrono::DateTime::<chrono::Utc>::MAX_UTC.timestamp(), CHRONO_MAX_SECS);
    assert_eq!(chrono::NaiveDate::MAX.num_days_from_ce(), LAST_CHRONO_DAY);
}

#[test]
fn instants_are_read_from_text() {
    assert_eq!(
        parse_utc("2026-07-29T08:00:00Z"),
        Some(Timestamp { secs: 1_785_312_000, nanos: 0 })
    );
    assert_eq!(
        parse_rfc3339("2026-07-29T10:00:00.5+02:00"),
        Some(Timestamp { secs: 1_785_312_000, nanos: 500_000_000 })
    );
    assert_eq!(parse_utc("yesterday"), None);
    assert_eq!(parse_utc_or_epoch("yesterday"), Timestamp { secs: 0, nanos: 0 });
    let t = now();
    assert!(t.secs > 1_700_000_000);
}

#[test]
fn elapsed_time_is_whole_seconds_and_never_negative() {
    let start = Timestamp { secs: 100, nanos: 900_000_000 };
    assert_eq!(elapsed_since(Some(start), Timestamp { secs: 191, nanos: 0 }), 90);
    assert_eq!(elapsed_since(Some(start), Timestamp { secs: 50, nanos: 0 }), 0);
    assert_eq!(elapsed_since(None, Timestamp { secs: 50, nanos: 0 }), 0);
}

#[test]
fn stamps_and_ids_have_their_forms() {
    assert_eq!(format_stamp(Timestamp { secs: 0, nanos: 0 }), Some("1970-01-01-000000".to_string()));
    assert_eq!(format_stamp(Timestamp { secs: CHRONO_MAX_SECS + 1, nanos: 0 }), None);
    assert_eq!(format_stamp(Timestamp { secs: 10, nanos: 1_500_000_000 }), None);
    let id = new_id();
    assert_eq!(id.len(), 36);
    for (i, c) in id.chars().enumerate() {
        if [8, 13, 18, 23].contains(&i) {
            assert_eq!(c, '-');
        } else {
            assert!(c.is_ascii_hexdigit() && !c.is_ascii_uppercase());
        }
    }
    assert_ne!(new_id(), new_id());
}

#[test]
fn path_shapes_tell_plain_names_apart() {
    assert_eq!(shape("safe.db"), PathShape::SingleName);
    assert_eq!(shape(".."), PathShape::SingleOther);
    assert_eq!(shape("/"), PathShape::SingleOther);
    assert_eq!(shape("nested/safe.db"), PathShape::NotSingle);
    assert!(plain_name("safe.txt"));
    assert!(!plain_name("../node"));
    assert!(!plain_name("/tmp/x"));
}

#[test]
fn backup_names_must_be_plain_db_files() {
    assert!(validate_backup_name("safe.db").is_ok());
    assert_eq!(message_of(validate_backup_name("  ").unwrap_err()), "Backup filename is required");
    assert_eq!(
        message_of(validate_backup_name("/tmp/safe.db").unwrap_err()),
        "Backup filename must not be absolute"
    );
    assert_eq!(
        message_of(validate_backup_name("../safe.db").unwrap_err()),
        "Backup filename must not contain path separators"
    );
    assert_eq!(
        message_of(validate_backup_name("nested/safe.db").unwrap_err()),
        "Backup filename must not contain path separators"
    );
    assert_eq!(
        message_of(validate_backup_name("..").unwrap_err()),
        "Backup filename contains invalid path components"
    );
    assert_eq!(
        message_of(validate_backup_name("notes.txt").unwrap_err()),
        "Backup filename must end with .db"
    );
    assert_eq!(message_of(backup_not_found("x.db")), "Backup not found: x.db");
}

#[test]
fn backup_paths_stay_in_their_directory() {
    let service = BackupService::new("/data/doyo.db".into(), "/data/backups".into(), 2);
    assert_eq!(
        service.validated_backup_path("a.db", "/data/backups", "/data/backups/a.db").unwrap(),
        "/data/backups/a.db"
    );
    assert_eq!(
        message_of(
            service.validated_backup_path("a.db", "/data/backups", "/etc/a.db").unwrap_err()
        ),
        "Backup path escapes the backup directory"
    );
    assert!(service.validated_backup_path("../a.db", "/data/backups", "/data/a.db").is_err());
}

#[test]
fn prune_keeps_newest_of_each_budget() {
    let service = BackupService::new("db".into(), "dir".into(), 2);
    let mut all: Vec<String> = vec![
        "doyo-backup-5.db".into(),
        "doyo-backup-4.db".into(),
        "doyo-backup-3.db".into(),
        "doyo-backup-2.db".into(),
    ];
    for i in (0..7).rev() {
        all.push(format!("{}{}.db", PRE_RESTORE_PREFIX, i));
    }
    let victims = service.prune_old_backups(&all);
    assert_eq!(
        victims,
        vec![
            "doyo-backup-2.db".to_string(),
            "doyo-backup-3.db".to_string(),
            format!("{}0.db", PRE_RESTORE_PREFIX),
            format!("{}1.db", PRE_RESTORE_PREFIX),
        ]
    );
    let kept_routine = all
        .iter()
        .filter(|n| !n.starts_with(PRE_RESTORE_PREFIX) && !victims.contains(n))
        .count();
    assert!(kept_routine <= 2);
    let kept_snapshots =
        all.iter().filter(|n| n.starts_with(PRE_RESTORE_PREFIX) && !victims.contains(n)).count();
    assert_eq!(kept_snapshots, MAX_PRE_RESTORE_SNAPSHOTS);
}

#[test]
fn backup_listing_is_newest_first_db_only() {
    let entries = vec![
        "doyo-backup-2026-01-01.db".to_string(),
        "readme.txt".to_string(),
        "doyo-backup-2026-03-01.db".to_string(),
        "doyo-backup-2026-02-01.db".to_string(),
    ];
    assert_eq!(
        backup_listing(&entries),
        vec![
            "doyo-backup-2026-03-01.db".to_string(),
            "doyo-backup-2026-02-01.db".to_string(),
            "doyo-backup-2026-01-01.db".to_string(),
        ]
    );
}

#[test]
fn backup_file_names_fall_into_their_budgets() {
    let routine = backup_file_name("2026-07-29-080000", "abc");
    assert_eq!(routine, "doyo-backup-2026-07-29-080000-abc.db");
    assert!(!routine.starts_with(PRE_RESTORE_PREFIX));
    let snapshot = snapshot_file_name("2026-07-29-080000", "abc");
    assert_eq!(snapshot, "doyo-pre-restore-2026-07-29-080000-abc.db");
    assert!(fresh_backup_name(true).starts_with(PRE_RESTORE_PREFIX));
    let fresh = fresh_backup_name(false);
    assert!(fresh.starts_with("doyo-backup-") && fresh.ends_with(".db"));
    assert_eq!(sidecar_names("doyo.db"), vec!["doyo.db-wal".to_string(), "doyo.db-shm".to_string()]);
    assert_eq!(staging_path("/data/doyo.db"), "/data/doyo.restore-staging");
    assert_eq!(display_name("/data/backups/a.db"), "a.db");
    assert_eq!(display_name("/"), "/");
}

#[test]
fn restorable_databases_are_judged_in_order() {
    let probe = |open: Option<&str>, integrity: Result<&str, &str>, nodes: bool, version: Result<i64, &str>| {
        RestoreProbe {
            open_error: open.map(|s| s.to_string()),
            integrity: integrity.map(|s| s.to_string()).map_err(|s| s.to_string()),
            has_nodes: nodes,
            version: version.map_err(|s| s.to_string()),
        }
    };
    let path = "/b/x.db";
    assert_eq!(validate_restorable_database(path, &probe(None, Ok("ok"), true, Ok(6))).unwrap(), 6);
    assert_eq!(
        message_of(validate_restorable_database(path, &probe(Some("bad header"), Ok("ok"), true, Ok(6))).unwrap_err()),
        "Backup is not a readable SQLite database (x.db): bad header"
    );
    assert_eq!(
        message_of(validate_restorable_database(path, &probe(None, Err("io"), true, Ok(6))).unwrap_err()),
        "Backup failed its integrity check (x.db): io"
    );
    assert_eq!(
        message_of(validate_restorable_database(path, &probe(None, Ok("page 3 broken"), true, Ok(6))).unwrap_err()),
        "Backup is corrupted (x.db): page 3 broken"
    );
    assert_eq!(
        message_of(validate_restorable_database(path, &probe(None, Ok("ok"), false, Ok(6))).unwrap_err()),
        "Backup is not a Doyo database (x.db): no nodes table"
    );
    assert_eq!(
        message_of(validate_restorable_database(path, &probe(None, Ok("ok"), true, Err("no table"))).unwrap_err()),
        "Backup is not a Doyo database (x.db): no table"
    );
    assert_eq!(
        message_of(validate_restorable_database(path, &probe(None, Ok("ok"), true, Ok(0))).unwrap_err()),
        "Backup has no applied schema version (x.db)"
    );
    assert_eq!(
        message_of(validate_restorable_database(path, &probe(None, Ok("ok"), true, Ok(9))).unwrap_err()),
        "Backup was written by a newer version of Doyo (schema v9, this build supports v6). Upgrade Doyo before restoring it."
    );
}

#[test]
fn paths_split_into_component_kinds() {
    assert_eq!(components("a/b.db"), vec![ComponentKind::Normal, ComponentKind::Normal]);
    assert_eq!(components("/x"), vec![ComponentKind::RootDir, ComponentKind::Normal]);
    assert_eq!(components("../x"), vec![ComponentKind::ParentDir, ComponentKind::Normal]);
    assert_eq!(components("./x"), vec![ComponentKind::CurDir, ComponentKind::Normal]);
    assert!(components("").is_empty());
    assert!(!plain_name("../x"));
    assert!(!plain_name("/x"));
    assert!(!plain_name("a/b"));
    assert!(plain_name("b.db"));
}

#[test]
fn names_that_step_elsewhere_have_the_stated_components() {
    assert_eq!(components("."), vec![ComponentKind::CurDir]);
    assert_eq!(components(".."), vec![ComponentKind::ParentDir]);
    for name in ["nested/x.db", "../x.db", "../escape.txt", "./a", "a/.b", "x//y/"] {
        assert!(components(name).len() >= 2, "{}", name);
        assert!(!plain_name(name), "{}", name);
    }
    assert!(!plain_name("."));
    assert!(!plain_name(".."));
}
