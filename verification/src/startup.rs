use vstd::prelude::*;
use crate::db::LATEST_SCHEMA_VERSION;
use crate::text::signed_decimal_seq;
use crate::paths::{path_shape, path_within, PathShape};

verus! {

/// How the database came up.
#[derive(Debug, Clone, Copy, PartialEq, Eq, Structural)]
pub enum StartupStatus {
    /// The database opened and migrated normally.
    Healthy,
    /// The database could not be used; it was set aside and a new one started.
    Recovered,
    /// No usable database directory at all; running from memory, nothing
    /// persists.
    Ephemeral,
}

/// A database that passes validation and could be restored right now.
#[derive(Debug, Clone)]
pub struct RecoveryCandidate {
    pub name: String,
    /// Which directory it came from: `backup` or `migrationBackup`.
    pub source: String,
    pub schema_version: i64,
    pub size_bytes: u64,
    /// RFC 3339 modification time, when the file system reports one.
    pub modified_at: Option<String>,
}

/// What the user is told about how the database came up.
#[derive(Debug, Clone)]
pub struct StartupReport {
    pub status: StartupStatus,
    /// One-line summary suitable for showing to the user.
    pub summary: Option<String>,
    /// The underlying error, for users who want to know what happened.
    pub detail: Option<String>,
    /// Where the unusable database was preserved.
    pub quarantined_path: Option<String>,
    /// Databases that pass validation and could be restored right now.
    pub recovery_candidates: Vec<RecoveryCandidate>,
}

impl RecoveryCandidate {
    /// A copy of this candidate.
    pub fn copied(&self) -> (r: RecoveryCandidate)
        ensures
            r == *self,
    {
        RecoveryCandidate {
            name: self.name.clone(),
            source: self.source.clone(),
            schema_version: self.schema_version,
            size_bytes: self.size_bytes,
            modified_at: crate::node::query::copy_opt_string(&self.modified_at),
        }
    }
}

impl StartupReport {
    /// The report of a database that opened and migrated normally.
    pub fn healthy() -> (r: StartupReport)
        ensures
            r.status == StartupStatus::Healthy,
            r.summary is None,
            r.detail is None,
            r.quarantined_path is None,
            r.recovery_candidates@.len() == 0,
    {
        StartupReport {
            status: StartupStatus::Healthy,
            summary: None,
            detail: None,
            quarantined_path: None,
            recovery_candidates: Vec::new(),
        }
    }
}

/// The detail of a startup report after a failed import of legacy data
/// (`e`) is added to it.
pub open spec fn detail_with_legacy_error(detail: Option<String>, e: Seq<char>) -> Seq<char> {
    match detail {
        Some(d) => d@ + "; legacy import failed: "@ + e,
        None => "legacy import failed: "@ + e,
    }
}

/// Adds a failed import of legacy data to the startup report: the failure
/// follows what the detail already says, and nothing else changes. With no
/// failure the report stays as it is.
pub fn with_legacy_error(report: StartupReport, legacy_error: Option<String>) -> (r: StartupReport)
    ensures
        r.status == report.status,
        r.summary == report.summary,
        r.quarantined_path == report.quarantined_path,
        r.recovery_candidates == report.recovery_candidates,
        match legacy_error {
            None => r.detail == report.detail,
            Some(e) => r.detail matches Some(d) && d@ == detail_with_legacy_error(report.detail, e@),
        },
{
    match legacy_error {
        None => report,
        Some(e) => {
            proof {
                reveal_strlit("; legacy import failed: ");
                reveal_strlit("legacy import failed: ");
            }
            let detail = match &report.detail {
                Some(existing) => crate::backup::concat3(
                    existing.as_str(),
                    "; legacy import failed: ",
                    e.as_str(),
                ),
                None => crate::backup::concat2("legacy import failed: ", e.as_str()),
            };
            StartupReport { detail: Some(detail), ..report }
        },
    }
}

/// The summary shown when the database was replaced by an empty one.
pub open spec fn recovered_summary() -> Seq<char> {
    "Doyo could not open your database, so it started with an empty one."@
}

/// The summary shown when nothing can be saved.
pub open spec fn ephemeral_summary() -> Seq<char> {
    "Doyo cannot write to its data folder. Changes will not be saved."@
}

/// The report after bringing up the database: `first` is how opening it went;
/// where that failed, `quarantined` is where the unusable file was set aside,
/// `second` how opening a fresh one went, and `candidates` what could be
/// restored.
pub fn startup_report(
    first: Result<(), String>,
    quarantined: Option<String>,
    second: Result<(), String>,
    candidates: Vec<RecoveryCandidate>,
) -> (r: StartupReport)
    ensures
        match first {
            Ok(_) => r.status == StartupStatus::Healthy && r.summary is None && r.detail is None
                && r.quarantined_path is None && r.recovery_candidates@.len() == 0,
            Err(reason) => r.quarantined_path == quarantined && r.recovery_candidates@
                == candidates@ && match second {
                Ok(_) => r.status == StartupStatus::Recovered && (r.summary matches Some(s)
                    && s@ == recovered_summary()) && r.detail == Some(reason),
                Err(again) => r.status == StartupStatus::Ephemeral && (r.summary matches Some(s)
                    && s@ == ephemeral_summary()) && (r.detail matches Some(d) && d@ == reason@
                    + "; "@ + again@),
            },
        },
{
    match first {
        Ok(_) => StartupReport::healthy(),
        Err(reason) => match second {
            Ok(_) => {
                proof {
                    reveal_strlit(
                        "Doyo could not open your database, so it started with an empty one.",
                    );
                }
                StartupReport {
                    status: StartupStatus::Recovered,
                    summary: Some(
                        String::from_str(
                            "Doyo could not open your database, so it started with an empty one.",
                        ),
                    ),
                    detail: Some(reason),
                    quarantined_path: quarantined,
                    recovery_candidates: candidates,
                }
            },
            Err(again) => {
                proof {
                    reveal_strlit("Doyo cannot write to its data folder. Changes will not be saved.");
                }
                let detail = crate::backup::concat3(reason.as_str(), "; ", again.as_str());
                StartupReport {
                    status: StartupStatus::Ephemeral,
                    summary: Some(
                        String::from_str(
                            "Doyo cannot write to its data folder. Changes will not be saved.",
                        ),
                    ),
                    detail: Some(detail),
                    quarantined_path: quarantined,
                    recovery_candidates: candidates,
                }
            },
        },
    }
}

/// Where bringing up the database stands.
#[derive(Debug)]
pub enum StartupStage {
    /// The database file has not been tried yet.
    Start,
    /// Opening the database file failed for `reason`.
    FirstFailed { reason: String },
    /// A fresh database file is being opened after the first failed; the
    /// unusable one went to `quarantined`, where it could be set aside.
    Fresh { reason: String, quarantined: Option<String> },
    /// Nothing more to do.
    Done,
}

/// What the application saw after carrying out the last action.
#[derive(Debug)]
pub enum StartupEvent {
    /// How opening and migrating the database file went.
    Opened(Result<(), String>),
    /// Whether the database file exists.
    FileThere(bool),
    /// How setting the file aside went: where it went, or why it could not.
    SetAside(Result<String, String>),
}

/// What the application does next while bringing up the database.
#[derive(Debug, PartialEq, Eq)]
pub enum StartupAction {
    /// Open and migrate the database file.
    Open,
    /// Find out whether the database file exists.
    CheckFile,
    /// Move the database file aside, with its sidecars.
    SetAside,
    /// Stop and report (see `startup_report`) from how the two openings
    /// went; `in_memory`: run from a database in memory.
    Finish {
        first: Result<(), String>,
        quarantined: Option<String>,
        second: Result<(), String>,
        in_memory: bool,
    },
    /// Nothing: the event does not belong to the stage.
    Ignore,
}

/// The next stage and action of bringing up the database: open the file; if
/// that fails, set the file aside when it exists and open a fresh one; if
/// that fails too, run from memory.
pub fn startup_step(stage: StartupStage, event: StartupEvent) -> (r: (StartupStage, StartupAction))
    ensures
        match (stage, event) {
            (StartupStage::Start, StartupEvent::Opened(Ok(_))) => r.0 is Done && r.1
                == StartupAction::Finish {
                first: Ok(()),
                quarantined: None,
                second: Ok(()),
                in_memory: false,
            },
            (StartupStage::Start, StartupEvent::Opened(Err(reason))) => r.0
                == StartupStage::FirstFailed { reason } && r.1 == StartupAction::CheckFile,
            (StartupStage::FirstFailed { reason }, StartupEvent::FileThere(true)) => r.0
                == StartupStage::FirstFailed { reason } && r.1 == StartupAction::SetAside,
            (StartupStage::FirstFailed { reason }, StartupEvent::FileThere(false)) => r.0
                == StartupStage::Fresh { reason, quarantined: None } && r.1 == StartupAction::Open,
            (StartupStage::FirstFailed { reason }, StartupEvent::SetAside(Ok(to))) => r.0
                == StartupStage::Fresh { reason, quarantined: Some(to) } && r.1
                == StartupAction::Open,
            (StartupStage::FirstFailed { reason }, StartupEvent::SetAside(Err(_))) => r.0
                == StartupStage::Fresh { reason, quarantined: None } && r.1 == StartupAction::Open,
            (StartupStage::Fresh { reason, quarantined }, StartupEvent::Opened(Ok(_))) => r.0 is Done
                && r.1 == StartupAction::Finish {
                first: Err(reason),
                quarantined,
                second: Ok(()),
                in_memory: false,
            },
            (StartupStage::Fresh { reason, quarantined }, StartupEvent::Opened(Err(again))) => r.0 is Done
                && r.1 == StartupAction::Finish {
                first: Err(reason),
                quarantined,
                second: Err(again),
                in_memory: true,
            },
            (st, _) => r.0 == st && r.1 == StartupAction::Ignore,
        },
{
    match (stage, event) {
        (StartupStage::Start, StartupEvent::Opened(Ok(_))) => (
            StartupStage::Done,
            StartupAction::Finish { first: Ok(()), quarantined: None, second: Ok(()), in_memory: false },
        ),
        (StartupStage::Start, StartupEvent::Opened(Err(reason))) => (
            StartupStage::FirstFailed { reason },
            StartupAction::CheckFile,
        ),
        (StartupStage::FirstFailed { reason }, StartupEvent::FileThere(there)) => {
            if there {
                (StartupStage::FirstFailed { reason }, StartupAction::SetAside)
            } else {
                (StartupStage::Fresh { reason, quarantined: None }, StartupAction::Open)
            }
        },
        (StartupStage::FirstFailed { reason }, StartupEvent::SetAside(moved)) => match moved {
            Ok(to) => (StartupStage::Fresh { reason, quarantined: Some(to) }, StartupAction::Open),
            Err(_) => (StartupStage::Fresh { reason, quarantined: None }, StartupAction::Open),
        },
        (StartupStage::Fresh { reason, quarantined }, StartupEvent::Opened(second)) => match second {
            Ok(_) => (
                StartupStage::Done,
                StartupAction::Finish { first: Err(reason), quarantined, second: Ok(()), in_memory: false },
            ),
            Err(again) => (
                StartupStage::Done,
                StartupAction::Finish {
                    first: Err(reason),
                    quarantined,
                    second: Err(again),
                    in_memory: true,
                },
            ),
        },
        (st, _) => (st, StartupAction::Ignore),
    }
}

/// What probing a database with the application's own settings found; the
/// steps run in order and the fields of a step that did not run are not
/// read.
#[derive(Debug)]
pub struct SqliteProbe {
    /// Opening it: the failure's text, if it failed.
    pub open_error: Option<String>,
    /// `PRAGMA integrity_check`: its answer, or the failure's text.
    pub integrity: Result<String, String>,
    /// The highest applied schema version, or the failure's text.
    pub version: Result<i64, String>,
}

/// The schema version of the database shown as `path`, or why it is unusable.
pub open spec fn sqlite_verdict(path: Seq<char>, probe: SqliteProbe) -> Result<i64, Seq<char>> {
    match probe.open_error {
        Some(e) => Err("failed to open database "@ + path + ": "@ + e@),
        None => match probe.integrity {
            Err(e) => Err("failed integrity check for "@ + path + ": "@ + e@),
            Ok(answer) => if answer@ != "ok"@ {
                Err("database integrity check failed for "@ + path + ": "@ + answer@)
            } else {
                match probe.version {
                    Err(e) => Err("failed to read schema_version for "@ + path + ": "@ + e@),
                    Ok(v) => Ok(v),
                }
            },
        },
    }
}

/// Judges a database from what probing it found: its schema version, or the
/// message saying why it cannot be used.
pub fn validate_sqlite_database(path: &str, probe: &SqliteProbe) -> (r: Result<i64, String>)
    ensures
        match sqlite_verdict(path@, *probe) {
            Ok(v) => r == Ok::<i64, String>(v),
            Err(msg) => r matches Err(m) && m@ == msg,
        },
{
    if let Some(e) = &probe.open_error {
        return Err(crate::backup::concat4("failed to open database ", path, ": ", e.as_str()));
    }
    match &probe.integrity {
        Err(e) => {
            return Err(crate::backup::concat4("failed integrity check for ", path, ": ", e.as_str()));
        },
        Ok(answer) => {
            if !crate::text::str_eq(answer.as_str(), "ok") {
                return Err(
                    crate::backup::concat4(
                        "database integrity check failed for ",
                        path,
                        ": ",
                        answer.as_str(),
                    ),
                );
            }
        },
    }
    match &probe.version {
        Err(e) => Err(
            crate::backup::concat4("failed to read schema_version for ", path, ": ", e.as_str()),
        ),
        Ok(v) => Ok(*v),
    }
}

/// What opening and migrating the live database found, step by step.
#[derive(Debug)]
pub struct OpenProbe {
    /// Opening it: the failure's text, if it failed.
    pub open_error: Option<String>,
    /// `PRAGMA integrity_check`: its answer, or the failure's text.
    pub integrity: Result<String, String>,
    /// Bringing the schema up to date: the failure's text, if it failed.
    pub migrate_error: Option<String>,
}

/// Why the live database at `path` cannot be used, if it cannot.
pub open spec fn open_verdict(path: Seq<char>, probe: OpenProbe) -> Option<Seq<char>> {
    match probe.open_error {
        Some(e) => Some("could not open "@ + path + ": "@ + e@),
        None => match probe.integrity {
            Err(e) => Some("integrity check failed: "@ + e@),
            Ok(answer) => if answer@ != "ok"@ {
                Some("database is corrupted: "@ + answer@)
            } else {
                match probe.migrate_error {
                    Some(e) => Some("could not migrate schema: "@ + e@),
                    None => None,
                }
            },
        },
    }
}

/// Judges the attempt to open and migrate the live database.
pub fn judge_open(path: &str, probe: &OpenProbe) -> (r: Result<(), String>)
    ensures
        match open_verdict(path@, *probe) {
            None => r is Ok,
            Some(msg) => r matches Err(m) && m@ == msg,
        },
{
    if let Some(e) = &probe.open_error {
        return Err(crate::backup::concat4("could not open ", path, ": ", e.as_str()));
    }
    match &probe.integrity {
        Err(e) => {
            return Err(crate::backup::concat2("integrity check failed: ", e.as_str()));
        },
        Ok(answer) => {
            if !crate::text::str_eq(answer.as_str(), "ok") {
                return Err(crate::backup::concat2("database is corrupted: ", answer.as_str()));
            }
        },
    }
    match &probe.migrate_error {
        Some(e) => Err(crate::backup::concat2("could not migrate schema: ", e.as_str())),
        None => Ok(()),
    }
}

/// Whether a database at schema `current` is copied aside before its schema
/// is upgraded: only an existing database that has a schema and is behind.
pub fn needs_upgrade_backup(db_exists: bool, current: i32) -> (r: bool)
    ensures
        r == (db_exists && current != 0 && current < LATEST_SCHEMA_VERSION),
{
    db_exists && current != 0 && current < LATEST_SCHEMA_VERSION
}

/// The label of the copy taken before upgrading from schema `current`.
pub fn upgrade_backup_label(current: i32) -> (r: String)
    ensures
        r@ == "schema-v"@ + signed_decimal_seq(current as int),
{
    let digits = crate::text::i64_to_decimal(current as i64);
    crate::backup::concat2("schema-v", digits.as_str())
}

/// The file name a migration safety copy labelled `label` gets.
pub open spec fn migration_backup_name_spec(label: Seq<char>, stamp: Seq<char>, id: Seq<char>) -> Seq<
    char,
> {
    "pre-doyo-migration-"@ + label + "-"@ + stamp + "-"@ + id + ".db"@
}

/// The file name of a migration safety copy.
pub fn migration_backup_name(label: &str, stamp: &str, id: &str) -> (r: String)
    ensures
        r@ == migration_backup_name_spec(label@, stamp@, id@),
{
    let mut s = crate::backup::concat4("pre-doyo-migration-", label, "-", stamp);
    s.append("-");
    s.append(id);
    s.append(".db");
    s
}

/// The file name an unusable database is set aside under.
pub fn quarantine_name(stamp: &str) -> (r: String)
    ensures
        r@ == "doyo-unopenable-"@ + stamp@ + ".db"@,
{
    crate::backup::concat3("doyo-unopenable-", stamp, ".db")
}

/// The candidate that a database found in `source` makes, when it passes
/// validation (`verdict` is its schema version).
pub fn recovery_candidate(
    name: String,
    source: &str,
    verdict: Result<i64, crate::error::Error>,
    size_bytes: u64,
    modified_at: Option<String>,
) -> (r: Option<RecoveryCandidate>)
    ensures
        match verdict {
            Err(_) => r is None,
            Ok(v) => r matches Some(c) && c.name == name && c.source@ == source@ && c.schema_version
                == v && c.size_bytes == size_bytes && c.modified_at == modified_at,
        },
{
    match verdict {
        Err(_) => None,
        Ok(v) => Some(
            RecoveryCandidate {
                name,
                source: source.to_owned(),
                schema_version: v,
                size_bytes,
                modified_at,
            },
        ),
    }
}

/// Whether the file at `path` is offered at all: it must end in `.db`.
pub fn is_database_file(path: &str) -> (r: bool)
    ensures
        r == (crate::paths::path_extension(path@) == Some("db"@)),
{
    match crate::paths::extension(path) {
        Some(e) => crate::text::str_eq(e.as_str(), "db"),
        None => false,
    }
}

/// The first element of `s` whose key is below `key`, or its length.
pub open spec fn first_below(s: Seq<(i128, RecoveryCandidate)>, key: i128) -> int
    decreases s.len(),
{
    if s.len() == 0 {
        0
    } else if s[0].0 < key {
        0
    } else {
        1 + first_below(s.drop_first(), key)
    }
}

/// `s` ordered newest first, ties kept in the order they came: each element
/// goes in after every element at least as new.
pub open spec fn newest_first(s: Seq<(i128, RecoveryCandidate)>) -> Seq<(i128, RecoveryCandidate)>
    decreases s.len(),
{
    if s.len() == 0 {
        s
    } else {
        let sorted = newest_first(s.drop_last());
        sorted.insert(first_below(sorted, s.last().0), s.last())
    }
}

proof fn lemma_first_below_bounds(s: Seq<(i128, RecoveryCandidate)>, key: i128)
    ensures
        0 <= first_below(s, key) <= s.len(),
        forall|j: int| 0 <= j < first_below(s, key) ==> s[j].0 >= key,
        first_below(s, key) < s.len() ==> s[first_below(s, key)].0 < key,
    decreases s.len(),
{
    if s.len() > 0 && s[0].0 >= key {
        lemma_first_below_bounds(s.drop_first(), key);
        assert forall|j: int| 0 <= j < first_below(s, key) implies s[j].0 >= key by {
            if j > 0 {
                assert(s[j] == s.drop_first()[j - 1]);
            }
        }
    }
}

proof fn lemma_newest_first_sorted(s: Seq<(i128, RecoveryCandidate)>)
    ensures
        newest_first(s).len() == s.len(),
        forall|a: int, b: int|
            0 <= a < b < newest_first(s).len() ==> newest_first(s)[a].0 >= newest_first(s)[b].0,
    decreases s.len(),
{
    if s.len() > 0 {
        let sorted = newest_first(s.drop_last());
        lemma_newest_first_sorted(s.drop_last());
        let x = s.last();
        lemma_first_below_bounds(sorted, x.0);
        let p = first_below(sorted, x.0);
        let t = sorted.insert(p, x);
        assert forall|a: int, b: int| 0 <= a < b < t.len() implies t[a].0 >= t[b].0 by {
            if b < p {
            } else if b == p {
            } else if a < p {
                assert(t[b] == sorted[b - 1]);
            } else if a == p {
                assert(t[b] == sorted[b - 1]);
                assert(sorted[p].0 < x.0);
                if b - 1 > p {
                    assert(sorted[p].0 >= sorted[b - 1].0);
                }
            } else {
                assert(t[a] == sorted[a - 1]);
                assert(t[b] == sorted[b - 1]);
            }
        }
    }
}

/// The candidates come out newest first.
pub proof fn law_candidates_newest_first(s: Seq<(i128, RecoveryCandidate)>)
    ensures
        forall|a: int, b: int|
            0 <= a < b < newest_first(s).len() ==> newest_first(s)[a].0 >= newest_first(s)[b].0,
        newest_first(s).len() == s.len(),
{
    lemma_newest_first_sorted(s);
}

/// The candidates of one directory, newest first by `key` (the modification
/// time in nanoseconds since the epoch; the epoch where unknown), ties kept
/// in the order they were found.
pub fn order_candidates(found: Vec<(i128, RecoveryCandidate)>) -> (r: Vec<RecoveryCandidate>)
    ensures
        r@.len() == found@.len(),
        forall|i: int| 0 <= i < r@.len() ==> #[trigger] r@[i] == newest_first(found@)[i].1,
{
    let mut sorted: Vec<(i128, RecoveryCandidate)> = Vec::new();
    let mut i: usize = 0;
    proof {
        assert(found@.take(0) =~= Seq::<(i128, RecoveryCandidate)>::empty());
    }
    while i < found.len()
        invariant
            i <= found@.len(),
            sorted@ == newest_first(found@.take(i as int)),
        decreases found.len() - i,
    {
        let key = found[i].0;
        let mut p: usize = 0;
        proof {
            lemma_first_below_bounds(sorted@, key);
            assert(sorted@.skip(0) =~= sorted@);
        }
        while p < sorted.len() && sorted[p].0 >= key
            invariant
                p <= sorted@.len(),
                first_below(sorted@, key) >= p,
                first_below(sorted@.skip(p as int), key) + p == first_below(sorted@, key),
            decreases sorted.len() - p,
        {
            proof {
                assert(sorted@.skip(p as int).drop_first() =~= sorted@.skip(p + 1));
                assert(sorted@.skip(p as int)[0] == sorted@[p as int]);
                lemma_first_below_bounds(sorted@.skip(p + 1), key);
            }
            p = p + 1;
        }
        proof {
            if p < sorted@.len() {
                assert(sorted@.skip(p as int)[0] == sorted@[p as int]);
            }
            assert(first_below(sorted@.skip(p as int), key) == 0);
            assert(found@.take(i + 1).drop_last() =~= found@.take(i as int));
        }
        let item = (found[i].0, found[i].1.copied());
        sorted.insert(p, item);
        i = i + 1;
    }
    proof {
        assert(found@.take(found@.len() as int) =~= found@);
        lemma_newest_first_sorted(found@);
    }
    let mut out: Vec<RecoveryCandidate> = Vec::new();
    let mut k: usize = 0;
    while k < sorted.len()
        invariant
            k <= sorted@.len(),
            out@.len() == k,
            forall|j: int| 0 <= j < k ==> #[trigger] out@[j] == sorted@[j].1,
        decreases sorted.len() - k,
    {
        out.push(sorted[k].1.copied());
        k = k + 1;
    }
    out
}

/// Every candidate that could be restored: those among the backups first,
/// then those among the migration safety copies.
pub fn all_recovery_candidates(
    backups: Vec<RecoveryCandidate>,
    migration_backups: Vec<RecoveryCandidate>,
) -> (r: Vec<RecoveryCandidate>)
    ensures
        r@ == backups@ + migration_backups@,
{
    let mut all = backups;
    let mut rest = migration_backups;
    all.append(&mut rest);
    all
}

/// An older installation whose data is carried over on first start.
#[derive(Debug, Clone, Copy, PartialEq, Eq)]
pub struct LegacyDataSource {
    pub app_dir_name: &'static str,
    pub db_name: &'static str,
    pub label: &'static str,
}

/// The older installations, in the order they are looked for.
pub fn legacy_data_sources() -> (r: Vec<LegacyDataSource>)
    ensures
        r@.len() == 2,
        r@[0].app_dir_name@ == "io.github.sembee.doyo"@,
        r@[0].db_name@ == "doyo.db"@,
        r@[0].label@ == "legacy-doyo"@,
        r@[1].app_dir_name@ == "com.todoapp.desktop"@,
        r@[1].db_name@ == "todoapp.db"@,
        r@[1].label@ == "legacy-todoapp"@,
{
    let mut v: Vec<LegacyDataSource> = Vec::new();
    v.push(
        LegacyDataSource {
            app_dir_name: "io.github.sembee.doyo",
            db_name: "doyo.db",
            label: "legacy-doyo",
        },
    );
    v.push(
        LegacyDataSource {
            app_dir_name: "com.todoapp.desktop",
            db_name: "todoapp.db",
            label: "legacy-todoapp",
        },
    );
    v
}

/// The first older installation whose database exists (`exists[i]` tells
/// of source `i`), if any.
pub fn pick_legacy_source(exists: &Vec<bool>) -> (r: Option<usize>)
    ensures
        match r {
            Some(i) => i < exists@.len() && exists@[i as int] && forall|j: int|
                0 <= j < i ==> !exists@[j],
            None => forall|j: int| 0 <= j < exists@.len() ==> !exists@[j],
        },
{
    let mut i: usize = 0;
    while i < exists.len()
        invariant
            i <= exists@.len(),
            forall|j: int| 0 <= j < i ==> !exists@[j],
        decreases exists.len() - i,
    {
        if exists[i] {
            return Some(i);
        }
        i = i + 1;
    }
    None
}

/// Refuses a carried-over database whose schema changed in the copy.
pub fn check_migrated_version(old_version: i64, new_version: i64) -> (r: Result<(), String>)
    ensures
        old_version == new_version ==> r is Ok,
        old_version != new_version ==> (r matches Err(m) && m@
            == "legacy data migration schema mismatch: old version "@ + signed_decimal_seq(
            old_version as int,
        ) + ", new version "@ + signed_decimal_seq(new_version as int)),
{
    if old_version != new_version {
        let old_text = crate::text::i64_to_decimal(old_version);
        let new_text = crate::text::i64_to_decimal(new_version);
        return Err(
            crate::backup::concat4(
                "legacy data migration schema mismatch: old version ",
                old_text.as_str(),
                ", new version ",
                new_text.as_str(),
            ),
        );
    }
    Ok(())
}

/// Whether an entry of an old data directory is left behind when it is
/// copied: the database's own files are carried over separately.
pub fn skip_when_copying(file_name: &str, source_db_name: &str) -> (r: bool)
    ensures
        r == (source_db_name@.len() <= file_name@.len() && file_name@.subrange(
            0,
            source_db_name@.len() as int,
        ) == source_db_name@),
{
    crate::text::starts_with(file_name, source_db_name)
}

} // verus!

verus! {

/// What a restore did: the snapshot that undoes it, and whether the restored
/// database was made live.
#[derive(Debug)]
pub struct RestoreOutcome {
    /// File name of the pre-restore snapshot; restoring it undoes this restore.
    pub snapshot_name: Option<String>,
    /// The restored database is live and no restart is needed.
    pub activated: bool,
    /// Why the restored data could not be made live, when it could not.
    pub activation_error: Option<String>,
}

/// Reports a restore that took the snapshot at `snapshot` (a path) and whose
/// activation ended as `activation`.
pub fn restore_outcome(snapshot: Option<String>, activation: Result<(), String>) -> (r: RestoreOutcome)
    ensures
        match snapshot {
            None => r.snapshot_name is None,
            Some(p) => r.snapshot_name matches Some(n) && n@ == crate::backup::display_name_spec(p@),
        },
        r.activated == activation is Ok,
        match activation {
            Ok(_) => r.activation_error is None,
            Err(e) => r.activation_error == Some(e),
        },
{
    let snapshot_name = match snapshot {
        Some(p) => Some(crate::backup::display_name(p.as_str())),
        None => None,
    };
    match activation {
        Ok(_) => RestoreOutcome { snapshot_name, activated: true, activation_error: None },
        Err(e) => RestoreOutcome { snapshot_name, activated: false, activation_error: Some(e) },
    }
}

/// Judges a `wal_checkpoint(TRUNCATE)` by the busy flag of its result row: a
/// busy checkpoint is incomplete, and a copy taken after it would miss data.
pub fn checkpoint_verdict(busy: i64) -> (r: Result<(), String>)
    ensures
        busy == 0 ==> r is Ok,
        busy != 0 ==> (r matches Err(m) && m@
            == "Database is busy and could not be fully checkpointed. Close other Doyo activity and try again."@),
{
    if busy != 0 {
        return Err(
            String::from_str(
                "Database is busy and could not be fully checkpointed. Close other Doyo activity and try again.",
            ),
        );
    }
    Ok(())
}

/// The directories a recovery may restore from.
#[derive(Debug, Clone, Copy, PartialEq, Eq, Structural)]
pub enum RecoverySource {
    Backup,
    MigrationBackup,
}

/// The source a recovery request names: `backup` or `migrationBackup`.
pub fn recovery_source(source: &str) -> (r: Result<RecoverySource, String>)
    ensures
        source@ == "backup"@ ==> r == Ok::<RecoverySource, String>(RecoverySource::Backup),
        source@ == "migrationBackup"@ ==> r == Ok::<RecoverySource, String>(
            RecoverySource::MigrationBackup,
        ),
        source@ != "backup"@ && source@ != "migrationBackup"@ ==> (r matches Err(m) && m@
            == "Unknown recovery source: "@ + source@),
{
    proof {
        reveal_strlit("backup");
        reveal_strlit("migrationBackup");
        assert("backup"@.len() != "migrationBackup"@.len());
    }
    if crate::text::str_eq(source, "backup") {
        Ok(RecoverySource::Backup)
    } else if crate::text::str_eq(source, "migrationBackup") {
        Ok(RecoverySource::MigrationBackup)
    } else {
        proof {
            reveal_strlit("Unknown recovery source: ");
        }
        Err(crate::backup::concat2("Unknown recovery source: ", source))
    }
}

/// Checks the name of a recovery file: it must be one path component.
pub fn check_recovery_name(name: &str) -> (r: Result<(), String>)
    ensures
        path_shape(name@) == PathShape::NotSingle ==> (r matches Err(m) && m@
            == "Recovery filename must not contain path separators"@),
        path_shape(name@) != PathShape::NotSingle ==> r is Ok,
        crate::paths::splits_at_slash(name@) ==> r is Err,
{
    if crate::paths::shape(name) == PathShape::NotSingle {
        return Err(String::from_str("Recovery filename must not contain path separators"));
    }
    Ok(())
}

/// Checks that the recovery file as resolved (`resolved`) lies inside its
/// resolved directory (`canonical_dir`).
pub fn check_recovery_within(resolved: &str, canonical_dir: &str) -> (r: Result<(), String>)
    ensures
        path_within(resolved@, canonical_dir@) ==> r is Ok,
        !path_within(resolved@, canonical_dir@) ==> (r matches Err(m) && m@
            == "Recovery path escapes its directory"@),
{
    if !crate::paths::starts_with(resolved, canonical_dir) {
        return Err(String::from_str("Recovery path escapes its directory"));
    }
    Ok(())
}

} // verus!
