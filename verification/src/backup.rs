use vstd::prelude::*;
use crate::db::LATEST_SCHEMA_VERSION;
use crate::error::{is_not_found, is_validation, Error};
use crate::paths::{path_extension, path_file_name, path_shape, PathShape};
use crate::text::{signed_decimal_seq, trim_seq};

verus! {

/// The name every snapshot taken just before a restore starts with.
pub const PRE_RESTORE_PREFIX: &'static str = "doyo-pre-restore-";

/// How many pre-restore snapshots are kept; they have a budget of their own
/// so that routine backups can never push them out.
pub const MAX_PRE_RESTORE_SNAPSHOTS: usize = 5;

/// Where the live database and its backups live, and how many routine backups
/// are kept.
#[derive(Debug, Clone)]
pub struct BackupService {
    pub db_path: String,
    pub backup_dir: String,
    pub max_backups: usize,
}

/// The name of a snapshot taken before a restore.
pub open spec fn is_snapshot_name(name: Seq<char>) -> bool {
    PRE_RESTORE_PREFIX@.len() <= name.len() && name.take(PRE_RESTORE_PREFIX@.len() as int)
        == PRE_RESTORE_PREFIX@
}

/// The names of `all`, in their order, that are snapshots (`snapshots`) or
/// that are routine backups (`!snapshots`).
pub open spec fn pick_backups(all: Seq<String>, snapshots: bool) -> Seq<String>
    decreases all.len(),
{
    if all.len() == 0 {
        Seq::empty()
    } else {
        let rest = pick_backups(all.drop_last(), snapshots);
        if is_snapshot_name(all.last()@) == snapshots {
            rest.push(all.last())
        } else {
            rest
        }
    }
}

/// The names of a newest-first list beyond the first `limit`, oldest first:
/// the order in which they are removed.
pub open spec fn overflow(names: Seq<String>, limit: int) -> Seq<String> {
    if names.len() > limit {
        names.subrange(limit, names.len() as int).reverse()
    } else {
        Seq::empty()
    }
}

/// The backups a prune removes from the newest-first listing `all`, in the
/// order it removes them: the routine backups beyond `max_backups`, then the
/// snapshots beyond their own budget.
pub open spec fn prune_victims(all: Seq<String>, max_backups: int) -> Seq<String> {
    overflow(pick_backups(all, false), max_backups) + overflow(
        pick_backups(all, true),
        MAX_PRE_RESTORE_SNAPSHOTS as int,
    )
}

/// The names of a newest-first list beyond the first `limit`, oldest first.
fn overflow_of(names: &Vec<String>, limit: usize) -> (r: Vec<String>)
    ensures
        r@ == overflow(names@, limit as int),
{
    let mut out: Vec<String> = Vec::new();
    let n = names.len();
    if n <= limit {
        return out;
    }
    let mut k: usize = n;
    while k > limit
        invariant
            limit <= k <= n,
            n == names@.len(),
            out@ == names@.subrange(k as int, n as int).reverse(),
        decreases k,
    {
        k = k - 1;
        out.push(names[k].clone());
        assert(out@ =~= names@.subrange(k as int, n as int).reverse());
    }
    out
}

/// Splits `all` into its snapshots and its routine backups, each in order.
fn split_backups(all: &Vec<String>) -> (r: (Vec<String>, Vec<String>))
    ensures
        r.0@ == pick_backups(all@, true),
        r.1@ == pick_backups(all@, false),
{
    let mut snapshots: Vec<String> = Vec::new();
    let mut routine: Vec<String> = Vec::new();
    let mut i: usize = 0;
    proof {
        assert(all@.take(0) =~= Seq::<String>::empty());
    }
    while i < all.len()
        invariant
            i <= all@.len(),
            snapshots@ == pick_backups(all@.take(i as int), true),
            routine@ == pick_backups(all@.take(i as int), false),
        decreases all.len() - i,
    {
        proof {
            assert(all@.take(i + 1).drop_last() =~= all@.take(i as int));
            reveal_strlit("doyo-pre-restore-");
        }
        let name = all[i].clone();
        if crate::text::starts_with(name.as_str(), PRE_RESTORE_PREFIX) {
            snapshots.push(name);
        } else {
            routine.push(name);
        }
        i = i + 1;
    }
    proof {
        assert(all@.take(all@.len() as int) =~= all@);
    }
    (snapshots, routine)
}

impl BackupService {
    /// A service over the database at `db_path` that keeps its backups in
    /// `backup_dir` and at most `max_backups` routine backups.
    pub fn new(db_path: String, backup_dir: String, max_backups: usize) -> (r: BackupService)
        ensures
            r.db_path == db_path,
            r.backup_dir == backup_dir,
            r.max_backups == max_backups,
    {
        BackupService { db_path, backup_dir, max_backups }
    }

    /// The backups to remove, in order, from the newest-first listing `all`:
    /// routine backups and pre-restore snapshots are pruned against separate
    /// budgets.
    pub fn prune_old_backups(&self, all: &Vec<String>) -> (r: Vec<String>)
        ensures
            r@ == prune_victims(all@, self.max_backups as int),
    {
        let (snapshots, routine) = split_backups(all);
        let mut victims = overflow_of(&routine, self.max_backups);
        let mut old_snapshots = overflow_of(&snapshots, MAX_PRE_RESTORE_SNAPSHOTS);
        victims.append(&mut old_snapshots);
        victims
    }

    /// Checks a backup name and where it resolves to. `canonical_dir` is the
    /// backup directory with every link resolved, and `resolved` the path of
    /// the backup inside it (resolved too where the file exists); a path that
    /// leaves the directory is refused.
    pub fn validated_backup_path(&self, backup_name: &str, canonical_dir: &str, resolved: &str) -> (r:
        Result<String, Error>)
        ensures
            match backup_name_error(backup_name@) {
                Some(msg) => r matches Err(e) && is_validation(e, msg),
                None => if crate::paths::path_within(resolved@, canonical_dir@) {
                    r matches Ok(p) && p@ == resolved@
                } else {
                    r matches Err(e) && is_validation(
                        e,
                        "Backup path escapes the backup directory"@,
                    )
                },
            },
    {
        validate_backup_name(backup_name)?;
        if !crate::paths::starts_with(resolved, canonical_dir) {
            return Err(crate::error::validation_error("Backup path escapes the backup directory"));
        }
        Ok(resolved.to_owned())
    }
}

/// Removing the victims leaves at most `max_backups` routine backups and at
/// most the snapshot budget of snapshots, and it removes only the oldest of
/// each: the newest `max_backups` routine backups and the newest snapshots
/// are never touched, however many of the other kind there are.
pub proof fn law_prune_keeps_the_newest(all: Seq<String>, max_backups: nat)
    ensures
        ({
            let routine = pick_backups(all, false);
            let snaps = pick_backups(all, true);
            let budget = MAX_PRE_RESTORE_SNAPSHOTS as int;
            &&& routine.len() - overflow(routine, max_backups as int).len() <= max_backups
            &&& snaps.len() - overflow(snaps, budget).len() <= budget
            &&& forall|i: int|
                0 <= i < routine.len() - max_backups ==> overflow(routine, max_backups as int)[i]
                    == routine[routine.len() - 1 - i]
            &&& forall|i: int|
                0 <= i < snaps.len() - budget ==> overflow(snaps, budget)[i] == snaps[snaps.len()
                    - 1 - i]
            &&& prune_victims(all, max_backups as int).len() == overflow(
                routine,
                max_backups as int,
            ).len() + overflow(snaps, budget).len()
        }),
{
}

/// Why `name` cannot name a backup, if it cannot: it must not be blank,
/// absolute, made of several components or of anything but a plain name, and
/// it must end in `.db`.
pub open spec fn backup_name_error(name: Seq<char>) -> Option<Seq<char>> {
    if trim_seq(name).len() == 0 {
        Some("Backup filename is required"@)
    } else if crate::paths::absolute_path(name) {
        Some("Backup filename must not be absolute"@)
    } else if path_shape(name) == PathShape::NotSingle {
        Some("Backup filename must not contain path separators"@)
    } else if path_shape(name) == PathShape::SingleOther {
        Some("Backup filename contains invalid path components"@)
    } else if path_extension(name) != Some("db"@) {
        Some("Backup filename must end with .db"@)
    } else {
        None
    }
}

/// Checks that `backup_name` is the plain name of a `.db` file.
pub fn validate_backup_name(backup_name: &str) -> (r: Result<(), Error>)
    ensures
        match backup_name_error(backup_name@) {
            Some(msg) => r matches Err(e) && is_validation(e, msg),
            None => r is Ok,
        },
        crate::paths::steps_elsewhere(backup_name@) ==> r is Err,
{
    if crate::text::trim(backup_name).unicode_len() == 0 {
        return Err(crate::error::validation_error("Backup filename is required"));
    }
    if crate::paths::is_absolute(backup_name) {
        return Err(crate::error::validation_error("Backup filename must not be absolute"));
    }
    let shape = crate::paths::shape(backup_name);
    if shape == PathShape::NotSingle {
        return Err(crate::error::validation_error("Backup filename must not contain path separators"));
    }
    if shape == PathShape::SingleOther {
        return Err(crate::error::validation_error("Backup filename contains invalid path components"));
    }
    let is_db = match crate::paths::extension(backup_name) {
        Some(e) => crate::text::str_eq(e.as_str(), "db"),
        None => false,
    };
    if !is_db {
        return Err(crate::error::validation_error("Backup filename must end with .db"));
    }
    Ok(())
}

/// The error for a backup that is not there.
pub fn backup_not_found(backup_name: &str) -> (e: Error)
    ensures
        is_not_found(e, "Backup not found: "@ + backup_name@),
{
    let mut msg = String::from_str("Backup not found: ");
    msg.append(backup_name);
    proof {
        reveal_strlit("Backup not found: ");
    }
    Error::NotFound(msg)
}

/// How a path is named in messages: its final name, or the whole path where
/// it has none.
pub open spec fn display_name_spec(path: Seq<char>) -> Seq<char> {
    match path_file_name(path) {
        Some(n) => n,
        None => path,
    }
}

/// The name of `path` for messages: its final name, or the whole path.
pub fn display_name(path: &str) -> (r: String)
    ensures
        r@ == display_name_spec(path@),
{
    match crate::paths::file_name(path) {
        Some(n) => n,
        None => path.to_owned(),
    }
}

/// The names of the backups in a directory listing, newest (greatest) first:
/// those ending in `.db`.
pub fn backup_listing(entries: &Vec<String>) -> (r: Vec<String>)
    ensures
        vstd::relations::sorted_by(r@, crate::order::names_desc()),
        r@.to_multiset() == db_files(entries@).to_multiset(),
{
    let mut names: Vec<String> = Vec::new();
    let mut i: usize = 0;
    proof {
        assert(entries@.take(0) =~= Seq::<String>::empty());
    }
    while i < entries.len()
        invariant
            i <= entries@.len(),
            names@ == db_files(entries@.take(i as int)),
        decreases entries.len() - i,
    {
        proof {
            assert(entries@.take(i + 1).drop_last() =~= entries@.take(i as int));
            reveal_strlit(".db");
        }
        if crate::text::ends_with(entries[i].as_str(), ".db") {
            names.push(entries[i].clone());
        }
        i = i + 1;
    }
    proof {
        assert(entries@.take(entries@.len() as int) =~= entries@);
    }
    crate::order::sort_names_desc(names)
}

/// The names of `entries`, in order, that end in `.db`.
pub open spec fn db_files(entries: Seq<String>) -> Seq<String>
    decreases entries.len(),
{
    if entries.len() == 0 {
        Seq::empty()
    } else {
        let rest = db_files(entries.drop_last());
        let n = entries.last()@;
        if n.len() >= 3 && n.subrange(n.len() - 3, n.len() as int) == ".db"@ {
            rest.push(entries.last())
        } else {
            rest
        }
    }
}

/// What probing a candidate database found. The steps run in order and each
/// only where the ones before it succeeded; the fields of a step that did not
/// run are not read.
#[derive(Debug)]
pub struct RestoreProbe {
    /// Opening it read-only: the failure's text, if it failed.
    pub open_error: Option<String>,
    /// `PRAGMA integrity_check`: its answer, or the failure's text.
    pub integrity: Result<String, String>,
    /// Whether it has a `nodes` table (a failed look counts as none).
    pub has_nodes: bool,
    /// The highest applied schema version, or the failure's text.
    pub version: Result<i64, String>,
}

/// The message for a database that cannot be restored, or its schema version.
pub open spec fn restorable_verdict(name: Seq<char>, probe: RestoreProbe) -> Result<i64, Seq<char>> {
    match probe.open_error {
        Some(e) => Err("Backup is not a readable SQLite database ("@ + name + "): "@ + e@),
        None => match probe.integrity {
            Err(e) => Err("Backup failed its integrity check ("@ + name + "): "@ + e@),
            Ok(answer) => if answer@ != "ok"@ {
                Err("Backup is corrupted ("@ + name + "): "@ + answer@)
            } else if !probe.has_nodes {
                Err("Backup is not a Doyo database ("@ + name + "): no nodes table"@)
            } else {
                match probe.version {
                    Err(e) => Err("Backup is not a Doyo database ("@ + name + "): "@ + e@),
                    Ok(v) => if v < 1 {
                        Err("Backup has no applied schema version ("@ + name + ")"@)
                    } else if v > LATEST_SCHEMA_VERSION {
                        Err(
                            "Backup was written by a newer version of Doyo (schema v"@
                                + signed_decimal_seq(v as int) + ", this build supports v"@
                                + signed_decimal_seq(LATEST_SCHEMA_VERSION as int)
                                + "). Upgrade Doyo before restoring it."@,
                        )
                    } else {
                        Ok(v)
                    },
                }
            },
        },
    }
}

/// Judges whether the database at `path` is a genuine, intact Doyo database
/// this build can open, from what probing it found: gives its schema version,
/// or the reason it cannot be restored.
pub fn validate_restorable_database(path: &str, probe: &RestoreProbe) -> (r: Result<i64, Error>)
    ensures
        match restorable_verdict(display_name_spec(path@), *probe) {
            Ok(v) => r == Ok::<i64, Error>(v),
            Err(msg) => r matches Err(e) && is_validation(e, msg),
        },
{
    let name = display_name(path);
    proof {
        reveal_strlit("Backup is not a readable SQLite database (");
        reveal_strlit("): ");
        reveal_strlit(")");
        reveal_strlit("Backup failed its integrity check (");
        reveal_strlit("Backup is corrupted (");
        reveal_strlit("Backup is not a Doyo database (");
        reveal_strlit("): no nodes table");
        reveal_strlit("Backup has no applied schema version (");
        reveal_strlit("Backup was written by a newer version of Doyo (schema v");
        reveal_strlit(", this build supports v");
        reveal_strlit("). Upgrade Doyo before restoring it.");
    }
    if let Some(e) = &probe.open_error {
        let msg = concat4("Backup is not a readable SQLite database (", name.as_str(), "): ", e.as_str());
        return Err(Error::Validation(msg));
    }
    match &probe.integrity {
        Err(e) => {
            let msg = concat4("Backup failed its integrity check (", name.as_str(), "): ", e.as_str());
            return Err(Error::Validation(msg));
        },
        Ok(answer) => {
            if !crate::text::str_eq(answer.as_str(), "ok") {
                let msg = concat4("Backup is corrupted (", name.as_str(), "): ", answer.as_str());
                return Err(Error::Validation(msg));
            }
        },
    }
    if !probe.has_nodes {
        let msg = concat3("Backup is not a Doyo database (", name.as_str(), "): no nodes table");
        return Err(Error::Validation(msg));
    }
    match &probe.version {
        Err(e) => {
            let msg = concat4("Backup is not a Doyo database (", name.as_str(), "): ", e.as_str());
            Err(Error::Validation(msg))
        },
        Ok(v) => {
            let v = *v;
            if v < 1 {
                let msg = concat3("Backup has no applied schema version (", name.as_str(), ")");
                Err(Error::Validation(msg))
            } else if v > LATEST_SCHEMA_VERSION as i64 {
                let found = crate::text::i64_to_decimal(v);
                let latest = crate::text::i64_to_decimal(LATEST_SCHEMA_VERSION as i64);
                let mut msg = concat4(
                    "Backup was written by a newer version of Doyo (schema v",
                    found.as_str(),
                    ", this build supports v",
                    latest.as_str(),
                );
                msg.append("). Upgrade Doyo before restoring it.");
                Err(Error::Validation(msg))
            } else {
                Ok(v)
            }
        },
    }
}

/// The two texts one after another.
pub fn concat2(a: &str, b: &str) -> (r: String)
    ensures
        r@ == a@ + b@,
{
    let mut s = String::from_str(a);
    s.append(b);
    s
}

/// The three texts one after another.
pub fn concat3(a: &str, b: &str, c: &str) -> (r: String)
    ensures
        r@ == a@ + b@ + c@,
{
    let mut s = String::from_str(a);
    s.append(b);
    s.append(c);
    s
}

/// The four texts one after another.
pub fn concat4(a: &str, b: &str, c: &str, d: &str) -> (r: String)
    ensures
        r@ == a@ + b@ + c@ + d@,
{
    let mut s = String::from_str(a);
    s.append(b);
    s.append(c);
    s.append(d);
    s
}

} // verus!

verus! {

/// The file name of a routine backup taken at `stamp` under `id`.
pub open spec fn backup_file_name_spec(stamp: Seq<char>, id: Seq<char>) -> Seq<char> {
    "doyo-backup-"@ + stamp + "-"@ + id + ".db"@
}

/// The file name of a snapshot taken before a restore at `stamp` under `id`.
pub open spec fn snapshot_file_name_spec(stamp: Seq<char>, id: Seq<char>) -> Seq<char> {
    PRE_RESTORE_PREFIX@ + stamp + "-"@ + id + ".db"@
}

/// The file name of a routine backup.
pub fn backup_file_name(stamp: &str, id: &str) -> (r: String)
    ensures
        r@ == backup_file_name_spec(stamp@, id@),
{
    let mut s = concat4("doyo-backup-", stamp, "-", id);
    s.append(".db");
    s
}

/// The file name of a snapshot taken before a restore.
pub fn snapshot_file_name(stamp: &str, id: &str) -> (r: String)
    ensures
        r@ == snapshot_file_name_spec(stamp@, id@),
{
    let mut s = concat4(PRE_RESTORE_PREFIX, stamp, "-", id);
    s.append(".db");
    s
}

/// A file name for a backup taken now: routine, or a pre-restore snapshot.
pub fn fresh_backup_name(snapshot: bool) -> (r: String)
    ensures
        exists|t: crate::time::Timestamp, id: Seq<char>|
            crate::time::chrono_instant(t) && crate::ids::is_uuid_text(id) && r@ == if snapshot {
                snapshot_file_name_spec(crate::time::stamp_text(t), id)
            } else {
                backup_file_name_spec(crate::time::stamp_text(t), id)
            },
{
    let now = crate::time::now();
    let stamp = match crate::time::format_stamp(now) {
        Some(s) => s,
        None => String::new(),
    };
    let id = crate::ids::new_id();
    if snapshot {
        snapshot_file_name(stamp.as_str(), id.as_str())
    } else {
        backup_file_name(stamp.as_str(), id.as_str())
    }
}

/// Snapshots are named so that pruning counts them against their own budget,
/// and routine backups so that it never does: a burst of routine backups can
/// never evict a snapshot.
pub proof fn law_backup_names_sort_into_their_budgets(stamp: Seq<char>, id: Seq<char>)
    ensures
        is_snapshot_name(snapshot_file_name_spec(stamp, id)),
        !is_snapshot_name(backup_file_name_spec(stamp, id)),
{
    reveal_strlit("doyo-pre-restore-");
    reveal_strlit("doyo-backup-");
    let s = snapshot_file_name_spec(stamp, id);
    assert(s.take(PRE_RESTORE_PREFIX@.len() as int) =~= PRE_RESTORE_PREFIX@);
    let b = backup_file_name_spec(stamp, id);
    assert(b[5] == 'b');
    assert(PRE_RESTORE_PREFIX@[5] == 'p');
    if is_snapshot_name(b) {
        assert(b.take(PRE_RESTORE_PREFIX@.len() as int)[5] == b[5]);
    }
}

/// The side files SQLite keeps beside the database file `name` in WAL mode,
/// which must not outlive a restore.
pub fn sidecar_names(name: &str) -> (r: Vec<String>)
    ensures
        r@.len() == 2,
        r@[0]@ == name@ + "-wal"@,
        r@[1]@ == name@ + "-shm"@,
{
    let mut wal = String::from_str(name);
    wal.append("-wal");
    let mut shm = String::from_str(name);
    shm.append("-shm");
    let mut v: Vec<String> = Vec::new();
    v.push(wal);
    v.push(shm);
    v
}

/// Where a backup is staged beside the live database before it is swapped
/// in.
pub fn staging_path(db_path: &str) -> (r: String)
    ensures
        r@ == crate::paths::path_with_extension(db_path@, "restore-staging"@),
{
    proof {
        reveal_strlit("restore-staging");
    }
    crate::paths::with_extension(db_path, "restore-staging")
}

} // verus!
