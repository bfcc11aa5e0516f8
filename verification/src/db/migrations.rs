//! The schema of the database, as steps that each database goes through once.
use vstd::prelude::*;

verus! {

/// A step of the schema.
#[derive(Debug, Clone, Copy)]
pub struct Migration {
    pub version: u32,
    pub sql: &'static str,
}

/// The table of the steps that a database has gone through.
pub const VERSION_TABLE: &'static str =
    "CREATE TABLE IF NOT EXISTS schema_migrations (
        version    INTEGER PRIMARY KEY,
        applied_at TEXT NOT NULL DEFAULT (strftime('%Y-%m-%dT%H:%M:%SZ', 'now'))
    );";

/// The versions that a database has gone through.
pub const APPLIED_VERSIONS: &'static str = "SELECT version FROM schema_migrations";

/// Notes that a database has gone through a version.
pub const MARK_APPLIED: &'static str = "INSERT INTO schema_migrations (version) VALUES (?1)";

/// The tables of plugins, presets, chains and scans, and the search index of presets.
pub const CATALOG: &'static str =
    "
        CREATE TABLE plugins (
            id           INTEGER PRIMARY KEY AUTOINCREMENT,
            sync_id      TEXT    NOT NULL UNIQUE,
            name         TEXT    NOT NULL,
            vendor       TEXT,
            format       TEXT    NOT NULL,
            path         TEXT    NOT NULL,
            version      TEXT,
            installed_at TEXT,
            device_id    TEXT    NOT NULL,
            created_at   TEXT    NOT NULL DEFAULT (strftime('%Y-%m-%dT%H:%M:%SZ', 'now')),
            updated_at   TEXT    NOT NULL DEFAULT (strftime('%Y-%m-%dT%H:%M:%SZ', 'now'))
        );

        CREATE TABLE presets (
            id                 INTEGER PRIMARY KEY AUTOINCREMENT,
            sync_id            TEXT    NOT NULL UNIQUE,
            plugin_id          INTEGER NOT NULL REFERENCES plugins(id) ON DELETE CASCADE,
            name               TEXT    NOT NULL,
            path               TEXT,
            format             TEXT,
            tags               TEXT,
            timbral_brightness REAL,
            timbral_warmth     REAL,
            timbral_attack     REAL,
            key                TEXT,
            bpm                REAL,
            device_id          TEXT    NOT NULL,
            created_at         TEXT    NOT NULL DEFAULT (strftime('%Y-%m-%dT%H:%M:%SZ', 'now')),
            updated_at         TEXT    NOT NULL DEFAULT (strftime('%Y-%m-%dT%H:%M:%SZ', 'now'))
        );

        CREATE TABLE chains (
            id          INTEGER PRIMARY KEY AUTOINCREMENT,
            sync_id     TEXT    NOT NULL UNIQUE,
            name        TEXT    NOT NULL,
            daw         TEXT    NOT NULL,
            description TEXT,
            device_id   TEXT    NOT NULL,
            created_at  TEXT    NOT NULL DEFAULT (strftime('%Y-%m-%dT%H:%M:%SZ', 'now')),
            updated_at  TEXT    NOT NULL DEFAULT (strftime('%Y-%m-%dT%H:%M:%SZ', 'now'))
        );

        CREATE TABLE chain_slots (
            id        INTEGER PRIMARY KEY AUTOINCREMENT,
            chain_id  INTEGER NOT NULL REFERENCES chains(id) ON DELETE CASCADE,
            plugin_id INTEGER NOT NULL REFERENCES plugins(id),
            position  INTEGER NOT NULL,
            params    TEXT,
            UNIQUE(chain_id, position)
        );

        CREATE TABLE scan_sessions (
            id            INTEGER PRIMARY KEY AUTOINCREMENT,
            sync_id       TEXT    NOT NULL UNIQUE,
            started_at    TEXT    NOT NULL,
            completed_at  TEXT,
            status        TEXT    NOT NULL DEFAULT 'running',
            plugins_found INTEGER NOT NULL DEFAULT 0,
            presets_found INTEGER NOT NULL DEFAULT 0,
            device_id     TEXT    NOT NULL,
            created_at    TEXT    NOT NULL DEFAULT (strftime('%Y-%m-%dT%H:%M:%SZ', 'now')),
            updated_at    TEXT    NOT NULL DEFAULT (strftime('%Y-%m-%dT%H:%M:%SZ', 'now'))
        );

        -- FTS5 search index (denormalized: includes plugin name + vendor for one-box search)
        CREATE VIRTUAL TABLE presets_fts USING fts5(
            name,
            tags,
            plugin_name,
            vendor,
            tokenize = 'unicode61 remove_diacritics 1'
        );

        CREATE TRIGGER presets_ai AFTER INSERT ON presets BEGIN
            INSERT INTO presets_fts (rowid, name, tags, plugin_name, vendor)
            SELECT NEW.id, NEW.name, COALESCE(NEW.tags, ''),
                   p.name, COALESCE(p.vendor, '')
            FROM plugins p WHERE p.id = NEW.plugin_id;
        END;

        CREATE TRIGGER presets_ad AFTER DELETE ON presets BEGIN
            INSERT INTO presets_fts (presets_fts, rowid, name, tags, plugin_name, vendor)
            VALUES (
                'delete', OLD.id, OLD.name, COALESCE(OLD.tags, ''),
                (SELECT name FROM plugins WHERE id = OLD.plugin_id),
                COALESCE((SELECT vendor FROM plugins WHERE id = OLD.plugin_id), '')
            );
        END;

        CREATE TRIGGER presets_au AFTER UPDATE ON presets BEGIN
            INSERT INTO presets_fts (presets_fts, rowid, name, tags, plugin_name, vendor)
            VALUES (
                'delete', OLD.id, OLD.name, COALESCE(OLD.tags, ''),
                (SELECT name FROM plugins WHERE id = OLD.plugin_id),
                COALESCE((SELECT vendor FROM plugins WHERE id = OLD.plugin_id), '')
            );
            INSERT INTO presets_fts (rowid, name, tags, plugin_name, vendor)
            SELECT NEW.id, NEW.name, COALESCE(NEW.tags, ''),
                   p.name, COALESCE(p.vendor, '')
            FROM plugins p WHERE p.id = NEW.plugin_id;
        END;

        CREATE INDEX idx_presets_plugin_id    ON presets(plugin_id);
        CREATE INDEX idx_plugins_format       ON plugins(format);
        CREATE INDEX idx_plugins_path         ON plugins(path);
        CREATE INDEX idx_chain_slots_chain_id ON chain_slots(chain_id);
        CREATE INDEX idx_scan_sessions_status ON scan_sessions(status);
    ";

/// Class ids and categories of plugins.
pub const CLASS_IDS: &'static str =
    "
        ALTER TABLE plugins ADD COLUMN class_id TEXT;
        ALTER TABLE plugins ADD COLUMN category TEXT;
        CREATE UNIQUE INDEX idx_plugins_path_unique ON plugins(path);
    ";

/// Manuals and notes of plugins; previews, comments, likes and forks of chains.
pub const NOTES_AND_PREVIEWS: &'static str =
    "
        -- Plugin documentation attachments (local file or remote URL)
        CREATE TABLE plugin_manuals (
            id          INTEGER PRIMARY KEY AUTOINCREMENT,
            plugin_id   INTEGER NOT NULL REFERENCES plugins(id) ON DELETE CASCADE,
            source      TEXT    NOT NULL CHECK (source IN ('local', 'url')),
            path_or_url TEXT    NOT NULL,
            uploaded_at TEXT    NOT NULL DEFAULT (strftime('%Y-%m-%dT%H:%M:%SZ', 'now'))
        );

        -- Freeform user notes — one body per plugin, upserted in place
        CREATE TABLE plugin_notes (
            id         INTEGER PRIMARY KEY AUTOINCREMENT,
            plugin_id  INTEGER NOT NULL UNIQUE REFERENCES plugins(id) ON DELETE CASCADE,
            body       TEXT    NOT NULL DEFAULT '',
            updated_at TEXT    NOT NULL DEFAULT (strftime('%Y-%m-%dT%H:%M:%SZ', 'now'))
        );

        -- Stem type catalog used when rendering chain audio previews
        CREATE TABLE chain_stems (
            id          INTEGER PRIMARY KEY AUTOINCREMENT,
            name        TEXT    NOT NULL UNIQUE,
            description TEXT,
            created_at  TEXT    NOT NULL DEFAULT (strftime('%Y-%m-%dT%H:%M:%SZ', 'now'))
        );

        -- One rendered audio file per chain + stem combination
        CREATE TABLE chain_previews (
            id          INTEGER PRIMARY KEY AUTOINCREMENT,
            chain_id    INTEGER NOT NULL REFERENCES chains(id) ON DELETE CASCADE,
            stem_id     INTEGER NOT NULL REFERENCES chain_stems(id),
            audio_path  TEXT    NOT NULL,
            rendered_at TEXT    NOT NULL DEFAULT (strftime('%Y-%m-%dT%H:%M:%SZ', 'now')),
            UNIQUE(chain_id, stem_id)
        );

        -- Local mirror of Phase 3 marketplace comments
        CREATE TABLE chain_comments (
            id         INTEGER PRIMARY KEY AUTOINCREMENT,
            sync_id    TEXT    NOT NULL UNIQUE,
            chain_id   INTEGER NOT NULL REFERENCES chains(id) ON DELETE CASCADE,
            author_id  TEXT    NOT NULL,
            body       TEXT    NOT NULL,
            created_at TEXT    NOT NULL DEFAULT (strftime('%Y-%m-%dT%H:%M:%SZ', 'now')),
            updated_at TEXT    NOT NULL DEFAULT (strftime('%Y-%m-%dT%H:%M:%SZ', 'now'))
        );

        -- Local mirror of Phase 3 marketplace likes (one per user per chain)
        CREATE TABLE chain_likes (
            id         INTEGER PRIMARY KEY AUTOINCREMENT,
            sync_id    TEXT    NOT NULL UNIQUE,
            chain_id   INTEGER NOT NULL REFERENCES chains(id) ON DELETE CASCADE,
            user_id    TEXT    NOT NULL,
            created_at TEXT    NOT NULL DEFAULT (strftime('%Y-%m-%dT%H:%M:%SZ', 'now')),
            UNIQUE(chain_id, user_id)
        );

        -- Local mirror of Phase 3 marketplace fork relationships
        CREATE TABLE chain_forks (
            id              INTEGER PRIMARY KEY AUTOINCREMENT,
            sync_id         TEXT    NOT NULL UNIQUE,
            source_chain_id INTEGER NOT NULL REFERENCES chains(id),
            forked_chain_id INTEGER NOT NULL REFERENCES chains(id),
            created_at      TEXT    NOT NULL DEFAULT (strftime('%Y-%m-%dT%H:%M:%SZ', 'now')),
            UNIQUE(source_chain_id, forked_chain_id)
        );

        CREATE INDEX idx_plugin_manuals_plugin_id ON plugin_manuals(plugin_id);
        CREATE INDEX idx_chain_previews_chain_id  ON chain_previews(chain_id);
        CREATE INDEX idx_chain_comments_chain_id  ON chain_comments(chain_id);
        CREATE INDEX idx_chain_likes_chain_id     ON chain_likes(chain_id);
        CREATE INDEX idx_chain_forks_source       ON chain_forks(source_chain_id);
        CREATE INDEX idx_chain_forks_forked       ON chain_forks(forked_chain_id);
    ";

/// Modification times of plugins, several classes in one plugin file, and chains whose
/// slots carry the plugin's identity and state.
pub const CHAIN_STATE: &'static str =
    "
        ALTER TABLE plugins ADD COLUMN file_mtime INTEGER;
        DROP INDEX idx_plugins_path_unique;
        CREATE UNIQUE INDEX idx_plugins_path_class ON plugins(path, class_id);

        ALTER TABLE chains ADD COLUMN source_track TEXT;
        ALTER TABLE chains ADD COLUMN notes TEXT;
        ALTER TABLE chains ADD COLUMN tags TEXT;

        -- A slot may name a plugin that is not indexed on this device
        DROP TABLE chain_slots;
        CREATE TABLE chain_slots (
            id              INTEGER PRIMARY KEY AUTOINCREMENT,
            chain_id        INTEGER NOT NULL REFERENCES chains(id) ON DELETE CASCADE,
            plugin_id       INTEGER REFERENCES plugins(id),
            plugin_identity TEXT    NOT NULL,
            position        INTEGER NOT NULL,
            bypass          INTEGER NOT NULL DEFAULT 0,
            wet             REAL    NOT NULL DEFAULT 1.0,
            preset_name     TEXT,
            opaque_state    TEXT,
            params          TEXT,
            UNIQUE(chain_id, position)
        );
        CREATE INDEX idx_chain_slots_chain_id ON chain_slots(chain_id);
    ";

/// The statements of each step in order. The version of a step is its place in the
/// list, counted from one.
pub open spec fn schema() -> Seq<Seq<char>> {
    seq![CATALOG@, CLASS_IDS@, NOTES_AND_PREVIEWS@, CHAIN_STATE@]
}

/// Every step of the schema in order.
pub fn all() -> (out: Vec<Migration>)
    ensures
        out@.len() == schema().len(),
        forall|i: int|
            #![trigger out@[i]]
            0 <= i < out@.len() ==> out@[i].version == i + 1 && out@[i].sql@ == schema()[i],
{
    let mut out: Vec<Migration> = Vec::new();
    out.push(Migration { version: 1, sql: CATALOG });
    out.push(Migration { version: 2, sql: CLASS_IDS });
    out.push(Migration { version: 3, sql: NOTES_AND_PREVIEWS });
    out.push(Migration { version: 4, sql: CHAIN_STATE });
    out
}

/// The versions from `first` on that are not among those applied.
pub open spec fn missing_from(first: int, applied: Seq<u32>) -> Seq<int>
    decreases schema().len() + 1 - first,
{
    if first > schema().len() {
        Seq::empty()
    } else if applied.contains(first as u32) {
        missing_from(first + 1, applied)
    } else {
        seq![first] + missing_from(first + 1, applied)
    }
}

/// The versions that a database with the applied versions still has to go through.
pub open spec fn missing(applied: Seq<u32>) -> Seq<int> {
    missing_from(1, applied)
}

/// Whether the version is among those applied.
fn is_applied(applied: &Vec<u32>, version: u32) -> (yes: bool)
    ensures
        yes == applied@.contains(version),
{
    for i in 0..applied.len()
        invariant
            forall|j: int| 0 <= j < i ==> applied@[j] != version,
    {
        if applied[i] == version {
            return true;
        }
    }
    false
}

/// The steps that a database with the applied versions still has to go through, in
/// their order.
pub fn pending(applied: &Vec<u32>) -> (out: Vec<Migration>)
    ensures
        out@.len() == missing(applied@).len(),
        forall|i: int|
            #![trigger out@[i]]
            0 <= i < out@.len() ==> out@[i].version == missing(applied@)[i] && out@[i].sql@
                == schema()[missing(applied@)[i] - 1],
{
    let steps = all();
    let mut out: Vec<Migration> = Vec::new();
    let ghost want = missing(applied@);
    let ghost mut taken: Seq<int> = Seq::empty();
    for i in 0..steps.len()
        invariant
            steps@.len() == schema().len(),
            forall|k: int|
                #![trigger steps@[k]]
                0 <= k < steps@.len() ==> steps@[k].version == k + 1 && steps@[k].sql@
                    == schema()[k],
            want == taken + missing_from(i + 1, applied@),
            out@.len() == taken.len(),
            forall|k: int|
                #![trigger out@[k]]
                0 <= k < out@.len() ==> out@[k].version == taken[k] && out@[k].sql@
                    == schema()[taken[k] - 1],
    {
        let step = steps[i];
        if !is_applied(applied, step.version) {
            out.push(step);
            proof {
                let rest = missing_from(i + 2, applied@);
                assert(taken + (seq![i + 1] + rest) =~= taken.push(i + 1) + rest);
                taken = taken.push(i + 1);
            }
        }
    }
    assert(want =~= taken);
    out
}

// ---------------------------------------------------------------------------
// Laws
// ---------------------------------------------------------------------------

/// A version is missing from `first` on if and only if it is a version of the schema
/// from there on that is not applied.
proof fn lemma_missing_from(first: int, applied: Seq<u32>, version: int)
    requires
        first >= 1,
    ensures
        missing_from(first, applied).contains(version) <==> first <= version <= schema().len()
            && !applied.contains(version as u32),
    decreases schema().len() + 1 - first,
{
    if first <= schema().len() {
        lemma_missing_from(first + 1, applied, version);
        let rest = missing_from(first + 1, applied);
        if !applied.contains(first as u32) {
            let all = seq![first] + rest;
            assert(all[0] == first);
            if rest.contains(version) {
                let k = choose|k: int| 0 <= k < rest.len() && rest[k] == version;
                assert(all[k + 1] == version);
            }
            if all.contains(version) && version != first {
                let k = choose|k: int| 0 <= k < all.len() && all[k] == version;
                assert(rest[k - 1] == version);
            }
        }
    }
}

/// A step is pending if and only if the schema has it and it is not applied.
pub proof fn law_missing(applied: Seq<u32>, version: int)
    ensures
        missing(applied).contains(version) <==> 1 <= version <= schema().len()
            && !applied.contains(version as u32),
{
    lemma_missing_from(1, applied, version);
}

/// A database that has gone through what was pending has nothing pending: running the
/// migrations again changes nothing.
pub proof fn law_migrations_idempotent(applied: Seq<u32>, after: Seq<u32>)
    requires
        forall|v: u32| applied.contains(v) ==> #[trigger] after.contains(v),
        forall|v: int| #[trigger] missing(applied).contains(v) ==> after.contains(v as u32),
    ensures
        missing(after).len() == 0,
{
    if missing(after).len() > 0 {
        let v = missing(after)[0];
        assert(missing(after).contains(v));
        law_missing(after, v);
        law_missing(applied, v);
        assert(missing(applied).contains(v));
    }
}

} // verus!
