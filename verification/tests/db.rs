use patchbay::db::chains::{
    get_chain, save_chain, slot_columns, SavePhase, SlotColumns, StepOutcome, DELETE_CHAIN,
    DELETE_SLOTS, FIND_CHAIN, GET_CHAIN, GET_SLOTS, INSERT_SLOT, LIST_CHAINS, UPSERT_CHAIN,
};
use patchbay::db::dossier::{export_dossier, is_before, DossierPlugin, DossierRow};
use patchbay::db::migrations::{all, pending, APPLIED_VERSIONS, MARK_APPLIED, VERSION_TABLE};
use patchbay::db::{
    get_known_mtimes, get_plugin_detail, note_anchor, ChainDetail, ChainRecord, ChainRow,
    ChainSlotRecord, KnownMtimes, NamedRow, PluginDetail, PluginRecord, DOSSIER_ROWS, KNOWN_MTIMES,
    PLUGIN_NOTE, PLUGIN_ROWS, UPSERT_NOTE, UPSERT_PLUGIN,
};
use rusqlite::{Connection, Error};

/// A database in memory that runs the library's statements.
struct Database {
    conn: Connection,
}

/// The positional parameters of a statement.
fn run(conn: &Connection, sql: &str, params: &[&dyn rusqlite::ToSql]) -> Result<usize, Error> {
    conn.execute(sql, params)
}

impl Database {
    fn open_in_memory() -> Result<Self, Error> {
        let conn = Connection::open_in_memory()?;
        conn.execute_batch("PRAGMA foreign_keys = ON;")?;
        let db = Self { conn };
        db.run_migrations()?;
        Ok(db)
    }

    /// The number of steps that were pending.
    fn run_migrations(&self) -> Result<usize, Error> {
        self.conn.execute_batch(VERSION_TABLE)?;
        let mut stmt = self.conn.prepare(APPLIED_VERSIONS)?;
        let applied: Vec<u32> = stmt.query_map([], |row| row.get(0))?.collect::<Result<_, _>>()?;
        let steps = pending(&applied);
        for m in &steps {
            self.conn.execute_batch(m.sql)?;
            self.conn.execute(MARK_APPLIED, [m.version])?;
        }
        Ok(steps.len())
    }

    fn upsert_plugin(&self, p: &PluginRecord) -> Result<(), Error> {
        run(
            &self.conn,
            UPSERT_PLUGIN,
            &[
                &p.sync_id, &p.name, &p.vendor, &p.format, &p.path, &p.version, &p.class_id,
                &p.category, &p.device_id, &p.file_mtime,
            ],
        )?;
        Ok(())
    }

    fn get_known_mtimes(&self, device_id: &str) -> Result<KnownMtimes, Error> {
        let mut stmt = self.conn.prepare(KNOWN_MTIMES)?;
        let rows: Vec<(String, i64)> = stmt
            .query_map([device_id], |row| Ok((row.get(0)?, row.get(1)?)))?
            .collect::<Result<_, _>>()?;
        Ok(get_known_mtimes(&rows))
    }

    fn get_plugin_detail(&self, name: &str, device_id: &str) -> Result<Option<PluginDetail>, Error> {
        let mut stmt = self.conn.prepare(PLUGIN_ROWS)?;
        let rows: Vec<NamedRow> = stmt
            .query_map([name, device_id], |row| {
                Ok(NamedRow {
                    id: row.get(0)?,
                    vendor: row.get(1)?,
                    format: row.get(2)?,
                    path: row.get(3)?,
                    version: row.get(4)?,
                    category: row.get(5)?,
                })
            })?
            .collect::<Result<_, _>>()?;
        let note = note_anchor(&rows)
            .and_then(|id| self.conn.query_row(PLUGIN_NOTE, [id], |row| row.get(0)).ok());
        Ok(get_plugin_detail(name, &rows, note))
    }

    fn upsert_plugin_note(&self, plugin_id: i64, body: &str) -> Result<(), Error> {
        run(&self.conn, UPSERT_NOTE, &[&plugin_id, &body])?;
        Ok(())
    }

    fn export_dossier(&self, device_id: &str) -> Result<Vec<DossierPlugin>, Error> {
        let mut stmt = self.conn.prepare(DOSSIER_ROWS)?;
        let rows: Vec<DossierRow> = stmt
            .query_map([device_id], |row| {
                Ok(DossierRow {
                    name: row.get(0)?,
                    vendor: row.get(1)?,
                    category: row.get(2)?,
                    format: row.get(3)?,
                    path: row.get(4)?,
                    version: row.get(5)?,
                    created_at: row.get(6)?,
                    note: row.get(7)?,
                })
            })?
            .collect::<Result<_, _>>()?;
        Ok(export_dossier(&rows))
    }

    fn run_step(
        &self,
        phase: SavePhase,
        chain: &ChainRecord,
        slots: &[ChainSlotRecord],
    ) -> Result<StepOutcome, Error> {
        match phase {
            SavePhase::Begin => self.conn.execute_batch("BEGIN")?,
            SavePhase::Upsert => {
                run(
                    &self.conn,
                    UPSERT_CHAIN,
                    &[
                        &chain.sync_id, &chain.name, &chain.daw, &chain.source_track, &chain.notes,
                        &chain.tags, &chain.device_id,
                    ],
                )?;
            }
            SavePhase::Find => {
                let id = self.conn.query_row(FIND_CHAIN, [&chain.sync_id], |row| row.get(0))?;
                return Ok(StepOutcome::Found(id));
            }
            SavePhase::Clear(id) => {
                self.conn.execute(DELETE_SLOTS, [id])?;
            }
            SavePhase::Insert(id, i) => {
                let c = slot_columns(&slots[i]);
                run(
                    &self.conn,
                    INSERT_SLOT,
                    &[
                        &id, &c.plugin_id, &c.plugin_identity, &c.position, &c.bypass,
                        &f64::from_bits(c.wet_bits), &c.preset_name, &c.opaque_state,
                    ],
                )?;
            }
            SavePhase::Commit(_) => self.conn.execute_batch("COMMIT")?,
            SavePhase::Rollback => self.conn.execute_batch("ROLLBACK")?,
            SavePhase::Saved(_) | SavePhase::Failed => {}
        }
        Ok(StepOutcome::Done)
    }

    fn save_chain(&self, chain: &ChainRecord, slots: &[ChainSlotRecord]) -> Result<i64, Error> {
        let mut phase = SavePhase::Begin;
        let mut first_error = None;
        loop {
            match phase {
                SavePhase::Saved(id) => return Ok(id),
                SavePhase::Failed => return Err(first_error.unwrap()),
                _ => {}
            }
            let outcome = match self.run_step(phase, chain, slots) {
                Ok(outcome) => outcome,
                Err(e) => {
                    first_error.get_or_insert(e);
                    StepOutcome::Error
                }
            };
            phase = save_chain(phase, outcome, slots.len());
        }
    }

    fn list_chains(&self, device_id: &str) -> Result<Vec<ChainRow>, Error> {
        let mut stmt = self.conn.prepare(LIST_CHAINS)?;
        let rows = stmt.query_map([device_id], |row| {
            Ok(ChainRow {
                id: row.get(0)?,
                sync_id: row.get(1)?,
                name: row.get(2)?,
                daw: row.get(3)?,
                tags: row.get(4)?,
                source_track: row.get(5)?,
                created_at: row.get(6)?,
            })
        })?;
        rows.collect()
    }

    fn get_chain(&self, chain_id: i64) -> Result<Option<ChainDetail>, Error> {
        let header = self.conn.query_row(GET_CHAIN, [chain_id], |row| {
            Ok(ChainDetail {
                id: row.get(0)?,
                sync_id: row.get(1)?,
                name: row.get(2)?,
                daw: row.get(3)?,
                source_track: row.get(4)?,
                notes: row.get(5)?,
                tags: row.get(6)?,
                created_at: row.get(7)?,
                slots: Vec::new(),
            })
        });
        let header = match header {
            Ok(h) => Some(h),
            Err(Error::QueryReturnedNoRows) => None,
            Err(e) => return Err(e),
        };
        let mut stmt = self.conn.prepare(GET_SLOTS)?;
        let rows: Vec<(i64, SlotColumns)> = stmt
            .query_map([chain_id], |row| {
                Ok((
                    row.get(0)?,
                    SlotColumns {
                        plugin_id: row.get(1)?,
                        plugin_identity: row.get(2)?,
                        position: row.get(3)?,
                        bypass: row.get(4)?,
                        wet_bits: row.get::<_, f64>(5)?.to_bits(),
                        preset_name: row.get(6)?,
                        opaque_state: row.get(7)?,
                    },
                ))
            })?
            .collect::<Result<_, _>>()?;
        Ok(get_chain(header, &rows))
    }

    fn delete_chain(&self, chain_id: i64) -> Result<(), Error> {
        self.conn.execute(DELETE_CHAIN, [chain_id])?;
        Ok(())
    }
}

#[test]
fn migrations_run_cleanly() {
    Database::open_in_memory().expect("migrations failed");
}

#[test]
fn migrations_are_idempotent() {
    let db = Database::open_in_memory().expect("first open failed");
    db.run_migrations().expect("second migration pass failed");
}

#[test]
fn get_known_mtimes_returns_only_nonnull() {
    let db = Database::open_in_memory().unwrap();
    db.upsert_plugin(&PluginRecord {
        sync_id: "a".to_string(),
        name: "Plugin A".to_string(),
        vendor: None,
        format: "VST3".to_string(),
        path: "/path/a.vst3".to_string(),
        version: None,
        class_id: None,
        category: None,
        device_id: "dev1".to_string(),
        file_mtime: Some(1_000_000),
    }).unwrap();
    db.upsert_plugin(&PluginRecord {
        sync_id: "b".to_string(),
        name: "Plugin B".to_string(),
        vendor: None,
        format: "VST3".to_string(),
        path: "/path/b.vst3".to_string(),
        version: None,
        class_id: None,
        category: None,
        device_id: "dev1".to_string(),
        file_mtime: None,
    }).unwrap();

    let mtimes = db.get_known_mtimes("dev1").unwrap();
    assert_eq!(mtimes.len(), 1);
    assert_eq!(mtimes.get("/path/a.vst3"), Some(1_000_000));
}

#[test]
fn get_known_mtimes_filters_by_device() {
    let db = Database::open_in_memory().unwrap();
    db.upsert_plugin(&PluginRecord {
        sync_id: "a".to_string(),
        name: "Plugin A".to_string(),
        vendor: None,
        format: "VST3".to_string(),
        path: "/path/a.vst3".to_string(),
        version: None,
        class_id: None,
        category: None,
        device_id: "dev1".to_string(),
        file_mtime: Some(1_000_000),
    }).unwrap();

    let mtimes_dev1 = db.get_known_mtimes("dev1").unwrap();
    let mtimes_dev2 = db.get_known_mtimes("dev2").unwrap();
    assert_eq!(mtimes_dev1.len(), 1);
    assert_eq!(mtimes_dev2.len(), 0);
}

#[test]
fn get_plugin_detail_groups_formats() {
    let db = Database::open_in_memory().unwrap();
    db.upsert_plugin(&PluginRecord {
        sync_id: "vst3-1".to_string(),
        name: "Pro-Q 3".to_string(),
        vendor: Some("FabFilter".to_string()),
        format: "VST3".to_string(),
        path: "/plugins/Pro-Q 3.vst3".to_string(),
        version: Some("3.56".to_string()),
        class_id: None,
        category: Some("EQ".to_string()),
        device_id: "dev1".to_string(),
        file_mtime: None,
    }).unwrap();
    db.upsert_plugin(&PluginRecord {
        sync_id: "au-1".to_string(),
        name: "Pro-Q 3".to_string(),
        vendor: Some("FabFilter".to_string()),
        format: "AU".to_string(),
        path: "/plugins/Pro-Q 3.component".to_string(),
        version: Some("3.56".to_string()),
        class_id: Some("FabF:PrQ3:au  :".to_string()),
        category: Some("EQ".to_string()),
        device_id: "dev1".to_string(),
        file_mtime: None,
    }).unwrap();

    let detail = db.get_plugin_detail("Pro-Q 3", "dev1").unwrap().unwrap();
    assert_eq!(detail.name, "Pro-Q 3");
    assert_eq!(detail.vendor.as_deref(), Some("FabFilter"));
    assert_eq!(detail.instances.len(), 2);
    assert!(detail.instances.iter().any(|i| i.format == "VST3"));
    assert!(detail.instances.iter().any(|i| i.format == "AU"));
    assert_eq!(detail.note, "");
}

fn make_chain(sync_id: &str, device_id: &str) -> ChainRecord {
    ChainRecord {
        sync_id: sync_id.to_string(),
        name: "Test Chain".to_string(),
        daw: "Ableton".to_string(),
        source_track: Some("Kick".to_string()),
        notes: Some("Punchy".to_string()),
        tags: Some("drums,kick".to_string()),
        device_id: device_id.to_string(),
    }
}

fn make_slots() -> Vec<ChainSlotRecord> {
    vec![
        ChainSlotRecord {
            plugin_id: None,
            plugin_identity: r#"{"name":"Pro-Q 3","vendor":"FabFilter","format":"VST3"}"#.to_string(),
            position: 0,
            bypass: false,
            wet_bits: 1.0f64.to_bits(),
            preset_name: Some("Tight Low Cut".to_string()),
            opaque_state: Some("abc123".to_string()),
        },
        ChainSlotRecord {
            plugin_id: None,
            plugin_identity: r#"{"name":"Pro-C 2","vendor":"FabFilter","format":"VST3"}"#.to_string(),
            position: 1,
            bypass: true,
            wet_bits: 0.5f64.to_bits(),
            preset_name: None,
            opaque_state: None,
        },
    ]
}

#[test]
fn save_and_load_chain_roundtrip() {
    let db = Database::open_in_memory().unwrap();
    let chain_id = db.save_chain(&make_chain("c1", "dev1"), &make_slots()).unwrap();

    let detail = db.get_chain(chain_id).unwrap().unwrap();
    assert_eq!(detail.name, "Test Chain");
    assert_eq!(detail.daw, "Ableton");
    assert_eq!(detail.source_track.as_deref(), Some("Kick"));
    assert_eq!(detail.notes.as_deref(), Some("Punchy"));
    assert_eq!(detail.tags.as_deref(), Some("drums,kick"));
    assert_eq!(detail.slots.len(), 2);

    let s0 = &detail.slots[0];
    assert_eq!(s0.position, 0);
    assert!(!s0.bypass);
    assert_eq!(f64::from_bits(s0.wet_bits), 1.0);
    assert_eq!(s0.preset_name.as_deref(), Some("Tight Low Cut"));
    assert_eq!(s0.opaque_state.as_deref(), Some("abc123"));

    let s1 = &detail.slots[1];
    assert_eq!(s1.position, 1);
    assert!(s1.bypass);
    assert_eq!(f64::from_bits(s1.wet_bits), 0.5);
    assert!(s1.preset_name.is_none());
    assert!(s1.opaque_state.is_none());
}

#[test]
fn list_chains_device_isolation() {
    let db = Database::open_in_memory().unwrap();
    db.save_chain(&make_chain("c1", "dev1"), &[]).unwrap();
    db.save_chain(&make_chain("c2", "dev2"), &[]).unwrap();

    let dev1 = db.list_chains("dev1").unwrap();
    let dev2 = db.list_chains("dev2").unwrap();
    assert_eq!(dev1.len(), 1);
    assert_eq!(dev2.len(), 1);
    assert_eq!(dev1[0].sync_id, "c1");
    assert_eq!(dev2[0].sync_id, "c2");
}

#[test]
fn delete_chain_cascades_slots() {
    let db = Database::open_in_memory().unwrap();
    let chain_id = db.save_chain(&make_chain("c1", "dev1"), &make_slots()).unwrap();

    db.delete_chain(chain_id).unwrap();
    assert!(db.get_chain(chain_id).unwrap().is_none());

    let slot_count: i64 = db.conn.query_row(
        "SELECT COUNT(*) FROM chain_slots WHERE chain_id = ?1",
        [chain_id],
        |row| row.get(0),
    ).unwrap();
    assert_eq!(slot_count, 0);
}

#[test]
fn save_chain_upsert_replaces_slots() {
    let db = Database::open_in_memory().unwrap();
    let chain_id = db.save_chain(&make_chain("c1", "dev1"), &make_slots()).unwrap();

    let new_slots = vec![ChainSlotRecord {
        plugin_id: None,
        plugin_identity: r#"{"name":"Limiter","vendor":"FabFilter","format":"VST3"}"#.to_string(),
        position: 0,
        bypass: false,
        wet_bits: 1.0f64.to_bits(),
        preset_name: None,
        opaque_state: None,
    }];
    let same_id = db.save_chain(&make_chain("c1", "dev1"), &new_slots).unwrap();

    assert_eq!(chain_id, same_id);
    let detail = db.get_chain(chain_id).unwrap().unwrap();
    assert_eq!(detail.slots.len(), 1);
    assert!(detail.slots[0].plugin_identity.contains("Limiter"));
}

#[test]
fn upsert_plugin_note_roundtrip() {
    let db = Database::open_in_memory().unwrap();
    db.upsert_plugin(&PluginRecord {
        sync_id: "x".to_string(),
        name: "TestPlugin".to_string(),
        vendor: None,
        format: "VST3".to_string(),
        path: "/p/x.vst3".to_string(),
        version: None,
        class_id: None,
        category: None,
        device_id: "dev1".to_string(),
        file_mtime: None,
    }).unwrap();

    let detail = db.get_plugin_detail("TestPlugin", "dev1").unwrap().unwrap();
    db.upsert_plugin_note(detail.id, "Great reverb tail").unwrap();

    let detail2 = db.get_plugin_detail("TestPlugin", "dev1").unwrap().unwrap();
    assert_eq!(detail2.note, "Great reverb tail");

    // overwrite
    db.upsert_plugin_note(detail.id, "Updated note").unwrap();
    let detail3 = db.get_plugin_detail("TestPlugin", "dev1").unwrap().unwrap();
    assert_eq!(detail3.note, "Updated note");
}

#[test]
fn steps_are_pending_until_applied() {
    let versions: Vec<u32> = all().iter().map(|m| m.version).collect();
    assert_eq!(versions, vec![1, 2, 3, 4]);
    assert_eq!(pending(&vec![]).len(), 4);
    let left: Vec<u32> = pending(&vec![3, 1, 9]).iter().map(|m| m.version).collect();
    assert_eq!(left, vec![2, 4]);
    assert!(pending(&versions).is_empty());
    let db = Database::open_in_memory().unwrap();
    assert_eq!(db.run_migrations().unwrap(), 0);
}

#[test]
fn failed_save_leaves_the_chain_as_it_was() {
    let db = Database::open_in_memory().unwrap();
    let chain_id = db.save_chain(&make_chain("c1", "dev1"), &make_slots()).unwrap();
    let mut twice = make_slots();
    twice[1].position = 0;
    let mut renamed = make_chain("c1", "dev1");
    renamed.name = "Renamed".to_string();
    assert!(db.save_chain(&renamed, &twice).is_err());

    let detail = db.get_chain(chain_id).unwrap().unwrap();
    assert_eq!(detail.name, "Test Chain");
    assert_eq!(detail.slots.len(), 2);
    // The transaction is over: the next save goes through
    assert_eq!(db.save_chain(&renamed, &make_slots()).unwrap(), chain_id);
    assert_eq!(db.get_chain(chain_id).unwrap().unwrap().name, "Renamed");
}

#[test]
fn save_steps_follow_the_outcomes() {
    use_steps(&[StepOutcome::Error], SavePhase::Failed, 1);
    use_steps(&[StepOutcome::Done, StepOutcome::Error], SavePhase::Rollback, 1);
    use_steps(&[StepOutcome::Done, StepOutcome::Done, StepOutcome::Error], SavePhase::Rollback, 1);
    let ok = [
        StepOutcome::Done,
        StepOutcome::Done,
        StepOutcome::Found(7),
        StepOutcome::Done,
        StepOutcome::Done,
        StepOutcome::Done,
    ];
    use_steps(&ok[..3], SavePhase::Clear(7), 1);
    use_steps(&ok[..4], SavePhase::Insert(7, 0), 1);
    use_steps(&ok[..4], SavePhase::Commit(7), 0);
    use_steps(&ok[..5], SavePhase::Commit(7), 1);
    use_steps(&ok, SavePhase::Saved(7), 1);
    assert_eq!(save_chain(SavePhase::Commit(7), StepOutcome::Error, 1), SavePhase::Failed);
    assert_eq!(save_chain(SavePhase::Rollback, StepOutcome::Error, 1), SavePhase::Failed);
}

fn use_steps(outcomes: &[StepOutcome], last: SavePhase, slots: usize) {
    let mut phase = SavePhase::Begin;
    for outcome in outcomes {
        phase = save_chain(phase, *outcome, slots);
    }
    assert_eq!(phase, last);
}

fn dossier_row(name: &str, format: &str, created_at: &str, note: Option<&str>) -> DossierRow {
    DossierRow {
        name: name.to_string(),
        vendor: Some("V".to_string()),
        category: None,
        format: format.to_string(),
        path: format!("/p/{name}.{format}"),
        version: None,
        created_at: created_at.to_string(),
        note: note.map(str::to_string),
    }
}

#[test]
fn dossier_groups_rows_by_name() {
    let rows = vec![
        dossier_row("A", "VST3", "2026-02-01", None),
        dossier_row("A", "AU", "2026-01-01", Some("first")),
        dossier_row("A", "VST3", "2026-03-01", Some("second")),
        dossier_row("B", "CLAP", "2026-01-05", None),
        dossier_row("A", "VST2", "2026-01-06", None),
    ];
    let list = export_dossier(&rows);
    assert_eq!(list.len(), 2);
    assert_eq!(list[0].name, "A");
    assert_eq!(list[0].formats, vec!["VST3", "AU", "VST2"]);
    assert_eq!(list[0].instances.len(), 4);
    assert_eq!(list[0].instances[2].path, "/p/A.VST3");
    assert_eq!(list[0].note.as_deref(), Some("first"));
    assert_eq!(list[0].first_seen, "2026-01-01");
    assert_eq!(list[1].name, "B");
    assert!(list[1].note.is_none());
    assert_eq!(list[1].formats, vec!["CLAP"]);
    assert!(export_dossier(&vec![]).is_empty());
}

#[test]
fn dossier_of_a_database() {
    let db = Database::open_in_memory().unwrap();
    for (sync_id, name, format) in [("1", "beta", "AU"), ("2", "Alpha", "VST3"), ("3", "beta", "VST3")] {
        db.upsert_plugin(&PluginRecord {
            sync_id: sync_id.to_string(),
            name: name.to_string(),
            vendor: None,
            format: format.to_string(),
            path: format!("/p/{sync_id}"),
            version: None,
            class_id: None,
            category: None,
            device_id: "dev1".to_string(),
            file_mtime: None,
        })
        .unwrap();
    }
    let list = db.export_dossier("dev1").unwrap();
    let names: Vec<&str> = list.iter().map(|p| p.name.as_str()).collect();
    assert_eq!(names, vec!["Alpha", "beta"]);
    assert_eq!(list[1].formats, vec!["AU", "VST3"]);
    assert!(db.export_dossier("dev2").unwrap().is_empty());
}

#[test]
fn texts_are_ordered_like_strings() {
    let words = ["", "a", "ab", "b", "B", "\u{e9}", "\u{10348}", "\u{ffff}", "2026-01-01", "2026-01-01T"];
    for a in words {
        for b in words {
            assert_eq!(is_before(a, b), a < b, "{a:?} {b:?}");
        }
    }
}

#[test]
fn detail_of_a_missing_plugin_is_none() {
    let db = Database::open_in_memory().unwrap();
    assert!(db.get_plugin_detail("Nothing", "dev1").unwrap().is_none());
    assert!(note_anchor(&vec![]).is_none());
}

#[test]
fn plugin_classes_of_one_file_are_separate() {
    let db = Database::open_in_memory().unwrap();
    let record = |sync_id: &str, class_id: &str, name: &str| PluginRecord {
        sync_id: sync_id.to_string(),
        name: name.to_string(),
        vendor: None,
        format: "CLAP".to_string(),
        path: "/p/two.clap".to_string(),
        version: None,
        class_id: Some(class_id.to_string()),
        category: None,
        device_id: "dev1".to_string(),
        file_mtime: Some(7),
    };
    db.upsert_plugin(&record("a", "one", "One")).unwrap();
    db.upsert_plugin(&record("b", "two", "Two")).unwrap();
    db.upsert_plugin(&record("c", "one", "One again")).unwrap();
    assert!(db.get_plugin_detail("One", "dev1").unwrap().is_none());
    assert!(db.get_plugin_detail("One again", "dev1").unwrap().is_some());
    assert!(db.get_plugin_detail("Two", "dev1").unwrap().is_some());
    assert_eq!(db.get_known_mtimes("dev1").unwrap().len(), 1);
}

#[test]
fn dossier_has_one_entry_per_spelling() {
    let rows = vec![
        dossier_row("abc", "VST3", "2026-01-02", None),
        dossier_row("ABC", "VST3", "2026-01-03", Some("upper")),
        dossier_row("abc", "AU", "2026-01-01", Some("lower")),
    ];
    let list = export_dossier(&rows);
    let names: Vec<&str> = list.iter().map(|p| p.name.as_str()).collect();
    assert_eq!(names, vec!["abc", "ABC"]);
    assert_eq!(list[0].formats, vec!["VST3", "AU"]);
    assert_eq!(list[0].instances.len(), 2);
    assert_eq!(list[0].note.as_deref(), Some("lower"));
    assert_eq!(list[0].first_seen, "2026-01-01");
    assert_eq!(list[1].formats, vec!["VST3"]);
    assert_eq!(list[1].note.as_deref(), Some("upper"));
}

#[test]
fn chain_saved_again_keeps_its_row() {
    let db = Database::open_in_memory().unwrap();
    let id = db.save_chain(&make_chain("c1", "dev1"), &[]).unwrap();
    db.conn.execute("UPDATE chains SET created_at = '2020-01-01' WHERE id = ?1", [id]).unwrap();

    let mut again = make_chain("c1", "dev2");
    again.name = "Renamed".to_string();
    assert_eq!(db.save_chain(&again, &make_slots()).unwrap(), id);
    let detail = db.get_chain(id).unwrap().unwrap();
    assert_eq!(detail.name, "Renamed");
    assert_eq!(detail.created_at, "2020-01-01");
    assert_eq!(detail.slots.len(), 2);
    // The row stays with the device that saved it first
    assert_eq!(db.list_chains("dev1").unwrap().len(), 1);
    assert!(db.list_chains("dev2").unwrap().is_empty());
}

#[test]
fn chain_slots_come_in_the_order_of_their_positions() {
    let db = Database::open_in_memory().unwrap();
    let mut slots = make_slots();
    slots[0].position = 7;
    slots[1].position = -2;
    let id = db.save_chain(&make_chain("c1", "dev1"), &slots).unwrap();
    let other = db.save_chain(&make_chain("c2", "dev1"), &make_slots()).unwrap();
    assert_ne!(id, other);

    let detail = db.get_chain(id).unwrap().unwrap();
    let positions: Vec<i32> = detail.slots.iter().map(|s| s.position).collect();
    assert_eq!(positions, vec![-2, 7]);
    assert!(detail.slots[0].plugin_identity.contains("Pro-C 2"));
    assert!(detail.slots[1].plugin_identity.contains("Pro-Q 3"));
}
