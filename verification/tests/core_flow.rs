use clovalink::access::{Action, Actor, RoleLabel};
use clovalink::compliance::{ComplianceMode, ComplianceRestrictions};
use clovalink::errors::CoreError;
use clovalink::ops;
use clovalink::ops::{DownloadParams, DownloadPlan, LockFileInput, UnlockFileInput, UploadParams};
use clovalink::records::Visibility;
use clovalink::share::{self, CreateShareInput, SharePolicy, ShareTable};
use clovalink::store::{Store, TenantConfig};

fn employee(user_id: u64, tenant_id: u64, dept: Option<u64>) -> Actor {
    Actor {
        user_id,
        tenant_id,
        role: RoleLabel::Employee,
        department_id: dept,
        allowed_department_ids: Vec::new(),
        can_lock_files: false,
        can_unlock_files: false,
    }
}

fn manager(user_id: u64, tenant_id: u64, dept: Option<u64>) -> Actor {
    Actor {
        user_id,
        tenant_id,
        role: RoleLabel::Manager,
        department_id: dept,
        allowed_department_ids: Vec::new(),
        can_lock_files: false,
        can_unlock_files: false,
    }
}

fn standard() -> ComplianceRestrictions {
    ComplianceRestrictions::for_mode(ComplianceMode::Standard)
}

fn upload(
    store: &mut Store,
    cfg: &TenantConfig,
    actor: &Actor,
    tenant: u64,
    parent: Option<&str>,
    name: &str,
    data: &[u8],
) -> ops::UploadOutcome {
    ops::upload_file(
        store,
        cfg,
        actor,
        tenant,
        UploadParams {
            parent_path: parent.map(|p| p.to_string()),
            visibility: Some(Visibility::Department),
        },
        name.to_string(),
        "application/octet-stream".to_string(),
        &data.to_vec(),
        1000,
    )
    .unwrap()
}

#[test]
fn first_upload_commits_under_the_derived_key() {
    let mut store = Store::new();
    let cfg = TenantConfig::unrestricted();
    let actor = employee(10, 1, Some(1));
    let out = upload(&mut store, &cfg, &actor, 1, None, "file.txt", b"test");
    let hash = blake3::hash(b"test").to_hex().to_string();
    assert!(!out.deduplicated);
    assert!(!out.was_renamed);
    assert_eq!(out.file_name, "file.txt");
    assert_eq!(out.content_hash, hash);
    assert_eq!(out.storage_key, format!("1/1/{}/{}", &hash[..2], hash));
    assert_eq!(store.catalog.records.len(), 1);
    assert_eq!(store.backend.keys.len(), 1);
    assert!(store.backend.contains_key(&out.storage_key));
}

#[test]
fn second_upload_of_identical_bytes_deduplicates() {
    let mut store = Store::new();
    let cfg = TenantConfig::unrestricted();
    let actor = employee(10, 1, Some(1));
    let first = upload(&mut store, &cfg, &actor, 1, None, "one.bin", b"test");
    let second = upload(&mut store, &cfg, &actor, 1, None, "two.bin", b"test");
    assert!(second.deduplicated);
    assert_eq!(second.content_hash, first.content_hash);
    assert_eq!(second.storage_key, first.storage_key);
    assert_eq!(store.catalog.records.len(), 2);
    // Exactly one backend object for the shared content.
    assert_eq!(store.backend.keys.len(), 1);
}

#[test]
fn permanent_delete_counts_live_references() {
    let mut store = Store::new();
    let cfg = TenantConfig::unrestricted();
    let actor = employee(10, 1, Some(1));
    let first = upload(&mut store, &cfg, &actor, 1, None, "one.bin", b"test");
    let second = upload(&mut store, &cfg, &actor, 1, None, "two.bin", b"test");
    let key = first.storage_key.clone();

    // The first row goes to trash and is purged: the second row still
    // references the content, so the object survives.
    ops::delete_file(&mut store, &actor, 1, first.file_id, &standard(), 2000).unwrap();
    let purged = ops::permanent_delete(&mut store, &actor, 1, first.file_id).unwrap();
    assert_eq!(purged.files_deleted, 1);
    assert_eq!(purged.storage_objects_deleted, 0);
    assert!(store.backend.contains_key(&key));
    assert_eq!(store.catalog.records.len(), 1);

    // Purging the second, last reference takes the object with it.
    ops::delete_file(&mut store, &actor, 1, second.file_id, &standard(), 3000).unwrap();
    let purged2 = ops::permanent_delete(&mut store, &actor, 1, second.file_id).unwrap();
    assert_eq!(purged2.files_deleted, 1);
    assert_eq!(purged2.storage_objects_deleted, 1);
    assert!(!store.backend.contains_key(&key));
    assert_eq!(store.catalog.records.len(), 0);
}

#[test]
fn locked_file_gates_reads_and_unlocks_by_role() {
    let mut store = Store::new();
    let cfg = TenantConfig::unrestricted();
    let m = manager(20, 1, Some(1));
    let e = employee(10, 1, Some(1));
    let out = upload(&mut store, &cfg, &m, 1, None, "notes.txt", b"ten bytes!");
    ops::lock_file(
        &mut store,
        &m,
        1,
        out.file_id,
        &LockFileInput { password: Some("p".to_string()), required_role: Some(RoleLabel::Manager) },
        &standard(),
        2000,
    )
    .unwrap();

    // An employee in the same department is stopped by the lock gate.
    let e_read = ops::can_access_file(
        &store.catalog,
        out.file_id,
        1,
        &e,
        Action::Read,
        &standard(),
        false,
    )
    .unwrap();
    assert!(!e_read);
    // The manager who locked it reads on.
    let m_read = ops::can_access_file(
        &store.catalog,
        out.file_id,
        1,
        &m,
        Action::Read,
        &standard(),
        false,
    )
    .unwrap();
    assert!(m_read);

    // The role gate turns the employee away even with the password.
    let denied = ops::unlock_file(
        &mut store,
        &e,
        1,
        out.file_id,
        &UnlockFileInput { password: Some("p".to_string()) },
        &standard(),
    );
    assert_eq!(denied, Err(CoreError::Forbidden));

    // A wrong password fails even for the manager.
    let wrong = ops::unlock_file(
        &mut store,
        &m,
        1,
        out.file_id,
        &UnlockFileInput { password: Some("q".to_string()) },
        &standard(),
    );
    assert_eq!(wrong, Err(CoreError::WrongPassword));

    // The manager with the right password unlocks.
    ops::unlock_file(
        &mut store,
        &m,
        1,
        out.file_id,
        &UnlockFileInput { password: Some("p".to_string()) },
        &standard(),
    )
    .unwrap();
    let idx = store
        .catalog
        .records
        .iter()
        .position(|r| r.id == out.file_id)
        .unwrap();
    assert!(!store.catalog.records[idx].is_locked);
    assert!(store.catalog.records[idx].lock_password_hash.is_none());
}

#[test]
fn renamed_folder_packs_under_its_new_name() {
    let mut store = Store::new();
    let cfg = TenantConfig::unrestricted();
    let actor = employee(10, 1, Some(1));
    let folder_id = ops::create_folder(
        &mut store,
        &actor,
        1,
        "F".to_string(),
        "".to_string(),
        Visibility::Department,
        1000,
    )
    .unwrap();
    upload(&mut store, &cfg, &actor, 1, Some("F"), "a.txt", b"aa");
    upload(&mut store, &cfg, &actor, 1, Some("F"), "b.txt", b"bbb");

    ops::rename_file(&mut store, &actor, 1, folder_id, "G", &standard(), 2000).unwrap();

    let plan = match ops::download_file(
        &store,
        &actor,
        1,
        folder_id,
        &DownloadParams { preview: None },
        &standard(),
        false,
        false,
        1_000_000,
    )
    .unwrap()
    {
        DownloadPlan::Pack(plan) => plan,
        _ => panic!("a directory download must pack"),
    };
    assert_eq!(plan.total_bytes, 5);
    let mut names: Vec<String> = plan.entries.iter().map(|e| e.entry_name.clone()).collect();
    names.sort();
    assert_eq!(names, vec!["G/a.txt".to_string(), "G/b.txt".to_string()]);

    // No backend copies happened: still the two original objects.
    assert_eq!(store.backend.keys.len(), 2);

    // The plan round-trips through a real archive, written the way the
    // service edge writes one.
    let mut buf = std::io::Cursor::new(Vec::new());
    {
        let mut zipper = zip::ZipWriter::new(&mut buf);
        let options = zip::write::SimpleFileOptions::default();
        for e in plan.entries.iter() {
            let data: &[u8] = if e.entry_name.ends_with("a.txt") { b"aa" } else { b"bbb" };
            zipper.start_file(e.entry_name.as_str(), options).unwrap();
            std::io::Write::write_all(&mut zipper, data).unwrap();
        }
        zipper.finish().unwrap();
    }
    let mut archive = zip::ZipArchive::new(std::io::Cursor::new(buf.into_inner())).unwrap();
    let mut found: Vec<String> = (0..archive.len())
        .map(|i| archive.by_index(i).unwrap().name().to_string())
        .collect();
    found.sort();
    assert_eq!(found, vec!["G/a.txt".to_string(), "G/b.txt".to_string()]);
}

#[test]
fn upload_limits_trip_exactly_past_the_ceiling() {
    let mut store = Store::new();
    let mut cfg = TenantConfig::unrestricted();
    cfg.max_upload_size_bytes = Some(4);
    let actor = employee(10, 1, Some(1));
    // Exactly at the ceiling: accepted.
    let ok = upload(&mut store, &cfg, &actor, 1, None, "at.bin", b"1234");
    assert_eq!(ok.file_name, "at.bin");
    // One byte over: refused, nothing changed.
    let over = ops::upload_file(
        &mut store,
        &cfg,
        &actor,
        1,
        UploadParams { parent_path: None, visibility: None },
        "over.bin".to_string(),
        "application/octet-stream".to_string(),
        &b"12345".to_vec(),
        1000,
    );
    assert_eq!(over.unwrap_err(), CoreError::TooLarge);
    assert_eq!(store.catalog.records.len(), 1);
    assert_eq!(store.backend.keys.len(), 1);
}

#[test]
fn quota_counts_the_running_total() {
    let mut store = Store::new();
    let mut cfg = TenantConfig::unrestricted();
    cfg.storage_quota_bytes = Some(6);
    let actor = employee(10, 1, Some(1));
    upload(&mut store, &cfg, &actor, 1, None, "a.bin", b"1234");
    let over = ops::upload_file(
        &mut store,
        &cfg,
        &actor,
        1,
        UploadParams { parent_path: None, visibility: None },
        "b.bin".to_string(),
        "application/octet-stream".to_string(),
        &b"xyz".to_vec(),
        1000,
    );
    assert_eq!(over.unwrap_err(), CoreError::QuotaExceeded);
}

#[test]
fn pack_size_ceiling_is_enforced_before_any_read() {
    let mut store = Store::new();
    let cfg = TenantConfig::unrestricted();
    let actor = employee(10, 1, Some(1));
    let folder_id = ops::create_folder(
        &mut store,
        &actor,
        1,
        "big".to_string(),
        "".to_string(),
        Visibility::Department,
        1000,
    )
    .unwrap();
    upload(&mut store, &cfg, &actor, 1, Some("big"), "a.bin", b"12345");
    // Exactly at the ceiling: the pack is planned.
    let at = ops::download_file(
        &store,
        &actor,
        1,
        folder_id,
        &DownloadParams { preview: None },
        &standard(),
        false,
        false,
        5,
    );
    assert!(matches!(at, Ok(DownloadPlan::Pack(_))));
    // One byte under the need: refused.
    let over = ops::download_file(
        &store,
        &actor,
        1,
        folder_id,
        &DownloadParams { preview: None },
        &standard(),
        false,
        false,
        4,
    );
    assert_eq!(over.unwrap_err(), CoreError::TooLarge);
}

#[test]
fn rename_to_the_same_name_is_a_no_op_that_passes() {
    let mut store = Store::new();
    let cfg = TenantConfig::unrestricted();
    let actor = employee(10, 1, Some(1));
    let out = upload(&mut store, &cfg, &actor, 1, None, "same.txt", b"x");
    ops::rename_file(&mut store, &actor, 1, out.file_id, "same.txt", &standard(), 2000).unwrap();
    let idx = store
        .catalog
        .records
        .iter()
        .position(|r| r.id == out.file_id)
        .unwrap();
    assert_eq!(store.catalog.records[idx].name, "same.txt");
}

#[test]
fn duplicate_name_is_bent_to_a_numbered_one() {
    let mut store = Store::new();
    let cfg = TenantConfig::unrestricted();
    let actor = employee(10, 1, Some(1));
    upload(&mut store, &cfg, &actor, 1, None, "r.txt", b"one");
    let second = upload(&mut store, &cfg, &actor, 1, None, "r.txt", b"two");
    assert!(second.was_renamed);
    assert_eq!(second.file_name, "r (1).txt");
    let third = upload(&mut store, &cfg, &actor, 1, None, "r.txt", b"three");
    assert_eq!(third.file_name, "r (2).txt");
}

#[test]
fn mandatory_versioning_supersedes_instead_of_renaming() {
    let mut store = Store::new();
    let mut cfg = TenantConfig::unrestricted();
    cfg.compliance_mode = ComplianceMode::Sox;
    let restrictions = ComplianceRestrictions::for_mode(ComplianceMode::Sox);
    assert!(restrictions.file_versioning_required);
    let actor = employee(10, 1, Some(1));
    let first = upload(&mut store, &cfg, &actor, 1, None, "ledger.csv", b"v1");
    let second = upload(&mut store, &cfg, &actor, 1, None, "ledger.csv", b"v2");
    assert!(!second.was_renamed);
    assert_eq!(second.file_name, "ledger.csv");
    assert_eq!(second.version, 2);
    let idx = store
        .catalog
        .records
        .iter()
        .position(|r| r.id == first.file_id)
        .unwrap();
    assert!(store.catalog.records[idx].is_immutable);
}

#[test]
fn soft_delete_then_restore_returns_the_record() {
    let mut store = Store::new();
    let cfg = TenantConfig::unrestricted();
    let actor = employee(10, 1, Some(1));
    let out = upload(&mut store, &cfg, &actor, 1, None, "back.txt", b"x");
    ops::delete_file(&mut store, &actor, 1, out.file_id, &standard(), 2000).unwrap();
    let idx = store
        .catalog
        .records
        .iter()
        .position(|r| r.id == out.file_id)
        .unwrap();
    assert!(store.catalog.records[idx].is_deleted);
    ops::restore_file(&mut store, &actor, 1, out.file_id).unwrap();
    let rec = &store.catalog.records[idx];
    assert!(!rec.is_deleted);
    assert!(rec.deleted_at.is_none());
    assert_eq!(rec.name, "back.txt");
    // The bytes never moved.
    assert!(store.backend.contains_key(&out.storage_key));
}

#[test]
fn cross_tenant_requests_are_refused() {
    let mut store = Store::new();
    let cfg = TenantConfig::unrestricted();
    let actor = employee(10, 1, Some(1));
    let stranger = employee(99, 2, Some(7));
    let out = upload(&mut store, &cfg, &actor, 1, None, "mine.txt", b"x");
    let refused = ops::upload_file(
        &mut store,
        &cfg,
        &stranger,
        1,
        UploadParams { parent_path: None, visibility: None },
        "theirs.txt".to_string(),
        "application/octet-stream".to_string(),
        &b"y".to_vec(),
        1000,
    );
    assert_eq!(refused.unwrap_err(), CoreError::Forbidden);
    let read = ops::can_access_file(
        &store.catalog,
        out.file_id,
        1,
        &stranger,
        Action::Read,
        &standard(),
        false,
    )
    .unwrap();
    assert!(!read);
}

#[test]
fn blocked_extensions_are_refused_case_blind() {
    let mut store = Store::new();
    let mut cfg = TenantConfig::unrestricted();
    cfg.blocked_extensions = vec!["exe".to_string()];
    let actor = employee(10, 1, Some(1));
    let refused = ops::upload_file(
        &mut store,
        &cfg,
        &actor,
        1,
        UploadParams { parent_path: None, visibility: None },
        "setup.EXE".to_string(),
        "application/octet-stream".to_string(),
        &b"MZ".to_vec(),
        1000,
    );
    assert_eq!(refused.unwrap_err(), CoreError::BlockedExtension);
    assert_eq!(store.catalog.records.len(), 0);
}

#[test]
fn shares_redeem_by_policy() {
    let mut store = Store::new();
    let mut table = ShareTable::new();
    let cfg = TenantConfig::unrestricted();
    let owner = manager(20, 1, Some(1));
    let out = upload(&mut store, &cfg, &owner, 1, None, "shared.txt", b"payload");
    let created = share::create_file_share(
        &mut table,
        &store,
        &owner,
        1,
        out.file_id,
        &CreateShareInput {
            is_public: Some(false),
            expires_in_days: Some(1),
            share_policy: Some(SharePolicy::Permissioned),
        },
        &standard(),
        1000,
    )
    .unwrap();
    assert_eq!(created.token.len(), 16);

    // Without credentials a private share stays closed.
    let anon = share::download_shared_file(
        &mut table,
        &store,
        &created.token,
        &None,
        &standard(),
        false,
        false,
        1_000_000,
        2000,
    );
    assert!(anon.is_err());

    // A member of the tenant who passes the engine gets the bytes.
    let colleague = employee(10, 1, Some(1));
    let plan = share::download_shared_file(
        &mut table,
        &store,
        &created.token,
        &Some(colleague),
        &standard(),
        false,
        false,
        1_000_000,
        2000,
    )
    .unwrap();
    match plan {
        DownloadPlan::Stream { storage_key, size_bytes, file_name } => {
            assert_eq!(storage_key, out.storage_key);
            assert_eq!(size_bytes, 7);
            assert_eq!(file_name, "shared.txt");
        }
        _ => panic!("a file share must stream"),
    }
    assert_eq!(table.shares[0].download_count, 1);

    // Past its expiry the token is dead.
    let late = share::download_shared_file(
        &mut table,
        &store,
        &created.token,
        &Some(employee(10, 1, Some(1))),
        &standard(),
        false,
        false,
        1_000_000,
        90_000_000,
    );
    assert_eq!(late.unwrap_err(), CoreError::Expired);
}

#[test]
fn public_shares_are_blocked_under_the_health_regime() {
    let mut store = Store::new();
    let mut table = ShareTable::new();
    let cfg = TenantConfig::unrestricted();
    let owner = manager(20, 1, Some(1));
    let out = upload(&mut store, &cfg, &owner, 1, None, "phi.txt", b"x");
    let hipaa = ComplianceRestrictions::for_mode(ComplianceMode::Hipaa);
    let refused = share::create_file_share(
        &mut table,
        &store,
        &owner,
        1,
        out.file_id,
        &CreateShareInput { is_public: Some(true), expires_in_days: None, share_policy: None },
        &hipaa,
        1000,
    );
    assert_eq!(refused.unwrap_err(), CoreError::ComplianceBlock);
}

#[test]
fn listing_shows_the_callers_view() {
    let mut store = Store::new();
    let cfg = TenantConfig::unrestricted();
    let actor = employee(10, 1, Some(1));
    upload(&mut store, &cfg, &actor, 1, None, "seen.txt", b"1");
    let other_dept = employee(11, 1, Some(2));
    upload(&mut store, &cfg, &other_dept, 1, None, "hidden.txt", b"2");
    let rows = ops::list_files(
        &store.catalog,
        &actor,
        1,
        &ops::ListFilesParams { path: None, department_id: None, visibility: None, owner_id: None },
    )
    .unwrap();
    assert_eq!(rows.len(), 1);
    assert_eq!(store.catalog.records[rows[0]].name, "seen.txt");
}

#[test]
fn trash_lists_deleted_rows_for_their_owner() {
    let mut store = Store::new();
    let cfg = TenantConfig::unrestricted();
    let actor = employee(10, 1, Some(1));
    let out = upload(&mut store, &cfg, &actor, 1, None, "gone.txt", b"1");
    ops::delete_file(&mut store, &actor, 1, out.file_id, &standard(), 2000).unwrap();
    let rows = ops::list_trash(
        &store.catalog,
        &actor,
        1,
        &ops::ListTrashParams { owner_id: None, department_id: None },
    )
    .unwrap();
    assert_eq!(rows.len(), 1);
    assert!(store.catalog.records[rows[0]].is_deleted);
}

#[test]
fn search_finds_names_case_blind_within_reach() {
    let mut store = Store::new();
    let cfg = TenantConfig::unrestricted();
    let actor = employee(10, 1, Some(1));
    upload(&mut store, &cfg, &actor, 1, None, "Quarterly Report.pdf", b"1");
    upload(&mut store, &cfg, &actor, 1, None, "minutes.txt", b"2");
    let other_dept = employee(11, 1, Some(2));
    upload(&mut store, &cfg, &other_dept, 1, None, "report-secret.pdf", b"3");
    let hits = ops::global_search(
        &store.catalog,
        &actor,
        1,
        &ops::SearchParams { q: "report".to_string(), limit: None },
    )
    .unwrap();
    assert_eq!(hits.len(), 1);
    assert_eq!(store.catalog.records[hits[0]].name, "Quarterly Report.pdf");

    let capped = ops::global_search(
        &store.catalog,
        &actor,
        1,
        &ops::SearchParams { q: "".to_string(), limit: Some(1) },
    )
    .unwrap();
    assert_eq!(capped.len(), 1);
}

#[test]
fn only_directories_become_company_folders() {
    let mut store = Store::new();
    let cfg = TenantConfig::unrestricted();
    let actor = employee(10, 1, Some(1));
    let folder_id = ops::create_folder(
        &mut store,
        &actor,
        1,
        "shared".to_string(),
        "".to_string(),
        Visibility::Department,
        1000,
    )
    .unwrap();
    assert_eq!(ops::toggle_company_folder(&mut store, &actor, 1, folder_id), Ok(true));
    assert_eq!(ops::toggle_company_folder(&mut store, &actor, 1, folder_id), Ok(false));
    let file = upload(&mut store, &cfg, &actor, 1, None, "plain.txt", b"x");
    assert!(ops::toggle_company_folder(&mut store, &actor, 1, file.file_id).is_err());
}

#[test]
fn blank_names_are_refused_as_invalid() {
    let mut store = Store::new();
    let cfg = TenantConfig::unrestricted();
    let actor = employee(10, 1, Some(1));
    let refused = ops::upload_file(
        &mut store,
        &cfg,
        &actor,
        1,
        UploadParams { parent_path: None, visibility: None },
        "".to_string(),
        "application/octet-stream".to_string(),
        &b"x".to_vec(),
        1000,
    );
    assert_eq!(refused.unwrap_err(), CoreError::InvalidName);
    assert_eq!(store.catalog.records.len(), 0);
}

#[test]
fn purge_reports_exact_object_counts_for_directories() {
    let mut store = Store::new();
    let cfg = TenantConfig::unrestricted();
    let actor = employee(10, 1, Some(1));
    let folder_id = ops::create_folder(
        &mut store,
        &actor,
        1,
        "box".to_string(),
        "".to_string(),
        Visibility::Department,
        1000,
    )
    .unwrap();
    upload(&mut store, &cfg, &actor, 1, Some("box"), "a.bin", b"one");
    upload(&mut store, &cfg, &actor, 1, Some("box"), "b.bin", b"two");
    ops::delete_file(&mut store, &actor, 1, folder_id, &standard(), 2000).unwrap();
    let purged = ops::permanent_delete(&mut store, &actor, 1, folder_id).unwrap();
    // The folder row and its two children go; two objects go with them.
    assert_eq!(purged.files_deleted, 3);
    assert_eq!(purged.storage_objects_deleted, 2);
    assert_eq!(store.backend.keys.len(), 0);
}

#[test]
fn colliding_renames_and_moves_report_duplicate() {
    let mut store = Store::new();
    let cfg = TenantConfig::unrestricted();
    let actor = employee(10, 1, Some(1));
    let a = upload(&mut store, &cfg, &actor, 1, None, "a.txt", b"1");
    upload(&mut store, &cfg, &actor, 1, None, "b.txt", b"2");
    // Renaming onto a live name in the same scope is refused as duplicate.
    let rn = ops::rename_file(&mut store, &actor, 1, a.file_id, "b.txt", &standard(), 2000);
    assert_eq!(rn, Err(CoreError::Duplicate));

    // Moving onto a live name at the destination is refused as duplicate.
    let folder_id = ops::create_folder(
        &mut store,
        &actor,
        1,
        "dest".to_string(),
        "".to_string(),
        Visibility::Department,
        1000,
    )
    .unwrap();
    upload(&mut store, &cfg, &actor, 1, Some("dest"), "a.txt", b"3");
    let mv = ops::move_file(
        &mut store,
        &actor,
        1,
        a.file_id,
        &ops::MoveFileInput {
            target_parent_id: Some(folder_id),
            target_department_id: None,
            target_visibility: None,
        },
        &standard(),
        3000,
    );
    assert_eq!(mv, Err(CoreError::Duplicate));

    // A rename whose scope differs only in department passes: uniqueness
    // is judged per (tenant, department, parent path, visibility).
    let other = employee(11, 1, Some(2));
    let c = upload(&mut store, &cfg, &other, 1, None, "c.txt", b"4");
    ops::rename_file(&mut store, &other, 1, c.file_id, "b.txt", &standard(), 4000).unwrap();
}
