use backuptool::crypto::{encrypt, Cipher};
use backuptool::engine::{
    auto_source_candidates, backup_excludes, backup_key, build_globset, classify_failure,
    copy_phase_gate, deletable_entries, disk_excludes, evacuate_preflight, failure_log,
    file_bytes, is_volume_root, needs_copy, pick_auto_sources, plan_backup, scope_sources,
    set_key, sort_set_summaries, suggested_dest_in, system_dir_candidates, to_rel,
    verify_contents, verify_phase_gate, verify_symlink, vss_remap, run_log, Entry, EvacStep,
    dirs_deepest_first, first_occurrences, removal_order, counts_in_report, entry_file_count,
    restore_step, RestoreStep, is_excluded, manifest_file_count, safe_rel,
    Evacuation, FailureClass, FailureLog, PartitionTally, SetSummary, Stats, ERROR_LOG_CAP,
};
use backuptool::error::BackupError;
use backuptool::manifest::{FileMap, FileMeta, KdfParams, Kind, Manifest};
use backuptool::platform::Platform;
use backuptool::reset::StorageKind;

fn fm(size: u64, mtime: i64) -> FileMeta {
    FileMeta {
        size,
        mtime,
        mode: 0o644,
        uid: 0,
        gid: 0,
        kind: Kind::File,
        target: String::new(),
        blake3: None,
    }
}

fn entry(rel: &str, size: u64, mtime: i64) -> Entry {
    Entry { rel: rel.to_string(), abspath: format!("/src/{rel}"), meta: fm(size, mtime) }
}

#[test]
fn new_file_needs_copy() {
    assert!(needs_copy(&fm(1, 1), None, false));
}

#[test]
fn unchanged_is_skipped() {
    assert!(!needs_copy(&fm(10, 100), Some(&fm(10, 100)), false));
}

#[test]
fn changed_size_or_mtime_copies() {
    assert!(needs_copy(&fm(11, 100), Some(&fm(10, 100)), false));
    assert!(needs_copy(&fm(10, 101), Some(&fm(10, 100)), false));
}

#[test]
fn system_dirs_all_exist() {
    let existing: Vec<String> = system_dir_candidates(Platform::Linux)
        .into_iter()
        .filter(|d| std::path::Path::new(d).is_dir())
        .collect();
    for d in existing {
        assert!(std::path::Path::new(&d).is_dir());
    }
}

#[test]
fn checksum_mode_compares_hash() {
    let mut a = fm(10, 100);
    a.blake3 = Some("aaa".into());
    let mut b = fm(10, 100);
    b.blake3 = Some("bbb".into());
    assert!(needs_copy(&a, Some(&b), true));
    b.blake3 = Some("aaa".into());
    assert!(!needs_copy(&a, Some(&b), true));
}

#[test]
fn to_rel_makes_paths_relative() {
    assert_eq!(to_rel("/Users/x/file"), "Users/x/file");
    assert_eq!(to_rel(r"\\?\C:\Users\x"), r"C\Users\x");
    assert_eq!(to_rel(r"D:\data\f"), r"D\data\f");
    assert_eq!(to_rel(r"C:/Users/x"), "C/Users/x");
}

#[test]
fn auto_sources_nonempty() {
    let home = "/root";
    let cands = auto_source_candidates(Platform::Linux, home);
    let exists: Vec<bool> = cands.iter().map(|c| std::path::Path::new(c).exists()).collect();
    assert!(!pick_auto_sources(Some(home), &cands, &exists).is_empty());
}

#[test]
fn volume_root_detection() {
    for p in ["/", "C:\\", "C:", r"\\?\C:\"] {
        assert!(is_volume_root(p), "{p}");
    }
    for p in ["/home/user", "C:\\Users", "/Volumes/Stick"] {
        assert!(!is_volume_root(p), "{p}");
    }
}

#[test]
fn suggested_dest_has_dated_folder() {
    let d = suggested_dest_in(Platform::Linux, "/media/stick", "20260613", "alice");
    assert!(d.contains("backuptool-"), "got: {d}");
    assert!(!d.is_empty());
    assert_eq!(d, "/media/stick/backuptool-20260613-alice");
    assert_eq!(suggested_dest_in(Platform::Linux, "/", "20260613", "bob"), "/backuptool-20260613-bob");
    assert_eq!(suggested_dest_in(Platform::Windows, "E:\\", "20260613", "bob"), "E:\\backuptool-20260613-bob");
}

#[test]
fn scope_config_needs_paths() {
    let none: Vec<String> = Vec::new();
    assert!(scope_sources("config", &[], Platform::Linux, None, &none).is_err());
    assert_eq!(
        scope_sources("config", &["/x".into()], Platform::Linux, None, &none).unwrap(),
        vec!["/x".to_string()]
    );
    assert!(scope_sources("bogus", &[], Platform::Linux, None, &none).is_err());
}

#[test]
fn scope_keywords_resolve() {
    let none: Vec<String> = Vec::new();
    assert_eq!(scope_sources("home", &[], Platform::Linux, None, &none).unwrap(), vec!["/home".to_string()]);
    assert_eq!(scope_sources("home", &[], Platform::Windows, Some("D:"), &none).unwrap(), vec!["D:\\Users".to_string()]);
    assert_eq!(scope_sources("disk", &[], Platform::Linux, None, &none).unwrap(), vec!["/".to_string()]);
    assert_eq!(scope_sources("disk", &[], Platform::Windows, None, &none).unwrap(), vec!["C:\\".to_string()]);
    assert!(matches!(scope_sources("auto", &[], Platform::Linux, None, &none), Err(BackupError::NoAutoSources)));
    assert!(matches!(scope_sources("config", &[], Platform::Linux, None, &none), Err(BackupError::ScopeNeedsPaths)));
    match scope_sources("weird", &[], Platform::Linux, None, &none) {
        Err(BackupError::UnknownScope(s)) => assert_eq!(s, "weird"),
        _ => panic!("expected an unknown-scope error"),
    }
    assert!(matches!(scope_sources("home", &[], Platform::Other, None, &none), Err(BackupError::NoHomeRoot)));
}

#[test]
fn auto_sources_fall_back_to_home() {
    let cands = auto_source_candidates(Platform::Linux, "/home/u");
    assert_eq!(cands[0], "/home/u/Documents");
    let none = vec![false; cands.len()];
    assert_eq!(pick_auto_sources(Some("/home/u"), &cands, &none), vec!["/home/u".to_string()]);
    let mut some = vec![false; cands.len()];
    some[1] = true;
    assert_eq!(pick_auto_sources(Some("/home/u"), &cands, &some), vec![cands[1].clone()]);
    assert!(pick_auto_sources(None, &cands, &some).is_empty());
}

#[test]
fn plan_copies_changed_and_lists_deletions() {
    let mut prev = FileMap::new();
    prev.insert("a".to_string(), fm(1, 1));
    prev.insert("b".to_string(), fm(2, 2));
    prev.insert("gone".to_string(), fm(3, 3));
    let entries = vec![entry("a", 1, 1), entry("b", 2, 5), entry("c", 9, 9)];
    let plan = plan_backup(&entries, &prev, false);
    assert_eq!(plan.todo, vec![1, 2]);
    assert_eq!(plan.unchanged, 1);
    assert_eq!(plan.deletions, vec!["gone".to_string()]);
    assert_eq!(plan.files.keys(), vec!["a".to_string(), "b".to_string(), "c".to_string()]);
    assert_eq!(plan.files.get("b").unwrap().mtime, 5);
}

#[test]
fn unchanged_run_copies_nothing() {
    let mut prev = FileMap::new();
    prev.insert("x".to_string(), fm(4, 4));
    let entries = vec![entry("x", 4, 4)];
    let plan = plan_backup(&entries, &prev, false);
    assert!(plan.todo.is_empty());
    assert_eq!(plan.unchanged, 1);
    assert!(plan.deletions.is_empty());
}

#[test]
fn file_map_keeps_key_order_and_later_value() {
    let mut m = FileMap::new();
    m.insert("b".to_string(), fm(1, 1));
    m.insert("a".to_string(), fm(2, 2));
    m.insert("b".to_string(), fm(3, 3));
    assert_eq!(m.len(), 2);
    assert_eq!(m.keys(), vec!["a".to_string(), "b".to_string()]);
    assert_eq!(m.get("b").unwrap().size, 3);
    assert!(m.contains_key("a"));
    assert!(!m.contains_key("c"));
    assert!(m.get("c").is_none());
}

fn manifest(cipher: &str, kdf: Option<KdfParams>) -> Manifest {
    Manifest {
        version: 1,
        set: "s".into(),
        host: "h".into(),
        created: "2026-01-01T00:00:00".into(),
        use_checksum: false,
        cipher: cipher.into(),
        kdf,
        files: FileMap::new(),
    }
}

#[test]
fn backup_key_reuses_salt_and_restore_rederives_it() {
    assert!(backup_key(Cipher::Plain, None, None).unwrap().is_none());
    assert!(matches!(backup_key(Cipher::Aes256Gcm, None, None), Err(BackupError::PasswordMissing)));
    let first = backup_key(Cipher::Aes256Gcm, Some("pw"), None).unwrap().unwrap();
    assert_eq!(first.kdf.algo, "argon2id");
    let prev = manifest("aes256gcm", Some(first.kdf.clone()));
    let second = backup_key(Cipher::Aes256Gcm, Some("pw"), Some(&prev)).unwrap().unwrap();
    assert_eq!(second.kdf.salt_b64, first.kdf.salt_b64);
    assert_eq!(second.key, first.key);
    let (c, k) = set_key("aes256gcm", Some(&second.kdf), Some("pw")).unwrap();
    assert_eq!(c, Cipher::Aes256Gcm);
    assert_eq!(k.unwrap(), first.key);
    // another cipher gets a fresh salt
    let other = backup_key(Cipher::ChaCha20Poly1305, Some("pw"), Some(&prev)).unwrap().unwrap();
    assert_ne!(other.kdf.salt_b64, first.kdf.salt_b64);
}

#[test]
fn set_key_errors() {
    assert!(set_key("none", None, None).unwrap().1.is_none());
    assert!(matches!(set_key("aes256gcm", None, Some("pw")), Err(BackupError::KdfMissing)));
    let kdf = KdfParams::argon2id(&[1u8; 16], 19_456, 2, 1);
    assert!(matches!(set_key("aes256gcm", Some(&kdf), None), Err(BackupError::PasswordMissing)));
    assert!(matches!(set_key("rot13", Some(&kdf), Some("pw")), Err(BackupError::UnknownCipher(_))));
    let bad = KdfParams { salt_b64: "***".into(), ..kdf.clone() };
    assert!(matches!(set_key("aes256gcm", Some(&bad), Some("pw")), Err(BackupError::SaltEncoding)));
}

#[test]
fn kdf_params_store_salt_as_base64() {
    let kdf = KdfParams::argon2id(&[3u8; 3], 8, 1, 1);
    assert_eq!(kdf.salt_b64, "AwMD");
    assert_eq!(kdf.salt().unwrap(), vec![3u8, 3, 3]);
    assert_eq!(kdf.m_cost, 8);
}

#[test]
fn verify_contents_checks_hash_or_size() {
    let data = b"hello";
    let mut meta = fm(5, 0);
    assert!(verify_contents(&meta, Cipher::Plain, None, data).is_ok());
    assert!(matches!(verify_contents(&meta, Cipher::Plain, None, b"hell"), Err(BackupError::SizeMismatch)));
    meta.blake3 = Some(blake3::hash(data).to_hex().to_string());
    assert!(verify_contents(&meta, Cipher::Plain, None, data).is_ok());
    assert!(matches!(verify_contents(&meta, Cipher::Plain, None, b"hellO"), Err(BackupError::HashMismatch)));
    let key = [6u8; 32];
    let blob = encrypt(Cipher::Aes256Gcm, &key, data).unwrap();
    assert!(verify_contents(&meta, Cipher::Aes256Gcm, Some(&key), &blob).is_ok());
    assert!(matches!(verify_contents(&meta, Cipher::Aes256Gcm, Some(&[7u8; 32]), &blob), Err(BackupError::DecryptFailed)));
}

#[test]
fn verify_symlink_compares_target() {
    let mut meta = fm(0, 0);
    meta.kind = Kind::Symlink;
    meta.target = "/a/b".into();
    assert!(verify_symlink(&meta, "/a/b").is_ok());
    assert!(matches!(verify_symlink(&meta, "/a/c"), Err(BackupError::SymlinkMismatch)));
}

#[test]
fn failures_are_classified() {
    assert_eq!(classify_failure("The process cannot access the file because it is being used by another process. (os error 32)"), FailureClass::InUse);
    assert_eq!(classify_failure("Permission denied (os error 13)"), FailureClass::Denied);
    assert_eq!(classify_failure("No such file or directory (os error 2)"), FailureClass::NotFound);
    assert_eq!(classify_failure("disk full"), FailureClass::Other);
}

#[test]
fn failure_log_is_capped() {
    assert_eq!(failure_log(0), FailureLog::Line);
    assert_eq!(failure_log(ERROR_LOG_CAP - 1), FailureLog::Line);
    assert_eq!(failure_log(ERROR_LOG_CAP), FailureLog::Suppressed);
    assert_eq!(failure_log(ERROR_LOG_CAP + 1), FailureLog::Silent);
}

#[test]
fn whole_volume_adds_system_excludes() {
    let ex = vec!["*.tmp".to_string()];
    let (v, added) = backup_excludes(&ex, false, &["/".to_string()], Platform::Linux);
    assert!(added);
    assert_eq!(v[0], "*.tmp");
    assert_eq!(v.len(), 1 + disk_excludes(Platform::Linux).len());
    let (v2, added2) = backup_excludes(&ex, true, &["/".to_string()], Platform::Linux);
    assert!(!added2);
    assert_eq!(v2, ex);
    let (_, added3) = backup_excludes(&ex, false, &["/home".to_string()], Platform::Linux);
    assert!(!added3);
}

#[test]
fn globset_matches_defaults_and_extras() {
    let g = build_globset(&["**/*.iso".to_string()], Platform::Linux).unwrap();
    assert!(g.is_match("x/y/image.iso"));
    assert!(!g.is_match("x/y/image.txt"));
    match build_globset(&["a[".to_string()], Platform::Linux) {
        Err(BackupError::BadPattern(p)) => assert_eq!(p, "a["),
        _ => panic!("expected a bad-pattern error"),
    }
}

#[test]
fn file_bytes_counts_files_only() {
    let mut l = entry("l", 7, 0);
    l.meta.kind = Kind::Symlink;
    assert_eq!(file_bytes(&[entry("a", 3, 0), entry("b", 4, 0), l]), 7);
}

#[test]
fn evacuation_preflight_and_gates() {
    let srcs = vec!["/a".to_string(), "/b".to_string()];
    assert!(evacuate_preflight(&srcs, &[Some(false), None], false, Some(10), 5).is_ok());
    match evacuate_preflight(&srcs, &[Some(false), Some(true)], false, Some(10), 5) {
        Err(BackupError::SameDevice(s)) => assert_eq!(s, "/b"),
        _ => panic!("expected a same-device error"),
    }
    assert!(evacuate_preflight(&srcs, &[Some(true), Some(true)], true, None, 5).is_ok());
    assert!(matches!(
        evacuate_preflight(&srcs, &[None, None], false, Some(4), 5),
        Err(BackupError::NotEnoughSpace { need: 5, have: 4 })
    ));
    assert!(copy_phase_gate(0).is_ok());
    assert!(matches!(copy_phase_gate(2), Err(BackupError::CopyErrors(2))));
    assert!(verify_phase_gate(0).is_ok());
    assert!(matches!(verify_phase_gate(1), Err(BackupError::VerifyErrors(1))));
}

#[test]
fn only_confirmed_entries_are_deleted() {
    let mut confirmed = FileMap::new();
    confirmed.insert("b".to_string(), fm(1, 1));
    let entries = vec![entry("a", 1, 1), entry("b", 1, 1)];
    assert_eq!(deletable_entries(&entries, &confirmed), vec![1]);
}

#[test]
fn partitions_are_tallied() {
    let mut t = PartitionTally::new();
    assert!(t.storage_label().is_none());
    t.record("/dev/sda1", StorageKind::Hdd, "/x/1");
    t.record("/dev/sda1", StorageKind::Ssd, "/x/2");
    assert_eq!(t.storage_label().unwrap(), "hdd");
    assert_eq!(t.advice_kind(), StorageKind::Hdd);
    t.record("/dev/nvme0n1p2", StorageKind::Ssd, "/y/1");
    assert_eq!(t.parts().len(), 2);
    assert_eq!(t.parts()[0].files, 2);
    assert_eq!(t.storage_label().unwrap(), "mixed");
    assert_eq!(t.advice_kind(), StorageKind::Ssd);
    assert_eq!(t.ssd_representatives(), vec!["/y/1".to_string()]);
}

#[test]
fn shadow_paths_map_back() {
    let mut e = Entry {
        rel: String::new(),
        abspath: r"\\?\GLOBALROOT\Device\HarddiskVolumeShadowCopy3\Users\x\f.txt".into(),
        meta: fm(1, 1),
    };
    let map = vec![(r"\\?\GLOBALROOT\Device\HarddiskVolumeShadowCopy3\".to_string(), "C:".to_string())];
    vss_remap(&mut e, &map);
    // the volume is joined to the rest of the path as it stands (the prefix
    // took the separator), then made relative
    assert_eq!(e.rel, r"CUsers\x\f.txt");
    let mut other = Entry { rel: "kept".into(), abspath: "/elsewhere/f".into(), meta: fm(1, 1) };
    vss_remap(&mut other, &map);
    assert_eq!(other.rel, "kept");
}

#[test]
fn set_summaries_are_sorted() {
    let s = |set: &str, host: &str, created: &str, files: usize| SetSummary {
        set: set.into(),
        host: host.into(),
        created: created.into(),
        files,
    };
    let v = sort_set_summaries(vec![s("b", "h", "t", 1), s("a", "z", "t", 2), s("a", "h", "t", 3)]);
    let order: Vec<(String, String)> = v.iter().map(|x| (x.set.clone(), x.host.clone())).collect();
    assert_eq!(order, vec![("a".into(), "h".into()), ("a".into(), "z".into()), ("b".into(), "h".into())]);
}

#[test]
fn stats_start_at_zero() {
    let s = Stats::zero();
    assert_eq!((s.copied, s.skipped, s.bytes, s.deleted, s.errors), (0, 0, 0, 0, 0));
}

#[test]
fn evacuation_deletes_only_after_clean_copy_and_verify() {
    let mut e = Evacuation::new(true, false);
    assert_eq!(e.next(), EvacStep::Copy);
    assert!(e.copied(0).is_ok());
    assert_eq!(e.next(), EvacStep::Verify);
    assert!(e.verified(0).is_ok());
    assert_eq!(e.next(), EvacStep::Delete);
    e.finish();
    assert_eq!(e.next(), EvacStep::Stop);

    let mut bad_copy = Evacuation::new(true, false);
    assert!(matches!(bad_copy.copied(3), Err(BackupError::CopyErrors(3))));
    assert_eq!(bad_copy.next(), EvacStep::Stop);

    let mut bad_verify = Evacuation::new(true, false);
    assert!(bad_verify.copied(0).is_ok());
    assert!(matches!(bad_verify.verified(1), Err(BackupError::VerifyErrors(1))));
    assert_eq!(bad_verify.next(), EvacStep::Stop);

    let mut copy_only = Evacuation::new(false, false);
    assert!(copy_only.copied(0).is_ok());
    assert!(copy_only.verified(0).is_ok());
    assert_eq!(copy_only.next(), EvacStep::Stop);

    assert_eq!(Evacuation::new(true, true).next(), EvacStep::Stop);
}

#[test]
fn run_log_lists_sorted_changes() {
    let mut st = Stats::zero();
    st.copied = 2;
    st.skipped = 7;
    st.deleted = 1;
    st.errors = 0;
    let log = run_log(
        "laptop",
        "host1",
        "2026-06-13T10:20:30",
        &st,
        vec!["b/x".to_string(), "a/y".to_string()],
        vec!["gone".to_string()],
    );
    assert_eq!(log.name, "backup-20260613-102030.log");
    assert_eq!(
        log.text,
        "# backuptool  set=laptop  host=host1  2026-06-13T10:20:30\n\
         # changed/new=2 unchanged=7 deleted=1 errors=0\n\
         CHANGED\t/a/y\n\
         CHANGED\t/b/x\n\
         DELETED\t/gone\n"
    );
}

#[test]
fn partition_report_is_sorted_by_label() {
    let mut t = PartitionTally::new();
    t.record("/dev/sdb1", StorageKind::Hdd, "/b/1");
    t.record("/dev/nvme0n1p2", StorageKind::Ssd, "/a/1");
    t.record("/dev/sdb1", StorageKind::Hdd, "/b/2");
    assert_eq!(
        t.report_lines(),
        vec!["  /dev/nvme0n1p2  [ssd]  1 file(s)".to_string(), "  /dev/sdb1  [hdd]  2 file(s)".to_string()]
    );
}

fn dir_meta(mode: u32) -> FileMeta {
    FileMeta { size: 0, mtime: 5, mode, uid: 0, gid: 0, kind: Kind::Dir, target: String::new(), blake3: None }
}

#[test]
fn excluded_directory_hides_everything_below() {
    let set = build_globset(&["**/cache".to_string()], Platform::Linux).unwrap();
    let ancestors = vec!["/home/u".to_string(), "/home/u/cache".to_string(), "/home/u/cache/x".to_string()];
    assert!(is_excluded(&set, &ancestors, "/home/u/cache/x/file.txt"));
    assert!(!is_excluded(&set, &["/home/u".to_string()], "/home/u/notes.txt"));
    assert!(is_excluded(&set, &[], "/home/u/cache"));
}

#[test]
fn patterns_ignore_case_on_windows() {
    let set = build_globset(&["**/*.ISO".to_string()], Platform::Windows).unwrap();
    assert!(set.is_match("C:/data/disk.iso"));
    let strict = build_globset(&["**/*.ISO".to_string()], Platform::Linux).unwrap();
    assert!(!strict.is_match("/data/disk.iso"));
}

#[test]
fn overlapping_sources_keep_first() {
    let rels = vec!["home/u/a".to_string(), "home/u/b".to_string(), "home/u/a".to_string(), "home/u".to_string()];
    assert_eq!(first_occurrences(&rels), vec![true, true, false, true]);
    assert!(first_occurrences(&[]).is_empty());
}

#[test]
fn restore_keys_must_stay_inside() {
    assert!(safe_rel("home/u/a.txt"));
    assert!(safe_rel("a..b/c"));
    assert!(safe_rel("..hidden"));
    assert!(!safe_rel("/etc/passwd"));
    assert!(!safe_rel("\\server\\share"));
    assert!(!safe_rel("C:/Windows"));
    assert!(!safe_rel("../up"));
    assert!(!safe_rel("a/../../b"));
    assert!(!safe_rel("a\\.."));
}

#[test]
fn recorded_directory_is_not_copied_again() {
    assert!(needs_copy(&dir_meta(0o755), None, false));
    assert!(!needs_copy(&dir_meta(0o700), Some(&dir_meta(0o755)), true));
    assert!(needs_copy(&dir_meta(0o755), Some(&fm(1, 1)), false));
}

#[test]
fn directories_are_recorded_but_not_counted_or_deleted() {
    let entries = vec![
        Entry { rel: "d".to_string(), abspath: "/src/d".to_string(), meta: dir_meta(0o755) },
        entry("d/f", 3, 1),
    ];
    let plan = plan_backup(&entries, &FileMap::new(), false);
    assert_eq!(plan.todo, vec![0, 1]);
    assert_eq!(plan.files.len(), 2);
    assert_eq!(manifest_file_count(&plan.files), 1);
    assert_eq!(deletable_entries(&entries, &plan.files), vec![1]);
}

#[test]
fn directories_come_deepest_first() {
    let mut m = FileMap::new();
    m.insert("a".to_string(), dir_meta(0o755));
    m.insert("a/b".to_string(), dir_meta(0o755));
    m.insert("a/b/f".to_string(), fm(1, 1));
    m.insert("c".to_string(), dir_meta(0o700));
    assert_eq!(dirs_deepest_first(&m), vec![3, 1, 0]);
}

#[test]
fn fresh_salt_backup_key_succeeds() {
    let rk = backup_key(Cipher::ChaCha20Poly1305, Some("pw"), None).unwrap().unwrap();
    assert_eq!(rk.kdf.algo, "argon2id");
    assert_eq!(rk.kdf.m_cost, backuptool::crypto::DEFAULT_M_COST);
    let (c, k) = set_key("chacha20poly1305", Some(&rk.kdf), Some("pw")).unwrap();
    assert_eq!(c, Cipher::ChaCha20Poly1305);
    assert_eq!(k, Some(rk.key));
}

#[test]
fn chunked_copy_verifies() {
    let data = b"chunked contents";
    let mut meta = fm(data.len() as u64, 0);
    meta.blake3 = Some(blake3::hash(data).to_hex().to_string());
    let key = [9u8; 32];
    let mut blob = backuptool::stream::stream_magic();
    blob.extend(backuptool::stream::seal_chunk(Cipher::ChaCha20Poly1305, &key, 0, true, data).unwrap());
    assert!(verify_contents(&meta, Cipher::ChaCha20Poly1305, Some(&key), &blob).is_ok());
    let mut wrong = backuptool::stream::stream_magic();
    wrong.extend(backuptool::stream::seal_chunk(Cipher::ChaCha20Poly1305, &key, 0, false, data).unwrap());
    assert!(matches!(verify_contents(&meta, Cipher::ChaCha20Poly1305, Some(&key), &wrong), Err(BackupError::DecryptFailed)));
}

#[test]
fn emptied_directories_go_bottom_up() {
    let dirs = vec!["/s/a".to_string(), "/s/a/b/c".to_string(), "/s/z".to_string(), "/s/a/b".to_string()];
    assert_eq!(removal_order(dirs), vec!["/s/z".to_string(), "/s/a/b/c".to_string(), "/s/a/b".to_string(), "/s/a".to_string()]);
}

#[test]
fn reports_count_files_and_links_only() {
    let mut link = fm(0, 0);
    link.kind = Kind::Symlink;
    let entries = vec![
        Entry { rel: "src".to_string(), abspath: "/src".to_string(), meta: dir_meta(0o755) },
        entry("src/a.txt", 5, 1),
        Entry { rel: "src/sub".to_string(), abspath: "/src/sub".to_string(), meta: dir_meta(0o755) },
        entry("src/sub/b.txt", 10, 1),
        Entry { rel: "src/l".to_string(), abspath: "/src/l".to_string(), meta: link },
    ];
    assert_eq!(entry_file_count(&entries), 3);
    assert!(counts_in_report(Kind::File));
    assert!(counts_in_report(Kind::Symlink));
    assert!(!counts_in_report(Kind::Dir));
    let first = plan_backup(&entries, &FileMap::new(), false);
    assert_eq!(first.unchanged, 0);
    let again = plan_backup(&entries, &first.files, false);
    assert!(again.todo.is_empty());
    assert_eq!(again.unchanged, 3);
}

#[test]
fn restore_steps_by_key_and_kind() {
    assert_eq!(restore_step("a/b", Kind::File), RestoreStep::WriteFile);
    assert_eq!(restore_step("a/l", Kind::Symlink), RestoreStep::MakeLink);
    assert_eq!(restore_step("a", Kind::Dir), RestoreStep::MakeDir);
    assert_eq!(restore_step("/etc/passwd", Kind::File), RestoreStep::Skip);
    assert_eq!(restore_step("a/../../x", Kind::Dir), RestoreStep::Skip);
}
